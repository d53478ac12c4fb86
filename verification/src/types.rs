//! Data model: clips, transitions, overlays, session state, project
//! settings.
//!
//! Times are in integer milliseconds. Normalized screen coordinates
//! (fractions of the frame in 0..=1) are held in ten-thousandths, so the
//! value 10000 stands for 1.0.

use vstd::prelude::*;

verus! {

/// Scale of normalized coordinates: 10000 stands for the full frame.
pub const NORM_ONE: u32 = 10000;

/// A capture rectangle on the virtual desktop. The origin may be negative
/// before normalization (multi-monitor layouts, window shadow borders).
#[derive(Debug, Clone, Copy, PartialEq, Eq, Structural)]
pub struct Region {
    pub x: i32,
    pub y: i32,
    pub width: u32,
    pub height: u32,
}

/// One recorded video unit plus its trim/audio metadata.
#[derive(Debug, Clone)]
pub struct Clip {
    pub id: String,
    pub path: String,
    pub duration_ms: u64,
    pub region: Region,
    pub has_audio: bool,
    pub thumbnail_path: Option<String>,
    /// Start of the trim window in ms; 0 means untrimmed at the start.
    pub trim_start_ms: u64,
    /// End of the trim window in ms; 0 means untrimmed at the end.
    pub trim_end_ms: u64,
    pub audio_paths: Vec<String>,
}

impl Clip {
    /// Trim window well-formedness: an explicit end lies after the start.
    pub open spec fn trim_wf(self) -> bool {
        self.trim_end_ms == 0 || self.trim_end_ms > self.trim_start_ms
    }
}

/// The visual effect bridging two adjacent clips.
#[derive(Debug, Clone, Copy, PartialEq, Eq, Structural)]
pub enum TransitionType {
    Fade,
    FadeBlack,
    FadeWhite,
    Dissolve,
    Zoom,
    Slide,
    SlideRight,
    SlideUp,
    SlideDown,
    WipeLeft,
    WipeRight,
    WipeUp,
    WipeDown,
    Pixelize,
    CircleOpen,
    CircleClose,
    Radial,
    SmoothLeft,
    SmoothRight,
    Cut,
}

/// Lower bound of a transition duration, in ms.
pub const TRANSITION_MIN_MS: u64 = 100;
/// Upper bound of a transition duration, in ms.
pub const TRANSITION_MAX_MS: u64 = 5000;

/// One transition per adjacent clip pair.
#[derive(Debug, Clone, Copy, PartialEq, Eq, Structural)]
pub struct Transition {
    pub transition_type: TransitionType,
    /// Duration in ms, kept within `TRANSITION_MIN_MS..=TRANSITION_MAX_MS`.
    pub duration_ms: u64,
}

impl Default for Transition {
    /// The default transition is a fade of half a second.
    fn default() -> (t: Self)
        ensures
            t.transition_type == TransitionType::Fade,
            t.duration_ms == 500,
    {
        Transition { transition_type: TransitionType::Fade, duration_ms: 500 }
    }
}

/// The recording session is in exactly one of these states.
#[derive(Debug, Clone, Copy, PartialEq, Eq, Structural)]
pub enum RecordingState {
    Idle,
    Recording,
    Paused,
}

#[derive(Debug, Clone, Copy, PartialEq, Eq, Structural)]
pub enum ExportFormat {
    Mp4,
    Gif,
}

#[derive(Debug, Clone, Copy, PartialEq, Eq, Structural)]
pub enum ExportQuality {
    High,
    Medium,
    Low,
}

impl ExportQuality {
    /// Constant rate factor handed to the encoder: lower is better quality.
    pub fn crf(&self) -> (r: u32)
        ensures
            r == self.crf_spec(),
    {
        match self {
            ExportQuality::High => 18,
            ExportQuality::Medium => 23,
            ExportQuality::Low => 28,
        }
    }

    pub open spec fn crf_spec(self) -> u32 {
        match self {
            ExportQuality::High => 18,
            ExportQuality::Medium => 23,
            ExportQuality::Low => 28,
        }
    }

    /// Encoder speed/size preset name.
    pub fn preset(&self) -> (r: String)
        ensures
            r@ == self.preset_spec(),
    {
        match self {
            ExportQuality::High => "slow".to_owned(),
            ExportQuality::Medium => "medium".to_owned(),
            ExportQuality::Low => "fast".to_owned(),
        }
    }

    pub open spec fn preset_spec(self) -> Seq<char> {
        match self {
            ExportQuality::High => "slow"@,
            ExportQuality::Medium => "medium"@,
            ExportQuality::Low => "fast"@,
        }
    }
}

/// Which audio channels a recording captures.
#[derive(Debug, Clone, Copy, PartialEq, Eq, Structural)]
pub enum AudioSource {
    Off,
    System,
    Microphone,
    Both,
}

/// An audio device as reported by the host, reduced to its data contract.
#[derive(Debug, Clone)]
pub struct AudioDevice {
    pub name: String,
    pub is_input: bool,
    pub is_default: bool,
}

/// A visible top-level window, for region snapping.
#[derive(Debug, Clone)]
pub struct WindowInfo {
    pub title: String,
    pub x: i32,
    pub y: i32,
    pub width: u32,
    pub height: u32,
}

/// A monitor's placement on the virtual desktop.
#[derive(Debug, Clone, Copy, PartialEq, Eq, Structural)]
pub struct MonitorInfo {
    pub x: i32,
    pub y: i32,
    pub width: u32,
    pub height: u32,
}

#[derive(Debug, Clone, Copy, PartialEq, Eq, Structural)]
pub enum AnnotationKind {
    Arrow,
    Rectangle,
    Circle,
    Text,
    Freehand,
}

/// A drawing laid over one clip during a time window.
/// Position and size are normalized to the frame, in ten-thousandths.
#[derive(Debug, Clone)]
pub struct Annotation {
    pub id: String,
    pub kind: AnnotationKind,
    pub x: u32,
    pub y: u32,
    pub width: u32,
    pub height: u32,
    pub color: String,
    pub stroke_width: u32,
    pub text: Option<String>,
    /// Path of a freehand stroke, normalized points in ten-thousandths.
    pub points: Option<Vec<(u32, u32)>>,
    pub start_ms: u64,
    pub end_ms: u64,
}

#[derive(Debug, Clone, Copy, PartialEq, Eq, Structural)]
pub enum SubtitlePosition {
    Top,
    Center,
    Bottom,
}

/// A caption over the whole exported timeline.
#[derive(Debug, Clone)]
pub struct Subtitle {
    pub id: String,
    pub text: String,
    pub start_ms: u64,
    pub end_ms: u64,
    pub position: SubtitlePosition,
    /// Font size in points; 0 means the default size.
    pub font_size: u32,
    pub color: String,
}

/// A key combo observed while recording, timestamped from recording start.
#[derive(Debug, Clone)]
pub struct KeystrokeEvent {
    pub timestamp_ms: u64,
    pub key_name: String,
}

/// A cursor sample relative to the capture region, timestamped from
/// recording start. Coordinates are in ten-thousandths of the region.
#[derive(Debug, Clone, Copy, PartialEq, Eq, Structural)]
pub struct CursorPosition {
    pub timestamp_ms: u64,
    pub x: u32,
    pub y: u32,
}

/// Per-project options that persist with the project.
#[derive(Debug, Clone, Copy, PartialEq, Eq, Structural)]
pub struct ProjectSettings {
    pub audio_source: AudioSource,
    pub watermark_enabled: bool,
    pub export_format: ExportFormat,
    pub export_quality: ExportQuality,
}

/// A stored project: clips and everything arranged around them.
#[derive(Debug, Clone)]
pub struct Project {
    pub id: String,
    pub name: String,
    pub created_at: String,
    pub updated_at: String,
    pub clips: Vec<Clip>,
    pub transitions: Vec<Transition>,
    pub settings: ProjectSettings,
    /// Annotations keyed by clip id.
    pub annotations: Vec<(String, Vec<Annotation>)>,
    pub subtitles: Vec<Subtitle>,
}

/// What a project list shows without loading whole projects.
#[derive(Debug, Clone)]
pub struct ProjectSummary {
    pub id: String,
    pub name: String,
    pub created_at: String,
    pub updated_at: String,
    pub clip_count: usize,
    pub total_duration_ms: u64,
}

} // verus!
