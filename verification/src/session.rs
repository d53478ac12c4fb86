//! The recording-session state machine and the clip repository.
//!
//! One value of `AppCore` is the single authority over recording state;
//! the host keeps it behind one lock and owns the live process and
//! thread handles in parallel. Every decision — which transition is
//! valid, what to spawn, what to take over for the blocking stop work —
//! is made here over plain values; the host performs the I/O the
//! returned plans describe, holding the lock across each request so the
//! request and its commit are atomic.

use vstd::prelude::*;
use crate::types::{
    Annotation, AudioSource, Clip, CursorPosition, KeystrokeEvent, RecordingState, Region,
    Subtitle, Transition, TransitionType,
};

verus! {

/// Relies on uuid::Uuid::new_v4 and its hyphenated Display form: a
/// fresh random identity, always 36 characters.
#[verifier::external_body]
fn new_clip_id() -> (r: String)
    ensures
        r@.len() == 36,
{
    uuid::Uuid::new_v4().to_string()
}

/// The session and repository state. Handle presence is mirrored here as
/// plain values (`video_active`, `audio_count`, ...); the host owns the
/// live handles and keeps them aligned with these fields under the lock.
pub struct AppCore {
    pub recording_state: RecordingState,
    /// A capture process is running and not yet taken.
    pub video_active: bool,
    /// The id of the clip being recorded.
    pub current_clip_id: Option<String>,
    /// The file the current segment is captured into.
    pub current_clip_path: Option<String>,
    pub current_region: Option<Region>,
    pub audio_source: AudioSource,
    pub selected_mic: Option<String>,
    /// Finished segment files of this session, from earlier pauses.
    pub recording_segments: Vec<String>,
    pub pause_accumulated_ms: u64,
    pub segment_index: u32,
    /// How many audio capture workers are running.
    pub audio_count: usize,
    pub audio_temp_paths: Vec<String>,
    pub keystroke_enabled: bool,
    pub keystroke_active: bool,
    pub cursor_zoom_enabled: bool,
    pub cursor_active: bool,
    pub countdown_seconds: u32,
    // repository
    pub clips: Vec<Clip>,
    pub transitions: Vec<Transition>,
    pub annotations: Vec<(String, Vec<Annotation>)>,
    pub subtitles: Vec<Subtitle>,
    pub clip_keystrokes: Vec<(String, Vec<KeystrokeEvent>)>,
    pub clip_cursor_positions: Vec<(String, Vec<CursorPosition>)>,
    pub current_project_id: Option<String>,
}

impl AppCore {
    /// One transition exists per adjacent clip pair.
    pub open spec fn transitions_wf(self) -> bool {
        self.transitions@.len() == if self.clips@.len() == 0 {
            0int
        } else {
            self.clips@.len() - 1
        }
    }

    /// A fresh core: idle, nothing captured, empty repository.
    pub fn new() -> (s: Self)
        ensures
            s.recording_state == RecordingState::Idle,
            !s.video_active,
            s.current_clip_id is None,
            s.current_clip_path is None,
            s.current_region is None,
            s.audio_source == AudioSource::Off,
            s.recording_segments@.len() == 0,
            s.pause_accumulated_ms == 0,
            s.segment_index == 0,
            s.audio_count == 0,
            s.audio_temp_paths@.len() == 0,
            !s.keystroke_enabled,
            !s.keystroke_active,
            !s.cursor_zoom_enabled,
            !s.cursor_active,
            s.countdown_seconds == 3,
            s.clips@.len() == 0,
            s.transitions@.len() == 0,
            s.annotations@.len() == 0,
            s.subtitles@.len() == 0,
            s.clip_keystrokes@.len() == 0,
            s.clip_cursor_positions@.len() == 0,
            s.current_project_id is None,
            s.transitions_wf(),
    {
        AppCore {
            recording_state: RecordingState::Idle,
            video_active: false,
            current_clip_id: Option::None,
            current_clip_path: Option::None,
            current_region: Option::None,
            audio_source: AudioSource::Off,
            selected_mic: Option::None,
            recording_segments: Vec::new(),
            pause_accumulated_ms: 0,
            segment_index: 0,
            audio_count: 0,
            audio_temp_paths: Vec::new(),
            keystroke_enabled: false,
            keystroke_active: false,
            cursor_zoom_enabled: false,
            cursor_active: false,
            countdown_seconds: 3,
            clips: Vec::new(),
            transitions: Vec::new(),
            annotations: Vec::new(),
            subtitles: Vec::new(),
            clip_keystrokes: Vec::new(),
            clip_cursor_positions: Vec::new(),
            current_project_id: Option::None,
        }
    }
}

/// What the host must spawn to start a session: the capture file, and
/// the audio/keystroke/cursor workers the current toggles ask for.
#[derive(Debug)]
pub struct StartPlan {
    pub clip_id: String,
    pub clip_path: String,
    /// Capture the chosen region, or the full screen when none is set.
    pub region: Option<Region>,
    pub system_audio_path: Option<String>,
    pub mic_audio_path: Option<String>,
    pub mic_device: Option<String>,
    pub keystrokes: bool,
    /// Track the cursor relative to this region.
    pub cursor_region: Option<Region>,
}

/// What a stop takes over from the session, to be wound down outside the
/// lock.
#[derive(Debug)]
pub struct StopTakeout {
    /// A capture process is still running and must be stopped gracefully.
    pub video_running: bool,
    pub clip_path: String,
    pub region: Region,
    pub segments: Vec<String>,
    pub accumulated_ms: u64,
    pub audio_count: usize,
    pub audio_temp_paths: Vec<String>,
    pub keystrokes_running: bool,
    pub cursor_running: bool,
}

/// What a cancel takes over: everything to kill and every file to
/// delete.
#[derive(Debug)]
pub struct CancelTakeout {
    pub video_running: bool,
    pub clip_path: Option<String>,
    pub segments: Vec<String>,
    pub audio_count: usize,
    pub audio_temp_paths: Vec<String>,
    pub keystrokes_running: bool,
    pub cursor_running: bool,
}

/// The default capture region when none was selected.
pub open spec fn fullscreen_region_spec() -> Region {
    Region { x: 0, y: 0, width: 1920, height: 1080 }
}

impl AppCore {
    /// The repository half is untouched.
    pub open spec fn repo_unchanged(self, other: AppCore) -> bool {
        &&& self.clips == other.clips
        &&& self.transitions == other.transitions
        &&& self.annotations == other.annotations
        &&& self.subtitles == other.subtitles
        &&& self.clip_keystrokes == other.clip_keystrokes
        &&& self.clip_cursor_positions == other.clip_cursor_positions
        &&& self.current_project_id == other.current_project_id
    }

    /// The user-set options are untouched.
    pub open spec fn settings_unchanged(self, other: AppCore) -> bool {
        &&& self.current_region == other.current_region
        &&& self.audio_source == other.audio_source
        &&& self.selected_mic == other.selected_mic
        &&& self.keystroke_enabled == other.keystroke_enabled
        &&& self.cursor_zoom_enabled == other.cursor_zoom_enabled
        &&& self.countdown_seconds == other.countdown_seconds
    }

    /// The session is idle with nothing owned: no capture, no workers,
    /// no pending segment files.
    pub open spec fn session_cleared(self) -> bool {
        &&& self.recording_state == RecordingState::Idle
        &&& !self.video_active
        &&& self.current_clip_id is None
        &&& self.current_clip_path is None
        &&& self.recording_segments@.len() == 0
        &&& self.audio_count == 0
        &&& self.audio_temp_paths@.len() == 0
        &&& !self.keystroke_active
        &&& !self.cursor_active
    }
}

impl AppCore {
    /// Start a session: only valid while idle. Resets the per-session
    /// counters and plans the capture and side workers; the host spawns
    /// them and then commits. The state stays idle until the commit, so
    /// a failed spawn leaves no partial state behind.
    pub fn start_request(&mut self, temp_dir: &str) -> (r: Result<StartPlan, String>)
        ensures
            r is Ok <==> old(self).recording_state == RecordingState::Idle,
            r matches Err(e) ==> e@ == "Enregistrement d\u{e9}j\u{e0} en cours"@ && *final(self)
                == *old(self),
            r matches Ok(plan) ==> {
                &&& final(self).recording_state == RecordingState::Idle
                &&& final(self).recording_segments@.len() == 0
                &&& final(self).pause_accumulated_ms == 0
                &&& final(self).segment_index == 0
                &&& final(self).clips == old(self).clips
                &&& final(self).transitions == old(self).transitions
                &&& plan.clip_id@.len() == 36
                &&& plan.clip_path@ == temp_dir@ + "/"@ + plan.clip_id@ + ".mp4"@
                &&& plan.region == old(self).current_region
                &&& (plan.system_audio_path matches Some(p) ==> p@ == temp_dir@ + "/"@
                    + plan.clip_id@ + "_system.wav"@)
                &&& (plan.system_audio_path is Some <==> (old(self).audio_source
                    == AudioSource::System || old(self).audio_source == AudioSource::Both))
                &&& (plan.mic_audio_path matches Some(p) ==> p@ == temp_dir@ + "/"@
                    + plan.clip_id@ + "_mic.wav"@)
                &&& (plan.mic_audio_path is Some <==> (old(self).audio_source
                    == AudioSource::Microphone || old(self).audio_source == AudioSource::Both))
                &&& plan.mic_device == old(self).selected_mic
                &&& plan.keystrokes == old(self).keystroke_enabled
                &&& (plan.cursor_region is Some <==> old(self).cursor_zoom_enabled)
                &&& (old(self).cursor_zoom_enabled ==> plan.cursor_region == Option::Some(
                    match old(self).current_region {
                        Option::Some(rg) => rg,
                        Option::None => fullscreen_region_spec(),
                    },
                ))
                &&& final(self).current_clip_id == Option::Some(plan.clip_id)
            },
    {
        if !matches!(self.recording_state, RecordingState::Idle) {
            return Result::Err("Enregistrement d\u{e9}j\u{e0} en cours".to_owned());
        }
        self.recording_segments = Vec::new();
        self.pause_accumulated_ms = 0;
        self.segment_index = 0;

        let clip_id = new_clip_id();
        let clip_path = temp_dir.to_owned().concat("/").concat(clip_id.as_str()).concat(".mp4");

        let system_audio_path: Option<String> = if matches!(
            self.audio_source,
            AudioSource::System | AudioSource::Both,
        ) {
            Option::Some(
                temp_dir.to_owned().concat("/").concat(clip_id.as_str()).concat("_system.wav"),
            )
        } else {
            Option::None
        };
        let mic_audio_path: Option<String> = if matches!(
            self.audio_source,
            AudioSource::Microphone | AudioSource::Both,
        ) {
            Option::Some(temp_dir.to_owned().concat("/").concat(clip_id.as_str()).concat("_mic.wav"))
        } else {
            Option::None
        };
        let cursor_region: Option<Region> = if self.cursor_zoom_enabled {
            Option::Some(
                match &self.current_region {
                    Option::Some(rg) => *rg,
                    Option::None => Region { x: 0, y: 0, width: 1920, height: 1080 },
                },
            )
        } else {
            Option::None
        };
        let mic_device: Option<String> = match &self.selected_mic {
            Option::Some(d) => Option::Some(d.clone()),
            Option::None => Option::None,
        };
        self.current_clip_id = Option::Some(clip_id.clone());
        Result::Ok(
            StartPlan {
                clip_id,
                clip_path,
                region: match &self.current_region {
                    Option::Some(rg) => Option::Some(*rg),
                    Option::None => Option::None,
                },
                system_audio_path,
                mic_audio_path,
                mic_device,
                keystrokes: self.keystroke_enabled,
                cursor_region,
            },
        )
    }

    /// Commit a started capture: the host spawned the video process and
    /// whatever side workers succeeded (a failed side worker degrades,
    /// it never aborts the session).
    pub fn start_commit(
        &mut self,
        clip_path: String,
        audio_paths: Vec<String>,
        keystrokes_started: bool,
        cursor_started: bool,
    )
        ensures
            final(self).recording_state == RecordingState::Recording,
            final(self).video_active,
            final(self).current_clip_path == Option::Some(clip_path),
            final(self).audio_count == audio_paths@.len(),
            final(self).audio_temp_paths == audio_paths,
            final(self).keystroke_active == keystrokes_started,
            final(self).cursor_active == cursor_started,
            final(self).clips == old(self).clips,
            final(self).transitions == old(self).transitions,
            final(self).current_clip_id == old(self).current_clip_id,
            final(self).recording_segments == old(self).recording_segments,
            final(self).pause_accumulated_ms == old(self).pause_accumulated_ms,
            final(self).segment_index == old(self).segment_index,
    {
        self.recording_state = RecordingState::Recording;
        self.video_active = true;
        self.audio_count = audio_paths.len();
        self.current_clip_path = Option::Some(clip_path);
        self.audio_temp_paths = audio_paths;
        self.keystroke_active = keystrokes_started;
        self.cursor_active = cursor_started;
    }

    /// Begin a pause: only valid while recording with a live capture and
    /// a known segment file. Takes the capture and audio workers and
    /// marks the session paused; the host stops them outside the lock
    /// and then reports the finished segment.
    pub fn pause_begin(&mut self) -> (r: Result<(String, usize), String>)
        ensures
            r is Ok <==> (old(self).recording_state == RecordingState::Recording && old(
                self,
            ).video_active && old(self).current_clip_path is Some),
            r matches Err(_) ==> *final(self) == *old(self),
            r matches Ok(t) ==> {
                &&& Option::Some(t.0) == old(self).current_clip_path
                &&& t.1 == old(self).audio_count
                &&& *final(self) == (AppCore {
                    recording_state: RecordingState::Paused,
                    video_active: false,
                    audio_count: 0,
                    ..*old(self)
                })
            },
    {
        if !matches!(self.recording_state, RecordingState::Recording) {
            return Result::Err("Pas d'enregistrement en cours".to_owned());
        }
        if !self.video_active {
            return Result::Err("Processus de capture introuvable".to_owned());
        }
        let path = match &self.current_clip_path {
            Option::Some(p) => p.clone(),
            Option::None => {
                return Result::Err("Chemin du clip introuvable".to_owned());
            },
        };
        let audio = self.audio_count;
        self.video_active = false;
        self.audio_count = 0;
        self.recording_state = RecordingState::Paused;
        Result::Ok((path, audio))
    }

    /// Record a finished segment after its capture stopped: accumulate
    /// its play time and remember its file for the final concatenation.
    pub fn pause_finish(&mut self, segment_path: String, segment_ms: u64)
        requires
            old(self).pause_accumulated_ms + segment_ms <= u64::MAX,
        ensures
            final(self).pause_accumulated_ms == old(self).pause_accumulated_ms + segment_ms,
            final(self).recording_segments@ == old(self).recording_segments@.push(segment_path),
            final(self).segment_index == if old(self).segment_index == u32::MAX {
                u32::MAX as int
            } else {
                old(self).segment_index + 1
            },
            *final(self) == (AppCore {
                pause_accumulated_ms: final(self).pause_accumulated_ms,
                recording_segments: final(self).recording_segments,
                segment_index: final(self).segment_index,
                ..*old(self)
            }),
    {
        self.pause_accumulated_ms = self.pause_accumulated_ms + segment_ms;
        self.recording_segments.push(segment_path);
        if self.segment_index < u32::MAX {
            self.segment_index = self.segment_index + 1;
        }
    }

    /// Resume after a pause: only valid while paused with a known clip
    /// id. Plans a fresh segment file and fresh audio workers named
    /// after the base clip id and the segment index (audio restarts per
    /// segment rather than running through, to avoid drift).
    pub fn resume_request(&mut self, temp_dir: &str) -> (r: Result<StartPlan, String>)
        ensures
            r is Ok <==> (old(self).recording_state == RecordingState::Paused && old(
                self,
            ).current_clip_id is Some),
            r matches Err(_) ==> *final(self) == *old(self),
            *final(self) == *old(self),
            r matches Ok(plan) ==> {
                &&& plan.clip_id@ == old(self).current_clip_id->Some_0@ + "_seg"@ + crate::numfmt::dec_seq(
                    old(self).segment_index as int,
                )
                &&& plan.clip_path@ == temp_dir@ + "/"@ + plan.clip_id@ + ".mp4"@
                &&& plan.region == old(self).current_region
                &&& (plan.system_audio_path matches Some(p) ==> p@ == temp_dir@ + "/"@
                    + plan.clip_id@ + "_system.wav"@)
                &&& (plan.system_audio_path is Some <==> (old(self).audio_source
                    == AudioSource::System || old(self).audio_source == AudioSource::Both))
                &&& (plan.mic_audio_path matches Some(p) ==> p@ == temp_dir@ + "/"@
                    + plan.clip_id@ + "_mic.wav"@)
                &&& (plan.mic_audio_path is Some <==> (old(self).audio_source
                    == AudioSource::Microphone || old(self).audio_source == AudioSource::Both))
                &&& plan.mic_device == old(self).selected_mic
                &&& plan.keystrokes == false
                &&& plan.cursor_region is None
            },
    {
        if !matches!(self.recording_state, RecordingState::Paused) {
            return Result::Err("L'enregistrement n'est pas en pause".to_owned());
        }
        let base = match &self.current_clip_id {
            Option::Some(id) => id.clone(),
            Option::None => {
                return Result::Err("Identifiant du clip introuvable".to_owned());
            },
        };
        let seg_id = base.concat("_seg").concat(
            crate::numfmt::u64_string(self.segment_index as u64).as_str(),
        );
        let clip_path = temp_dir.to_owned().concat("/").concat(seg_id.as_str()).concat(".mp4");
        let system_audio_path: Option<String> = if matches!(
            self.audio_source,
            AudioSource::System | AudioSource::Both,
        ) {
            Option::Some(
                temp_dir.to_owned().concat("/").concat(seg_id.as_str()).concat("_system.wav"),
            )
        } else {
            Option::None
        };
        let mic_audio_path: Option<String> = if matches!(
            self.audio_source,
            AudioSource::Microphone | AudioSource::Both,
        ) {
            Option::Some(temp_dir.to_owned().concat("/").concat(seg_id.as_str()).concat("_mic.wav"))
        } else {
            Option::None
        };
        let mic_device: Option<String> = match &self.selected_mic {
            Option::Some(d) => Option::Some(d.clone()),
            Option::None => Option::None,
        };
        Result::Ok(
            StartPlan {
                clip_id: seg_id,
                clip_path,
                region: match &self.current_region {
                    Option::Some(rg) => Option::Some(*rg),
                    Option::None => Option::None,
                },
                system_audio_path,
                mic_audio_path,
                mic_device,
                keystrokes: false,
                cursor_region: Option::None,
            },
        )
    }

    /// Commit a resumed capture: back to recording on the new segment.
    pub fn resume_commit(&mut self, clip_path: String, audio_paths: Vec<String>)
        ensures
            *final(self) == (AppCore {
                recording_state: RecordingState::Recording,
                video_active: true,
                current_clip_path: Option::Some(clip_path),
                audio_count: audio_paths@.len() as usize,
                audio_temp_paths: audio_paths,
                ..*old(self)
            }),
    {
        self.recording_state = RecordingState::Recording;
        self.video_active = true;
        self.audio_count = audio_paths.len();
        self.current_clip_path = Option::Some(clip_path);
        self.audio_temp_paths = audio_paths;
    }
}

/// Whether a stop may proceed: a session is live and its segment file is
/// known.
pub open spec fn stop_allowed(s: AppCore) -> bool {
    (s.recording_state == RecordingState::Recording || s.recording_state
        == RecordingState::Paused) && s.current_clip_path is Some
}

impl AppCore {
    /// Take everything a stop needs, atomically under the host's lock:
    /// only valid from `Recording` or `Paused`. The state turns `Idle`
    /// at once, so of two racing stops exactly the first obtains the
    /// takeout and every later one is told nothing is recording. The
    /// blocking wind-down then happens outside the lock, on the takeout.
    pub fn stop_begin(&mut self) -> (r: Result<StopTakeout, String>)
        ensures
            r is Ok <==> stop_allowed(*old(self)),
            r matches Err(e) ==> *final(self) == *old(self) && (e@
                == "Pas d'enregistrement en cours"@ || e@ == "Chemin du clip introuvable"@),
            !stop_allowed(*old(self)) && (old(self).recording_state == RecordingState::Recording
                || old(self).recording_state == RecordingState::Paused) ==> (r matches Err(e) && e@
                == "Chemin du clip introuvable"@),
            !(old(self).recording_state == RecordingState::Recording || old(self).recording_state
                == RecordingState::Paused) ==> (r matches Err(e) && e@
                == "Pas d'enregistrement en cours"@),
            r matches Ok(t) ==> {
                &&& t.video_running == old(self).video_active
                &&& Option::Some(t.clip_path) == old(self).current_clip_path
                &&& t.region == (match old(self).current_region {
                    Option::Some(rg) => rg,
                    Option::None => fullscreen_region_spec(),
                })
                &&& t.segments == old(self).recording_segments
                &&& t.accumulated_ms == old(self).pause_accumulated_ms
                &&& t.audio_count == old(self).audio_count
                &&& t.audio_temp_paths == old(self).audio_temp_paths
                &&& t.keystrokes_running == old(self).keystroke_active
                &&& t.cursor_running == old(self).cursor_active
                &&& final(self).session_cleared()
                &&& final(self).repo_unchanged(*old(self))
                &&& final(self).settings_unchanged(*old(self))
                &&& final(self).pause_accumulated_ms == old(self).pause_accumulated_ms
                &&& final(self).segment_index == old(self).segment_index
                &&& !stop_allowed(*final(self))
            },
    {
        if !(matches!(self.recording_state, RecordingState::Recording) || matches!(
            self.recording_state,
            RecordingState::Paused,
        )) {
            return Result::Err("Pas d'enregistrement en cours".to_owned());
        }
        let clip_path = match &self.current_clip_path {
            Option::Some(p) => p.clone(),
            Option::None => {
                return Result::Err("Chemin du clip introuvable".to_owned());
            },
        };
        let video_running = self.video_active;
        let region = match &self.current_region {
            Option::Some(rg) => *rg,
            Option::None => Region { x: 0, y: 0, width: 1920, height: 1080 },
        };
        let mut segments: Vec<String> = Vec::new();
        core::mem::swap(&mut segments, &mut self.recording_segments);
        let mut audio_temp_paths: Vec<String> = Vec::new();
        core::mem::swap(&mut audio_temp_paths, &mut self.audio_temp_paths);
        let accumulated_ms = self.pause_accumulated_ms;
        let audio_count = self.audio_count;
        let keystrokes_running = self.keystroke_active;
        let cursor_running = self.cursor_active;

        self.recording_state = RecordingState::Idle;
        self.video_active = false;
        self.current_clip_id = Option::None;
        self.current_clip_path = Option::None;
        self.audio_count = 0;
        self.keystroke_active = false;
        self.cursor_active = false;

        Result::Ok(
            StopTakeout {
                video_running,
                clip_path,
                region,
                segments,
                accumulated_ms,
                audio_count,
                audio_temp_paths,
                keystrokes_running,
                cursor_running,
            },
        )
    }

    /// Commit the finished clip and its side data to the repository,
    /// under a second lock acquisition. A default transition joins it to
    /// the previous clip, keeping one transition per adjacent pair;
    /// empty side data is not stored.
    pub fn stop_commit(
        &mut self,
        clip: Clip,
        keystrokes: Vec<KeystrokeEvent>,
        cursors: Vec<CursorPosition>,
    )
        ensures
            final(self).clips@ == old(self).clips@.push(clip),
            final(self).transitions@ == if old(self).clips@.len() == 0 {
                old(self).transitions@
            } else {
                old(self).transitions@.push(
                    Transition { transition_type: TransitionType::Fade, duration_ms: 500 },
                )
            },
            old(self).transitions_wf() ==> final(self).transitions_wf(),
            final(self).pause_accumulated_ms == 0,
            final(self).segment_index == 0,
            final(self).clip_keystrokes@ == if keystrokes@.len() > 0 {
                old(self).clip_keystrokes@.push((clip.id, keystrokes))
            } else {
                old(self).clip_keystrokes@
            },
            final(self).clip_cursor_positions@ == if cursors@.len() > 0 {
                old(self).clip_cursor_positions@.push((clip.id, cursors))
            } else {
                old(self).clip_cursor_positions@
            },
            final(self).annotations == old(self).annotations,
            final(self).subtitles == old(self).subtitles,
            final(self).recording_state == old(self).recording_state,
    {
        if self.clips.len() > 0 {
            self.transitions.push(
                Transition { transition_type: TransitionType::Fade, duration_ms: 500 },
            );
        }
        let clip_id = clip.id.clone();
        self.clips.push(clip);
        self.pause_accumulated_ms = 0;
        self.segment_index = 0;
        if keystrokes.len() > 0 {
            self.clip_keystrokes.push((clip_id.clone(), keystrokes));
        }
        if cursors.len() > 0 {
            self.clip_cursor_positions.push((clip_id, cursors));
        }
    }

    /// Cancel whatever is in flight: take everything for a hard kill and
    /// file cleanup, reset to idle. No clip is produced. Valid in every
    /// state; an idle cancel takes nothing.
    pub fn cancel(&mut self) -> (t: CancelTakeout)
        ensures
            t.video_running == old(self).video_active,
            t.clip_path == old(self).current_clip_path,
            t.segments == old(self).recording_segments,
            t.audio_count == old(self).audio_count,
            t.audio_temp_paths == old(self).audio_temp_paths,
            t.keystrokes_running == old(self).keystroke_active,
            t.cursor_running == old(self).cursor_active,
            final(self).session_cleared(),
            final(self).repo_unchanged(*old(self)),
            final(self).settings_unchanged(*old(self)),
            final(self).pause_accumulated_ms == 0,
            final(self).segment_index == 0,
    {
        let video_running = self.video_active;
        let mut clip_path: Option<String> = Option::None;
        core::mem::swap(&mut clip_path, &mut self.current_clip_path);
        let mut segments: Vec<String> = Vec::new();
        core::mem::swap(&mut segments, &mut self.recording_segments);
        let mut audio_temp_paths: Vec<String> = Vec::new();
        core::mem::swap(&mut audio_temp_paths, &mut self.audio_temp_paths);
        let audio_count = self.audio_count;
        let keystrokes_running = self.keystroke_active;
        let cursor_running = self.cursor_active;

        self.recording_state = RecordingState::Idle;
        self.video_active = false;
        self.current_clip_id = Option::None;
        self.pause_accumulated_ms = 0;
        self.segment_index = 0;
        self.audio_count = 0;
        self.keystroke_active = false;
        self.cursor_active = false;

        CancelTakeout {
            video_running,
            clip_path,
            segments,
            audio_count,
            audio_temp_paths,
            keystrokes_running,
            cursor_running,
        }
    }
}

/// Of two stop requests on one session, exactly the first can obtain the
/// takeout: a successful stop leaves the session in a state in which a
/// stop is no longer allowed, so the second request is refused as "not
/// recording".
pub proof fn lemma_single_owner_stop(before: AppCore, after: AppCore)
    requires
        stop_allowed(before),
        after.session_cleared(),
    ensures
        !stop_allowed(after),
{
}


// ─── repository operations ───

/// The clips left after deleting `id`: every clip whose id differs, in
/// order.
pub open spec fn remove_clip_spec(clips: Seq<Clip>, id: Seq<char>) -> Seq<Clip>
    decreases clips.len(),
{
    if clips.len() == 0 {
        Seq::<Clip>::empty()
    } else if clips[0].id@ == id {
        remove_clip_spec(clips.drop_first(), id)
    } else {
        seq![clips[0]] + remove_clip_spec(clips.drop_first(), id)
    }
}

/// An association list without the entries stored under `id`.
pub open spec fn assoc_remove_spec<T>(map: Seq<(String, Vec<T>)>, id: Seq<char>) -> Seq<
    (String, Vec<T>),
>
    decreases map.len(),
{
    if map.len() == 0 {
        Seq::<(String, Vec<T>)>::empty()
    } else if map[0].0@ == id {
        assoc_remove_spec(map.drop_first(), id)
    } else {
        seq![map[0]] + assoc_remove_spec(map.drop_first(), id)
    }
}

fn assoc_remove<T>(map: &mut Vec<(String, Vec<T>)>, id: &String)
    ensures
        final(map)@ == assoc_remove_spec(old(map)@, id@),
{
    let ghost orig = map@;
    let mut kept: Vec<(String, Vec<T>)> = Vec::new();
    loop
        invariant
            assoc_remove_spec(orig, id@) == kept@ + assoc_remove_spec(map@, id@),
        ensures
            map@.len() == 0,
            assoc_remove_spec(orig, id@) == kept@ + assoc_remove_spec(map@, id@),
        decreases map@.len(),
    {
        if map.len() == 0 {
            break;
        }
        let entry = map.remove(0);
        let keep = !(entry.0 == *id);
        if keep {
            kept.push(entry);
        }
        proof {
            assert(assoc_remove_spec(orig, id@) =~= kept@ + assoc_remove_spec(map@, id@));
        }
    }
    proof {
        assert(assoc_remove_spec(map@, id@) =~= Seq::<(String, Vec<T>)>::empty());
        assert(kept@ =~= assoc_remove_spec(orig, id@));
    }
    *map = kept;
}

/// The first position holding a clip with this id.
pub open spec fn has_clip_spec(clips: Seq<Clip>, id: Seq<char>) -> bool {
    exists|j: int| 0 <= j < clips.len() && (#[trigger] clips[j]).id@ == id
}

impl AppCore {
    /// Delete a clip by id: remove it together with its stored
    /// annotations, keystrokes and cursor samples, and shorten the
    /// transition list so one transition remains per adjacent pair.
    pub fn delete_clip(&mut self, clip_id: &String)
        ensures
            final(self).clips@ == remove_clip_spec(old(self).clips@, clip_id@),
            final(self).transitions@ == old(self).transitions@.take(
                ({
                    let max = if final(self).clips@.len() == 0 {
                        0int
                    } else {
                        final(self).clips@.len() - 1
                    };
                    if old(self).transitions@.len() < max {
                        old(self).transitions@.len() as int
                    } else {
                        max
                    }
                }),
            ),
            old(self).transitions_wf() ==> final(self).transitions_wf(),
            final(self).annotations@ == assoc_remove_spec(old(self).annotations@, clip_id@),
            final(self).clip_keystrokes@ == assoc_remove_spec(
                old(self).clip_keystrokes@,
                clip_id@,
            ),
            final(self).clip_cursor_positions@ == assoc_remove_spec(
                old(self).clip_cursor_positions@,
                clip_id@,
            ),
            final(self).subtitles == old(self).subtitles,
            final(self).recording_state == old(self).recording_state,
    {
        let ghost orig = self.clips@;
        let mut kept: Vec<Clip> = Vec::new();
        loop
            invariant
                remove_clip_spec(orig, clip_id@) == kept@ + remove_clip_spec(
                    self.clips@,
                    clip_id@,
                ),
                self.transitions == old(self).transitions,
                self.annotations == old(self).annotations,
                self.subtitles == old(self).subtitles,
                self.clip_keystrokes == old(self).clip_keystrokes,
                self.clip_cursor_positions == old(self).clip_cursor_positions,
                self.recording_state == old(self).recording_state,
            ensures
                self.clips@.len() == 0,
                remove_clip_spec(orig, clip_id@) == kept@ + remove_clip_spec(
                    self.clips@,
                    clip_id@,
                ),
                self.transitions == old(self).transitions,
                self.annotations == old(self).annotations,
                self.subtitles == old(self).subtitles,
                self.clip_keystrokes == old(self).clip_keystrokes,
                self.clip_cursor_positions == old(self).clip_cursor_positions,
                self.recording_state == old(self).recording_state,
            decreases self.clips@.len(),
        {
            if self.clips.len() == 0 {
                break;
            }
            let clip = self.clips.remove(0);
            if !(clip.id == *clip_id) {
                kept.push(clip);
            }
            proof {
                assert(remove_clip_spec(orig, clip_id@) =~= kept@ + remove_clip_spec(
                    self.clips@,
                    clip_id@,
                ));
            }
        }
        proof {
            assert(remove_clip_spec(self.clips@, clip_id@) =~= Seq::<Clip>::empty());
            assert(kept@ =~= remove_clip_spec(orig, clip_id@));
        }
        self.clips = kept;

        let max_transitions = if self.clips.len() == 0 {
            0
        } else {
            self.clips.len() - 1
        };
        self.transitions.truncate(max_transitions);

        assoc_remove(&mut self.annotations, clip_id);
        assoc_remove(&mut self.clip_keystrokes, clip_id);
        assoc_remove(&mut self.clip_cursor_positions, clip_id);

        proof {
            lemma_remove_clip_len(orig, clip_id@);
        }
    }

    /// Reorder the clips to the given id order. Every id must name a
    /// stored clip; an unknown id refuses the whole reorder and leaves
    /// the list unchanged.
    pub fn reorder_clips(&mut self, clip_ids: &Vec<String>) -> (r: Result<(), String>)
        ensures
            r is Ok <==> (forall|j: int|
                0 <= j < clip_ids@.len() ==> has_clip_spec(
                    old(self).clips@,
                    (#[trigger] clip_ids@[j])@,
                )),
            r matches Err(_) ==> *final(self) == *old(self),
            r is Ok ==> {
                &&& final(self).clips@.len() == clip_ids@.len()
                &&& forall|j: int|
                    0 <= j < clip_ids@.len() ==> (#[trigger] final(self).clips@[j]).id@
                        == clip_ids@[j]@ && has_clip_spec(old(self).clips@, clip_ids@[j]@)
                &&& final(self).transitions == old(self).transitions
            },
    {
        let n = clip_ids.len();
        let mut reordered: Vec<Clip> = Vec::new();
        let mut i: usize = 0;
        while i < n
            invariant
                n == clip_ids@.len(),
                i <= n,
                self == old(self),
                reordered@.len() == i,
                forall|j: int|
                    0 <= j < i ==> (#[trigger] reordered@[j]).id@ == clip_ids@[j]@,
                forall|j: int|
                    0 <= j < i ==> has_clip_spec(old(self).clips@, (#[trigger] clip_ids@[j])@),
            decreases n - i,
        {
            let id = &clip_ids[i];
            match self.find_clip(id) {
                Option::Some(c) => {
                    reordered.push(c);
                },
                Option::None => {
                    proof {
                        assert(!has_clip_spec(old(self).clips@, clip_ids@[i as int]@));
                    }
                    return Result::Err("Clip not found: ".to_owned().concat(id.as_str()));
                },
            }
            i = i + 1;
        }
        self.clips = reordered;
        Result::Ok(())
    }

    /// Find a stored clip by id; the returned copy is field-for-field the
    /// stored clip.
    fn find_clip(&self, clip_id: &String) -> (r: Option<Clip>)
        ensures
            r is Some <==> has_clip_spec(self.clips@, clip_id@),
            r matches Some(c) ==> c.id@ == clip_id@ && exists|j: int|
                0 <= j < self.clips@.len() && clip_like(c, #[trigger] self.clips@[j]),
    {
        let n = self.clips.len();
        let mut i: usize = 0;
        while i < n
            invariant
                n == self.clips@.len(),
                i <= n,
                forall|j: int| 0 <= j < i ==> (#[trigger] self.clips@[j]).id@ != clip_id@,
            decreases n - i,
        {
            if self.clips[i].id == *clip_id {
                return Option::Some(clone_clip(&self.clips[i]));
            }
            i = i + 1;
        }
        Option::None
    }

    /// Replace the transition after clip `index`. The duration, when
    /// given, is clamped into the valid range.
    pub fn set_transition(
        &mut self,
        index: usize,
        transition_type: TransitionType,
        duration_ms: Option<u64>,
    ) -> (r: Result<(), String>)
        ensures
            r is Ok <==> index < old(self).transitions@.len(),
            r matches Err(_) ==> *final(self) == *old(self),
            r is Ok ==> final(self).transitions@ == old(self).transitions@.update(
                index as int,
                Transition {
                    transition_type,
                    duration_ms: (match duration_ms {
                        Option::Some(d) => if d < crate::types::TRANSITION_MIN_MS {
                            crate::types::TRANSITION_MIN_MS as u64
                        } else if d > crate::types::TRANSITION_MAX_MS {
                            crate::types::TRANSITION_MAX_MS as u64
                        } else {
                            d
                        },
                        Option::None => old(self).transitions@[index as int].duration_ms,
                    }),
                },
            ) && final(self).clips == old(self).clips,
    {
        if index >= self.transitions.len() {
            return Result::Err(
                "Transition index "
                    .to_owned()
                    .concat(crate::numfmt::usize_string(index).as_str())
                    .concat(" out of bounds"),
            );
        }
        self.transitions[index].transition_type = transition_type;
        if let Option::Some(d) = duration_ms {
            let clamped = if d < crate::types::TRANSITION_MIN_MS {
                crate::types::TRANSITION_MIN_MS
            } else if d > crate::types::TRANSITION_MAX_MS {
                crate::types::TRANSITION_MAX_MS
            } else {
                d
            };
            self.transitions[index].duration_ms = clamped;
        }
        proof {
            assert(final(self).transitions@ =~= old(self).transitions@.update(
                index as int,
                final(self).transitions@[index as int],
            ));
        }
        Result::Ok(())
    }

    /// Give every transition the same type, keeping each duration.
    pub fn set_all_transitions(&mut self, transition_type: TransitionType)
        ensures
            final(self).transitions@.len() == old(self).transitions@.len(),
            forall|j: int|
                0 <= j < old(self).transitions@.len() ==> (#[trigger] final(self).transitions@[j])
                    == (Transition {
                    transition_type,
                    duration_ms: old(self).transitions@[j].duration_ms,
                }),
            final(self).clips == old(self).clips,
    {
        let n = self.transitions.len();
        let mut i: usize = 0;
        while i < n
            invariant
                n == self.transitions@.len(),
                n == old(self).transitions@.len(),
                i <= n,
                self.clips == old(self).clips,
                self.annotations == old(self).annotations,
                self.subtitles == old(self).subtitles,
                self.clip_keystrokes == old(self).clip_keystrokes,
                self.clip_cursor_positions == old(self).clip_cursor_positions,
                forall|j: int|
                    0 <= j < i ==> (#[trigger] self.transitions@[j]) == (Transition {
                        transition_type,
                        duration_ms: old(self).transitions@[j].duration_ms,
                    }),
                forall|j: int|
                    i <= j < n ==> (#[trigger] self.transitions@[j]) == old(self).transitions@[j],
            decreases n - i,
        {
            self.transitions[i].transition_type = transition_type;
            i = i + 1;
        }
    }

    /// Set a clip's trim window by id.
    pub fn set_clip_trim(
        &mut self,
        clip_id: &String,
        trim_start_ms: u64,
        trim_end_ms: u64,
    ) -> (r: Result<(), String>)
        ensures
            r is Ok <==> has_clip_spec(old(self).clips@, clip_id@),
            r matches Err(_) ==> *final(self) == *old(self),
            r is Ok ==> exists|j: int|
                0 <= j < old(self).clips@.len() && (#[trigger] old(self).clips@[j]).id@ == clip_id@
                    && final(self).clips@ == old(self).clips@.update(
                    j,
                    Clip { trim_start_ms, trim_end_ms, ..old(self).clips@[j] },
                ) && final(self).transitions == old(self).transitions,
    {
        let n = self.clips.len();
        let mut i: usize = 0;
        while i < n
            invariant
                n == self.clips@.len(),
                i <= n,
                self == old(self),
                forall|j: int| 0 <= j < i ==> (#[trigger] self.clips@[j]).id@ != clip_id@,
            decreases n - i,
        {
            if self.clips[i].id == *clip_id {
                self.clips[i].trim_start_ms = trim_start_ms;
                self.clips[i].trim_end_ms = trim_end_ms;
                proof {
                    assert(final(self).clips@ =~= old(self).clips@.update(
                        i as int,
                        Clip { trim_start_ms, trim_end_ms, ..old(self).clips@[i as int] },
                    ));
                }
                return Result::Ok(());
            }
            i = i + 1;
        }
        Result::Err("Clip not found: ".to_owned().concat(clip_id.as_str()))
    }

    /// Toggle audio capture between off and the system source; the
    /// result says whether audio is now on.
    pub fn toggle_audio(&mut self) -> (r: bool)
        ensures
            old(self).audio_source == AudioSource::Off ==> final(self).audio_source
                == AudioSource::System && r,
            old(self).audio_source != AudioSource::Off ==> final(self).audio_source
                == AudioSource::Off && !r,
            final(self).clips == old(self).clips,
            final(self).recording_state == old(self).recording_state,
    {
        let enabled = !matches!(self.audio_source, AudioSource::Off);
        if enabled {
            self.audio_source = AudioSource::Off;
        } else {
            self.audio_source = AudioSource::System;
        }
        !matches!(self.audio_source, AudioSource::Off)
    }

    /// Store a clip's annotation list, replacing any stored one.
    pub fn set_clip_annotations(&mut self, clip_id: String, annotations: Vec<Annotation>)
        ensures
            final(self).annotations@ == assoc_remove_spec(old(self).annotations@, clip_id@).push(
                (clip_id, annotations),
            ),
            final(self).clips == old(self).clips,
            final(self).transitions == old(self).transitions,
    {
        assoc_remove(&mut self.annotations, &clip_id);
        self.annotations.push((clip_id, annotations));
    }
}

/// Deleting a clip never leaves more clips than before, so the shortened
/// transition list again has one transition per adjacent pair.
pub proof fn lemma_remove_clip_len(clips: Seq<Clip>, id: Seq<char>)
    ensures
        remove_clip_spec(clips, id).len() <= clips.len(),
    decreases clips.len(),
{
    if clips.len() > 0 {
        lemma_remove_clip_len(clips.drop_first(), id);
    }
}

/// Two clips equal in every field (the audio list compared by its
/// contents).
pub open spec fn clip_like(a: Clip, b: Clip) -> bool {
    &&& a.id == b.id
    &&& a.path == b.path
    &&& a.duration_ms == b.duration_ms
    &&& a.region == b.region
    &&& a.has_audio == b.has_audio
    &&& a.thumbnail_path == b.thumbnail_path
    &&& a.trim_start_ms == b.trim_start_ms
    &&& a.trim_end_ms == b.trim_end_ms
    &&& a.audio_paths@ == b.audio_paths@
}

/// A field-for-field copy of a clip.
pub fn clone_clip(c: &Clip) -> (r: Clip)
    ensures
        clip_like(r, *c),
{
    Clip {
        id: c.id.clone(),
        path: c.path.clone(),
        duration_ms: c.duration_ms,
        region: c.region,
        has_audio: c.has_audio,
        thumbnail_path: (match &c.thumbnail_path {
            Option::Some(p) => Option::Some(p.clone()),
            Option::None => Option::None,
        }),
        trim_start_ms: c.trim_start_ms,
        trim_end_ms: c.trim_end_ms,
        audio_paths: clone_strings(&c.audio_paths),
    }
}

/// A copy of a string list holding the same strings.
pub fn clone_strings(v: &Vec<String>) -> (r: Vec<String>)
    ensures
        r@ == v@,
{
    let mut out: Vec<String> = Vec::new();
    let n = v.len();
    let mut i: usize = 0;
    while i < n
        invariant
            n == v@.len(),
            i <= n,
            out@ == v@.take(i as int),
        decreases n - i,
    {
        out.push(v[i].clone());
        proof {
            assert(out@ =~= v@.take(i + 1 as int));
        }
        i = i + 1;
    }
    proof {
        assert(out@ =~= v@);
    }
    out
}

} // verus!
