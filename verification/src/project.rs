//! Project assembly and summaries, and the screen-geometry helpers of
//! the region selector.

use vstd::prelude::*;
use crate::types::{
    Annotation, AudioSource, Clip, ExportFormat, ExportQuality, MonitorInfo, Project,
    ProjectSettings, ProjectSummary, Subtitle, Transition,
};

verus! {

/// The sum of the clips' durations.
pub open spec fn total_duration_spec(clips: Seq<Clip>, upto: int) -> int
    decreases upto,
{
    if upto <= 0 {
        0
    } else {
        total_duration_spec(clips, upto - 1) + clips[upto - 1].duration_ms as int
    }
}

/// Assemble a project value for persistence: the repository collections
/// under the given identity and timestamps, with the stored settings.
pub fn make_project(
    id: String,
    name: String,
    created_at: String,
    updated_at: String,
    clips: Vec<Clip>,
    transitions: Vec<Transition>,
    audio_source: AudioSource,
    annotations: Vec<(String, Vec<Annotation>)>,
    subtitles: Vec<Subtitle>,
) -> (p: Project)
    ensures
        p.id == id,
        p.name == name,
        p.created_at == created_at,
        p.updated_at == updated_at,
        p.clips == clips,
        p.transitions == transitions,
        p.settings == (ProjectSettings {
            audio_source,
            watermark_enabled: true,
            export_format: ExportFormat::Mp4,
            export_quality: ExportQuality::Medium,
        }),
        p.annotations == annotations,
        p.subtitles == subtitles,
{
    Project {
        id,
        name,
        created_at,
        updated_at,
        clips,
        transitions,
        settings: ProjectSettings {
            audio_source,
            watermark_enabled: true,
            export_format: ExportFormat::Mp4,
            export_quality: ExportQuality::Medium,
        },
        annotations,
        subtitles,
    }
}

/// Summarize a project for listing: its identity, clip count and total
/// clip duration (saturated when it cannot be held).
pub fn summarize_project(project: &Project) -> (s: ProjectSummary)
    ensures
        s.id == project.id,
        s.name == project.name,
        s.created_at == project.created_at,
        s.updated_at == project.updated_at,
        s.clip_count == project.clips@.len(),
        s.total_duration_ms == if total_duration_spec(
            project.clips@,
            project.clips@.len() as int,
        ) <= u64::MAX {
            total_duration_spec(project.clips@, project.clips@.len() as int)
        } else {
            u64::MAX as int
        },
{
    let n = project.clips.len();
    let mut total: u64 = 0;
    let mut saturated = false;
    let mut i: usize = 0;
    while i < n
        invariant
            n == project.clips@.len(),
            i <= n,
            !saturated ==> total == total_duration_spec(project.clips@, i as int),
            saturated ==> total == u64::MAX && total_duration_spec(project.clips@, i as int)
                > u64::MAX,
        decreases n - i,
    {
        proof {
            lemma_total_duration_mono(project.clips@, i as int);
        }
        let d = project.clips[i].duration_ms;
        if !saturated && total <= u64::MAX - d {
            total = total + d;
        } else {
            total = u64::MAX;
            saturated = true;
        }
        i = i + 1;
    }
    ProjectSummary {
        id: project.id.clone(),
        name: project.name.clone(),
        created_at: project.created_at.clone(),
        updated_at: project.updated_at.clone(),
        clip_count: n,
        total_duration_ms: total,
    }
}

proof fn lemma_total_duration_mono(clips: Seq<Clip>, upto: int)
    ensures
        upto >= 0 ==> total_duration_spec(clips, upto) >= 0,
    decreases upto,
{
    if upto > 0 {
        lemma_total_duration_mono(clips, upto - 1);
    }
}

/// Load a project's collections into the repository, replacing what was
/// there, as opening a stored project does.
pub fn apply_project(core: &mut crate::session::AppCore, project: Project)
    ensures
        final(core).clips == project.clips,
        final(core).transitions == project.transitions,
        final(core).audio_source == project.settings.audio_source,
        final(core).annotations == project.annotations,
        final(core).subtitles == project.subtitles,
        final(core).current_project_id == Option::Some(project.id),
        final(core).recording_state == old(core).recording_state,
        final(core).clip_keystrokes == old(core).clip_keystrokes,
        final(core).clip_cursor_positions == old(core).clip_cursor_positions,
{
    core.clips = project.clips;
    core.transitions = project.transitions;
    core.audio_source = project.settings.audio_source;
    core.annotations = project.annotations;
    core.subtitles = project.subtitles;
    core.current_project_id = Option::Some(project.id);
}

/// Saving and re-opening restores the repository's collections: a
/// project assembled from the repository's clips, transitions,
/// annotations and subtitles, applied back, leaves each collection equal
/// to the original. (The library states this of the project value
/// itself; the byte-level reading and writing of the project file is the
/// host's, outside the library.)
pub proof fn lemma_project_round_trip(
    before: crate::session::AppCore,
    project: Project,
    after: crate::session::AppCore,
)
    requires
        project.clips == before.clips,
        project.transitions == before.transitions,
        project.settings.audio_source == before.audio_source,
        project.annotations == before.annotations,
        project.subtitles == before.subtitles,
        after.clips == project.clips,
        after.transitions == project.transitions,
        after.audio_source == project.settings.audio_source,
        after.annotations == project.annotations,
        after.subtitles == project.subtitles,
    ensures
        after.clips == before.clips,
        after.transitions == before.transitions,
        after.audio_source == before.audio_source,
        after.annotations == before.annotations,
        after.subtitles == before.subtitles,
{
}

// ─── screen geometry ───

/// The bounding box of the monitors as (least x, least y, greatest
/// right edge, greatest bottom edge); the primary 1920 x 1080 frame
/// when none are reported.
pub open spec fn monitor_bounds_spec(monitors: Seq<MonitorInfo>, upto: int) -> (
    int,
    int,
    int,
    int,
)
    decreases upto,
{
    if upto <= 0 {
        (0, 0, 1920, 1080)
    } else if upto == 1 {
        (
            monitors[0].x as int,
            monitors[0].y as int,
            monitors[0].x + monitors[0].width,
            monitors[0].y + monitors[0].height,
        )
    } else {
        let prev = monitor_bounds_spec(monitors, upto - 1);
        let m = monitors[upto - 1];
        (
            if m.x < prev.0 {
                m.x as int
            } else {
                prev.0
            },
            if m.y < prev.1 {
                m.y as int
            } else {
                prev.1
            },
            if m.x + m.width > prev.2 {
                m.x + m.width
            } else {
                prev.2
            },
            if m.y + m.height > prev.3 {
                m.y + m.height
            } else {
                prev.3
            },
        )
    }
}

/// The virtual-desktop bounding box across the monitors, for the region
/// selector's overlay.
pub fn monitor_bounds(monitors: &Vec<MonitorInfo>) -> (r: (i64, i64, i64, i64))
    ensures
        ({
            let b = monitor_bounds_spec(monitors@, monitors@.len() as int);
            r.0 == b.0 && r.1 == b.1 && r.2 == b.2 && r.3 == b.3
        }),
{
    let n = monitors.len();
    if n == 0 {
        return (0, 0, 1920, 1080);
    }
    let mut min_x: i64 = monitors[0].x as i64;
    let mut min_y: i64 = monitors[0].y as i64;
    let mut max_x: i64 = monitors[0].x as i64 + monitors[0].width as i64;
    let mut max_y: i64 = monitors[0].y as i64 + monitors[0].height as i64;
    let mut i: usize = 1;
    while i < n
        invariant
            n == monitors@.len(),
            1 <= i <= n,
            ({
                let b = monitor_bounds_spec(monitors@, i as int);
                min_x == b.0 && min_y == b.1 && max_x == b.2 && max_y == b.3
            }),
        decreases n - i,
    {
        let m = &monitors[i];
        if (m.x as i64) < min_x {
            min_x = m.x as i64;
        }
        if (m.y as i64) < min_y {
            min_y = m.y as i64;
        }
        if m.x as i64 + m.width as i64 > max_x {
            max_x = m.x as i64 + m.width as i64;
        }
        if m.y as i64 + m.height as i64 > max_y {
            max_y = m.y as i64 + m.height as i64;
        }
        i = i + 1;
    }
    (min_x, min_y, max_x, max_y)
}

/// Whether an enumerated window is offered for snapping: visible, not
/// minimized or cloaked, carrying a real title that is not a known
/// system shell window, and at least 50 px on each side.
pub open spec fn keep_window_spec(
    title: Seq<char>,
    width: u32,
    height: u32,
    visible: bool,
    minimized: bool,
    cloaked: bool,
) -> bool {
    visible && !minimized && !cloaked && title.len() > 0 && title != "Program Manager"@ && title
        != "Windows Input Experience"@ && width >= 50 && height >= 50
}

/// Decide whether an enumerated window is kept.
pub fn keep_window(
    title: &String,
    width: u32,
    height: u32,
    visible: bool,
    minimized: bool,
    cloaked: bool,
) -> (r: bool)
    ensures
        r == keep_window_spec(title@, width, height, visible, minimized, cloaked),
{
    visible && !minimized && !cloaked && title.as_str().unicode_len() > 0 && !(*title
        == "Program Manager".to_owned()) && !(*title == "Windows Input Experience".to_owned())
        && width >= 50 && height >= 50
}

} // verus!
