use clipflow::capture::{generate_thumbnail_args, probe_duration_args, start_capture_args};
use clipflow::paths::ffprobe_bin;
use clipflow::progress::{extract_time, progress_percent};
use clipflow::project::{apply_project, keep_window, make_project, monitor_bounds, summarize_project};
use clipflow::session::AppCore;
use clipflow::types::{Subtitle, SubtitlePosition, Transition, TransitionType};
use clipflow::thumbs::thumbnail_data_url;
use clipflow::types::{AudioSource, Clip, MonitorInfo, Region};

fn make_clip(id: &str, duration_ms: u64) -> Clip {
    Clip {
        id: id.into(),
        path: format!("/tmp/{}.mp4", id),
        duration_ms,
        region: Region { x: 0, y: 0, width: 1280, height: 720 },
        has_audio: false,
        thumbnail_path: None,
        trim_start_ms: 0,
        trim_end_ms: 0,
        audio_paths: vec![],
    }
}

#[test]
fn test_extract_time_valid() {
    let line = "frame=  100 fps=30 time=00:01:23.45 bitrate=1234kbits/s";
    let t = extract_time(line).unwrap();
    assert_eq!(t, 8345);
}

#[test]
fn test_extract_time_zero() {
    let line = "time=00:00:00.00 something";
    assert_eq!(extract_time(line).unwrap(), 0);
}

#[test]
fn test_extract_time_no_match() {
    assert!(extract_time("no clock here").is_none());
}

#[test]
fn test_extract_time_malformed() {
    assert!(extract_time("time=abc").is_none());
    assert!(extract_time("time=1:2").is_none());
}

#[test]
fn test_progress_percent() {
    // 83.45 s of a 166.9 s timeline is half way
    assert_eq!(progress_percent(8345, 166900), 50);
    assert_eq!(progress_percent(8345, 8345), 100);
    assert_eq!(progress_percent(0, 1000), 0);
    assert_eq!(progress_percent(10, 0), 100);
}

#[test]
fn test_capture_args_clamped() {
    let args = start_capture_args(
        &Region { x: -10, y: -8, width: 1000, height: 800 },
        &"/tmp/c.mp4".to_string(),
        30,
    );
    let joined = args.join(" ");
    assert!(joined.contains("-f gdigrab"));
    assert!(joined.contains("-offset_x 0"));
    assert!(joined.contains("-offset_y 0"));
    assert!(joined.contains("-video_size 990x792"));
    assert!(joined.contains("-framerate 30"));
    assert!(joined.ends_with("-y /tmp/c.mp4"));
}

#[test]
fn test_probe_and_thumbnail_args() {
    let probe = probe_duration_args(&"/tmp/c.mp4".to_string());
    assert_eq!(probe.join(" "), "-v error -show_entries format=duration -of default=noprint_wrappers=1:nokey=1 /tmp/c.mp4");
    let thumb = generate_thumbnail_args(&"/tmp/c.mp4".to_string(), &"/tmp/c.thumb.png".to_string());
    assert_eq!(thumb.join(" "), "-i /tmp/c.mp4 -vframes 1 -vf scale=192:-1 -y /tmp/c.thumb.png");
}

#[test]
fn test_ffprobe_beside_ffmpeg() {
    assert_eq!(ffprobe_bin("/opt/tools/ffmpeg"), "/opt/tools/ffprobe");
    assert_eq!(ffprobe_bin("C:/Tools/ffmpeg.exe"), "C:/Tools/ffprobe.exe");
    assert_eq!(ffprobe_bin("ffmpeg"), "ffprobe");
}

#[test]
fn test_thumbnail_data_url() {
    // the data URL embeds the real encoding, not the raw bytes
    let url = thumbnail_data_url(&vec![b'h', b'i']);
    assert_eq!(url, "data:image/png;base64,aGk=");
    let empty = thumbnail_data_url(&vec![]);
    assert_eq!(empty, "data:image/png;base64,");
}

#[test]
fn test_summarize_project() {
    let p = make_project(
        "p1".into(),
        "Demo".into(),
        "2024-01-01T00:00:00Z".into(),
        "2024-01-02T00:00:00Z".into(),
        vec![make_clip("a", 4000), make_clip("b", 6000)],
        vec![],
        AudioSource::Off,
        vec![],
        vec![],
    );
    let s = summarize_project(&p);
    assert_eq!(s.id, "p1");
    assert_eq!(s.name, "Demo");
    assert_eq!(s.clip_count, 2);
    assert_eq!(s.total_duration_ms, 10000);
}

#[test]
fn test_monitor_bounds() {
    let monitors = vec![
        MonitorInfo { x: 0, y: 0, width: 1920, height: 1080 },
        MonitorInfo { x: -1920, y: 100, width: 1920, height: 1080 },
    ];
    let (min_x, min_y, max_x, max_y) = monitor_bounds(&monitors);
    assert_eq!((min_x, min_y, max_x, max_y), (-1920, 0, 1920, 1180));
    assert_eq!(monitor_bounds(&vec![]), (0, 0, 1920, 1080));
}

#[test]
fn test_keep_window() {
    assert!(keep_window(&"Editor".to_string(), 800, 600, true, false, false));
    assert!(!keep_window(&"".to_string(), 800, 600, true, false, false));
    assert!(!keep_window(&"Program Manager".to_string(), 800, 600, true, false, false));
    assert!(!keep_window(&"Editor".to_string(), 49, 600, true, false, false));
    assert!(!keep_window(&"Editor".to_string(), 800, 600, false, false, false));
    assert!(!keep_window(&"Editor".to_string(), 800, 600, true, true, false));
    assert!(!keep_window(&"Editor".to_string(), 800, 600, true, false, true));
}

#[test]
fn test_project_apply_round_trip() {
    let mut before = AppCore::new();
    before.stop_commit(make_clip("a", 4000), vec![], vec![]);
    before.stop_commit(make_clip("b", 6000), vec![], vec![]);
    before.transitions =
        vec![Transition { transition_type: TransitionType::WipeLeft, duration_ms: 700 }];
    before.subtitles = vec![Subtitle {
        id: "s".into(),
        text: "Hi".into(),
        start_ms: 0,
        end_ms: 1000,
        position: SubtitlePosition::Top,
        font_size: 20,
        color: "#fff".into(),
    }];
    before.set_clip_annotations("a".to_string(), vec![]);

    let project = make_project(
        "p1".into(),
        "Demo".into(),
        "t0".into(),
        "t1".into(),
        before.clips.clone(),
        before.transitions.clone(),
        before.audio_source,
        before.annotations.clone(),
        before.subtitles.clone(),
    );

    let mut after = AppCore::new();
    apply_project(&mut after, project);
    assert_eq!(after.clips.len(), before.clips.len());
    assert_eq!(after.clips[0].id, "a");
    assert_eq!(after.clips[1].id, "b");
    assert_eq!(after.transitions, before.transitions);
    assert_eq!(after.subtitles.len(), 1);
    assert_eq!(after.subtitles[0].text, "Hi");
    assert_eq!(after.annotations.len(), 1);
    assert_eq!(after.annotations[0].0, "a");
    assert_eq!(after.audio_source, before.audio_source);
    assert_eq!(after.current_project_id.as_deref(), Some("p1"));
}
