use clipflow::graph::{
    all_cuts, build_audio_concat_filter, effective_duration, timeline_duration_ms,
    transition_offsets, xfade_name,
};
use clipflow::types::{Clip, Region, Transition, TransitionType};

fn make_clip(trim_start: u64, trim_end: u64) -> Clip {
    Clip {
        id: "test".into(),
        path: "test.mp4".into(),
        duration_ms: 10000,
        region: Region { x: 0, y: 0, width: 1920, height: 1080 },
        has_audio: false,
        thumbnail_path: None,
        trim_start_ms: trim_start,
        trim_end_ms: trim_end,
        audio_paths: vec![],
    }
}

fn tr(t: TransitionType) -> Transition {
    Transition { transition_type: t, duration_ms: 500 }
}

#[test]
fn test_duration_no_trim() {
    let clip = make_clip(0, 0);
    assert_eq!(effective_duration(&clip, 5000), 5000);
}

#[test]
fn test_duration_trim_start() {
    let clip = make_clip(1000, 0);
    assert_eq!(effective_duration(&clip, 5000), 4000);
}

#[test]
fn test_duration_trim_end() {
    let clip = make_clip(0, 3000);
    assert_eq!(effective_duration(&clip, 5000), 3000);
}

#[test]
fn test_duration_trim_both() {
    let clip = make_clip(1000, 4000);
    assert_eq!(effective_duration(&clip, 5000), 3000);
}

#[test]
fn test_duration_min_clamp() {
    let clip = make_clip(5000, 5000);
    assert!(effective_duration(&clip, 5000) >= 100);
}

#[test]
fn test_xfade_fade() {
    assert_eq!(xfade_name(&TransitionType::Fade), "fade");
}

#[test]
fn test_xfade_zoom() {
    assert_eq!(xfade_name(&TransitionType::Zoom), "zoomin");
}

#[test]
fn test_xfade_slide() {
    assert_eq!(xfade_name(&TransitionType::Slide), "slideleft");
}

#[test]
fn test_xfade_cut_maps_to_fade() {
    assert_eq!(xfade_name(&TransitionType::Cut), "fade");
}

#[test]
fn test_all_cuts_true() {
    let t = vec![tr(TransitionType::Cut)];
    assert!(all_cuts(&t));
}

#[test]
fn test_all_cuts_false() {
    let t = vec![tr(TransitionType::Cut), tr(TransitionType::Fade)];
    assert!(!all_cuts(&t));
}

#[test]
fn test_all_cuts_empty() {
    assert!(all_cuts(&vec![]));
}

#[test]
fn test_offsets_fade_then_cut() {
    // effective durations of 5 s each; the fade overlaps half a second,
    // the cut adds the full clip
    let eff = vec![5000u64, 5000, 5000];
    let transitions = vec![tr(TransitionType::Fade), tr(TransitionType::Cut)];
    let offsets = transition_offsets(&eff, &transitions);
    // one offset per clip, plus the final timeline boundary
    assert_eq!(offsets, vec![0i64, 4500, 9500, 14000]);
}

#[test]
fn test_timeline_duration_mixed() {
    let eff = vec![5000u64, 5000, 5000];
    let transitions = vec![tr(TransitionType::Fade), tr(TransitionType::Cut)];
    assert_eq!(timeline_duration_ms(&eff, &transitions), 14500);
}

#[test]
fn test_timeline_duration_all_cuts() {
    let eff = vec![5000u64, 5000, 5000];
    let transitions = vec![tr(TransitionType::Cut), tr(TransitionType::Cut)];
    assert_eq!(timeline_duration_ms(&eff, &transitions), 15000);
}

#[test]
fn test_audio_filter_silence_for_trackless_clip() {
    // one clip without a track, one with: silence keeps them aligned
    let map = vec![(0usize, vec![]), (1usize, vec![2usize])];
    let eff = vec![2500u64, 5000];
    let f = build_audio_concat_filter(&map, &eff);
    assert!(f.contains("anullsrc=channel_layout=stereo:sample_rate=44100,atrim=duration=2.500[a0]"));
    assert!(f.contains("[2:a]anull[a1]"));
    assert!(f.contains("[a0][a1]concat=n=2:v=0:a=1[aout]"));
}

#[test]
fn test_audio_filter_mix_two_tracks() {
    let map = vec![(0usize, vec![1usize, 2usize])];
    let eff = vec![5000u64];
    let f = build_audio_concat_filter(&map, &eff);
    assert!(f.contains("[1:a][2:a]amix=inputs=2:duration=first[a0]"));
}

#[test]
fn test_audio_filter_empty_when_no_tracks() {
    let map = vec![(0usize, vec![]), (1usize, vec![])];
    let eff = vec![5000u64, 5000];
    assert_eq!(build_audio_concat_filter(&map, &eff), "");
}
