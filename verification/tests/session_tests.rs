use clipflow::session::AppCore;
use clipflow::types::{
    AudioSource, Clip, CursorPosition, KeystrokeEvent, RecordingState, Region, TransitionType,
};

fn make_clip(id: &str) -> Clip {
    Clip {
        id: id.into(),
        path: format!("/tmp/{}.mp4", id),
        duration_ms: 4000,
        region: Region { x: 0, y: 0, width: 1280, height: 720 },
        has_audio: false,
        thumbnail_path: None,
        trim_start_ms: 0,
        trim_end_ms: 0,
        audio_paths: vec![],
    }
}

fn check_invariant(core: &AppCore) {
    let expected = if core.clips.is_empty() { 0 } else { core.clips.len() - 1 };
    assert_eq!(core.transitions.len(), expected);
}

#[test]
fn test_transition_count_after_inserts_and_deletes() {
    let mut core = AppCore::new();
    check_invariant(&core);
    core.stop_commit(make_clip("a"), vec![], vec![]);
    check_invariant(&core);
    core.stop_commit(make_clip("b"), vec![], vec![]);
    check_invariant(&core);
    core.stop_commit(make_clip("c"), vec![], vec![]);
    check_invariant(&core);
    assert_eq!(core.clips.len(), 3);
    assert_eq!(core.transitions.len(), 2);

    core.delete_clip(&"b".to_string());
    check_invariant(&core);
    assert_eq!(core.clips.len(), 2);
    assert_eq!(core.transitions.len(), 1);

    core.delete_clip(&"a".to_string());
    check_invariant(&core);
    core.delete_clip(&"c".to_string());
    check_invariant(&core);
    assert!(core.clips.is_empty());
    assert!(core.transitions.is_empty());
}

#[test]
fn test_single_owner_stop() {
    // two stop requests in the order the lock serializes them: the
    // first takes everything, the second is told nothing is recording
    let mut core = AppCore::new();
    let plan = core.start_request("/tmp").expect("idle start");
    core.start_commit(plan.clip_path.clone(), vec![], false, false);
    assert_eq!(core.recording_state, RecordingState::Recording);

    let first = core.stop_begin();
    assert!(first.is_ok());
    assert_eq!(core.recording_state, RecordingState::Idle);

    let second = core.stop_begin();
    assert_eq!(second.unwrap_err(), "Pas d'enregistrement en cours");
    assert_eq!(core.recording_state, RecordingState::Idle);

    // exactly one takeout: committing its clip stores exactly one clip
    let takeout = first.unwrap();
    assert_eq!(takeout.clip_path, plan.clip_path);
    core.stop_commit(make_clip("a"), vec![], vec![]);
    assert_eq!(core.clips.len(), 1);
}

#[test]
fn test_start_only_from_idle() {
    let mut core = AppCore::new();
    let plan = core.start_request("/tmp").expect("idle start");
    assert_eq!(plan.clip_id.len(), 36);
    assert_eq!(plan.clip_path, format!("/tmp/{}.mp4", plan.clip_id));
    core.start_commit(plan.clip_path, vec![], false, false);
    let again = core.start_request("/tmp");
    assert_eq!(again.unwrap_err(), "Enregistrement d\u{e9}j\u{e0} en cours");
}

#[test]
fn test_start_plans_audio_per_source() {
    let mut core = AppCore::new();
    core.audio_source = AudioSource::Both;
    let plan = core.start_request("/tmp").expect("idle start");
    assert_eq!(
        plan.system_audio_path.as_deref(),
        Some(format!("/tmp/{}_system.wav", plan.clip_id).as_str())
    );
    assert_eq!(
        plan.mic_audio_path.as_deref(),
        Some(format!("/tmp/{}_mic.wav", plan.clip_id).as_str())
    );
}

#[test]
fn test_pause_resume_cycle() {
    let mut core = AppCore::new();
    let plan = core.start_request("/tmp").expect("idle start");
    let base_id = plan.clip_id.clone();
    core.start_commit(plan.clip_path.clone(), vec![], false, false);

    let (segment_path, _audio) = core.pause_begin().expect("pause from recording");
    assert_eq!(segment_path, plan.clip_path);
    assert_eq!(core.recording_state, RecordingState::Paused);
    core.pause_finish(segment_path, 2000);
    assert_eq!(core.pause_accumulated_ms, 2000);
    assert_eq!(core.segment_index, 1);

    // a second pause is refused while paused
    assert!(core.pause_begin().is_err());

    let resume = core.resume_request("/tmp").expect("resume from paused");
    assert_eq!(resume.clip_id, format!("{}_seg1", base_id));
    assert_eq!(resume.clip_path, format!("/tmp/{}_seg1.mp4", base_id));
    core.resume_commit(resume.clip_path, vec![]);
    assert_eq!(core.recording_state, RecordingState::Recording);
}

#[test]
fn test_cancel_resets_everything() {
    let mut core = AppCore::new();
    let plan = core.start_request("/tmp").expect("idle start");
    core.start_commit(plan.clip_path.clone(), vec!["/tmp/a.wav".into()], true, true);
    let takeout = core.cancel();
    assert!(takeout.video_running);
    assert_eq!(takeout.clip_path, Some(plan.clip_path));
    assert_eq!(takeout.audio_temp_paths, vec!["/tmp/a.wav".to_string()]);
    assert!(takeout.keystrokes_running);
    assert!(takeout.cursor_running);
    assert_eq!(core.recording_state, RecordingState::Idle);
    assert_eq!(core.pause_accumulated_ms, 0);
    assert!(core.audio_temp_paths.is_empty());
}

#[test]
fn test_reorder_clips_and_unknown_id() {
    let mut core = AppCore::new();
    core.stop_commit(make_clip("a"), vec![], vec![]);
    core.stop_commit(make_clip("b"), vec![], vec![]);
    let err = core.reorder_clips(&vec!["a".to_string(), "zz".to_string()]);
    assert_eq!(err.unwrap_err(), "Clip not found: zz");
    assert_eq!(core.clips[0].id, "a");

    core.reorder_clips(&vec!["b".to_string(), "a".to_string()]).expect("both ids exist");
    assert_eq!(core.clips[0].id, "b");
    assert_eq!(core.clips[1].id, "a");
}

#[test]
fn test_set_transition_bounds_and_clamp() {
    let mut core = AppCore::new();
    core.stop_commit(make_clip("a"), vec![], vec![]);
    core.stop_commit(make_clip("b"), vec![], vec![]);
    let err = core.set_transition(5, TransitionType::Zoom, None);
    assert_eq!(err.unwrap_err(), "Transition index 5 out of bounds");
    core.set_transition(0, TransitionType::Zoom, Some(9000)).expect("in bounds");
    assert_eq!(core.transitions[0].transition_type, TransitionType::Zoom);
    assert_eq!(core.transitions[0].duration_ms, 5000);
    core.set_transition(0, TransitionType::WipeLeft, Some(10)).expect("in bounds");
    assert_eq!(core.transitions[0].duration_ms, 100);
}

#[test]
fn test_set_clip_trim() {
    let mut core = AppCore::new();
    core.stop_commit(make_clip("a"), vec![], vec![]);
    core.set_clip_trim(&"a".to_string(), 500, 2500).expect("clip exists");
    assert_eq!(core.clips[0].trim_start_ms, 500);
    assert_eq!(core.clips[0].trim_end_ms, 2500);
    let err = core.set_clip_trim(&"nope".to_string(), 0, 0);
    assert_eq!(err.unwrap_err(), "Clip not found: nope");
}

#[test]
fn test_toggle_audio() {
    let mut core = AppCore::new();
    assert_eq!(core.audio_source, AudioSource::Off);
    assert!(core.toggle_audio());
    assert_eq!(core.audio_source, AudioSource::System);
    assert!(!core.toggle_audio());
    assert_eq!(core.audio_source, AudioSource::Off);
}

#[test]
fn test_stop_commit_stores_side_data() {
    let mut core = AppCore::new();
    let keys = vec![KeystrokeEvent { timestamp_ms: 10, key_name: "A".into() }];
    let cursors = vec![CursorPosition { timestamp_ms: 10, x: 5000, y: 5000 }];
    core.stop_commit(make_clip("a"), keys, cursors);
    assert_eq!(core.clip_keystrokes.len(), 1);
    assert_eq!(core.clip_keystrokes[0].0, "a");
    assert_eq!(core.clip_cursor_positions.len(), 1);
    // empty side data is not stored
    core.stop_commit(make_clip("b"), vec![], vec![]);
    assert_eq!(core.clip_keystrokes.len(), 1);
    assert_eq!(core.clip_cursor_positions.len(), 1);
}

#[test]
fn test_delete_clip_removes_side_data() {
    let mut core = AppCore::new();
    let keys = vec![KeystrokeEvent { timestamp_ms: 10, key_name: "A".into() }];
    core.stop_commit(make_clip("a"), keys, vec![]);
    core.set_clip_annotations("a".to_string(), vec![]);
    core.delete_clip(&"a".to_string());
    assert!(core.clips.is_empty());
    assert!(core.clip_keystrokes.is_empty());
    assert!(core.annotations.is_empty());
}
