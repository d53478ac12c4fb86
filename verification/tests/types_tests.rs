use clipflow::types::{AudioSource, ExportQuality, RecordingState, Transition, TransitionType};

#[test]
fn test_export_quality_crf() {
    assert_eq!(ExportQuality::High.crf(), 18);
    assert_eq!(ExportQuality::Medium.crf(), 23);
    assert_eq!(ExportQuality::Low.crf(), 28);
}

#[test]
fn test_export_quality_preset() {
    assert_eq!(ExportQuality::High.preset(), "slow");
    assert_eq!(ExportQuality::Medium.preset(), "medium");
    assert_eq!(ExportQuality::Low.preset(), "fast");
}

#[test]
fn test_transition_default() {
    let t = Transition::default();
    assert_eq!(t.transition_type, TransitionType::Fade);
}

#[test]
fn test_recording_state_initial() {
    let state = RecordingState::Idle;
    assert_eq!(state, RecordingState::Idle);
}

#[test]
fn test_transition_types_equality() {
    assert_eq!(TransitionType::Fade, TransitionType::Fade);
    assert_ne!(TransitionType::Fade, TransitionType::Cut);
}

#[test]
fn test_audio_source_equality() {
    assert_eq!(AudioSource::Off, AudioSource::Off);
    assert_ne!(AudioSource::System, AudioSource::Microphone);
}
