use clipflow::json::project_to_json;
use clipflow::project::make_project;
use clipflow::types::{
    Annotation, AnnotationKind, AudioSource, Clip, Region, Subtitle, SubtitlePosition, Transition,
    TransitionType,
};

fn sample_project() -> clipflow::types::Project {
    let clip = Clip {
        id: "c1".into(),
        path: "/tmp/c1's \"take\".mp4".into(),
        duration_ms: 4000,
        region: Region { x: -4, y: 2, width: 1280, height: 720 },
        has_audio: true,
        thumbnail_path: Some("/tmp/c1.thumb.png".into()),
        trim_start_ms: 100,
        trim_end_ms: 3900,
        audio_paths: vec!["/tmp/c1_system.wav".into(), "/tmp/c1_mic.wav".into()],
    };
    let ann = Annotation {
        id: "a1".into(),
        kind: AnnotationKind::Freehand,
        x: 100,
        y: 200,
        width: 300,
        height: 400,
        color: "#ff0000".into(),
        stroke_width: 3,
        text: None,
        points: Some(vec![(10, 20), (30, 40)]),
        start_ms: 0,
        end_ms: 1000,
    };
    let sub = Subtitle {
        id: "s1".into(),
        text: "line\none".into(),
        start_ms: 0,
        end_ms: 900,
        position: SubtitlePosition::Center,
        font_size: 24,
        color: "white".into(),
    };
    make_project(
        "p1".into(),
        "Demo: 100%".into(),
        "2024-01-01T00:00:00Z".into(),
        "2024-01-02T00:00:00Z".into(),
        vec![clip],
        vec![Transition { transition_type: TransitionType::CircleOpen, duration_ms: 700 }],
        AudioSource::Both,
        vec![("c1".to_string(), vec![ann])],
        vec![sub],
    )
}

#[test]
fn test_project_json_exact_for_empty_project() {
    let p = make_project(
        "p0".into(),
        "Empty".into(),
        "t0".into(),
        "t1".into(),
        vec![],
        vec![],
        AudioSource::Off,
        vec![],
        vec![],
    );
    assert_eq!(
        project_to_json(&p),
        "{\"id\":\"p0\",\"name\":\"Empty\",\"created_at\":\"t0\",\"updated_at\":\"t1\",\
         \"clips\":[],\"transitions\":[],\"settings\":{\"audio_source\":\"none\",\
         \"watermark_enabled\":true,\"export_format\":\"mp4\",\"export_quality\":\"medium\"},\
         \"annotations\":{},\"subtitles\":[]}"
    );
}

#[test]
fn test_project_json_round_trip_through_parser() {
    // the stored text, read back by an ordinary JSON parser, restores the
    // collections: the host's loader sees exactly these values
    let p = sample_project();
    let text = project_to_json(&p);
    let v: serde_json::Value = serde_json::from_str(&text).expect("the writer emits valid JSON");

    assert_eq!(v["id"], serde_json::Value::String("p1".into()));
    assert_eq!(v["name"], serde_json::Value::String("Demo: 100%".into()));

    let clips = v["clips"].as_array().expect("clip array");
    assert_eq!(clips.len(), 1);
    assert_eq!(clips[0]["id"], serde_json::Value::String("c1".into()));
    assert_eq!(clips[0]["path"], serde_json::Value::String("/tmp/c1's \"take\".mp4".into()));
    assert_eq!(clips[0]["duration_ms"].as_u64(), Some(4000));
    assert_eq!(clips[0]["region"]["x"].as_i64(), Some(-4));
    assert_eq!(clips[0]["region"]["height"].as_u64(), Some(720));
    assert_eq!(clips[0]["has_audio"].as_bool(), Some(true));
    assert_eq!(clips[0]["trim_start_ms"].as_u64(), Some(100));
    assert_eq!(clips[0]["trim_end_ms"].as_u64(), Some(3900));
    let audio = clips[0]["audio_paths"].as_array().expect("audio array");
    assert_eq!(audio.len(), 2);
    assert_eq!(audio[1], serde_json::Value::String("/tmp/c1_mic.wav".into()));

    let transitions = v["transitions"].as_array().expect("transition array");
    assert_eq!(transitions.len(), 1);
    assert_eq!(
        transitions[0]["transition_type"],
        serde_json::Value::String("circleopen".into())
    );
    assert_eq!(transitions[0]["duration_ms"].as_u64(), Some(700));

    assert_eq!(v["settings"]["audio_source"], serde_json::Value::String("both".into()));
    assert_eq!(v["settings"]["watermark_enabled"].as_bool(), Some(true));

    let anns = v["annotations"]["c1"].as_array().expect("annotation array");
    assert_eq!(anns.len(), 1);
    assert_eq!(anns[0]["kind"], serde_json::Value::String("freehand".into()));
    assert_eq!(anns[0]["points"][1][0].as_u64(), Some(30));
    assert!(anns[0]["text"].is_null());

    let subs = v["subtitles"].as_array().expect("subtitle array");
    assert_eq!(subs.len(), 1);
    assert_eq!(subs[0]["text"], serde_json::Value::String("line\none".into()));
    assert_eq!(subs[0]["position"], serde_json::Value::String("center".into()));
}
