use clipflow::plan::{
    check_clips, concat_segments_plan, export_gif_plan, export_mp4_plan, preview_mp4_plan,
    preview_single_clip_plan, with_extension, ConcatPlan, ExportRoute,
};
use clipflow::types::{Clip, ExportQuality, Region, Subtitle, SubtitlePosition, Transition, TransitionType};

fn make_clip(id: &str, w: u32, h: u32) -> Clip {
    Clip {
        id: id.into(),
        path: format!("/tmp/{}.mp4", id),
        duration_ms: 5000,
        region: Region { x: 0, y: 0, width: w, height: h },
        has_audio: false,
        thumbnail_path: None,
        trim_start_ms: 0,
        trim_end_ms: 0,
        audio_paths: vec![],
    }
}

fn tr(t: TransitionType) -> Transition {
    Transition { transition_type: t, duration_ms: 500 }
}

fn count_occurrences(haystack: &str, needle: &str) -> usize {
    haystack.matches(needle).count()
}

fn filter_of(args: &Vec<String>) -> String {
    let i = args.iter().position(|a| a == "-filter_complex").expect("a filter is present");
    args[i + 1].clone()
}

#[test]
fn test_check_clips_empty() {
    let err = check_clips(&vec![], &vec![]);
    assert_eq!(err.unwrap_err(), "No clips to export");
}

#[test]
fn test_check_clips_missing_names_index() {
    let clips = vec![make_clip("a", 640, 480), make_clip("b", 640, 480)];
    let err = check_clips(&clips, &vec![true, false]);
    assert_eq!(err.unwrap_err(), "Clip 2 file not found: /tmp/b.mp4");
    assert!(check_clips(&clips, &vec![true, true]).is_ok());
}

#[test]
fn test_all_cut_routes_to_concat() {
    let clips = vec![make_clip("a", 640, 480), make_clip("b", 640, 480), make_clip("c", 640, 480)];
    let transitions = vec![tr(TransitionType::Cut), tr(TransitionType::Cut)];
    let probed = vec![5000u64, 5000, 5000];
    let present: Vec<Vec<bool>> = vec![vec![], vec![], vec![]];
    let plan = export_mp4_plan(
        &clips,
        &transitions,
        &probed,
        &present,
        &"/tmp/out.mp4".to_string(),
        false,
        &ExportQuality::Medium,
        &vec![],
        &vec![],
        &vec![],
        &vec![],
    );
    assert_eq!(plan.route, ExportRoute::Concat);
    let filter = filter_of(&plan.args);
    // one n-way concatenation, no cross-fade nodes
    assert_eq!(count_occurrences(&filter, "xfade="), 0);
    assert_eq!(count_occurrences(&filter, "concat=n=3:v=1:a=0"), 1);
    assert_eq!(plan.total_duration_ms, 15000);
}

#[test]
fn test_non_cut_routes_to_crossfade() {
    let clips = vec![make_clip("a", 640, 480), make_clip("b", 640, 480), make_clip("c", 640, 480)];
    let transitions = vec![tr(TransitionType::Fade), tr(TransitionType::Cut)];
    let probed = vec![5000u64, 5000, 5000];
    let present: Vec<Vec<bool>> = vec![vec![], vec![], vec![]];
    let plan = export_mp4_plan(
        &clips,
        &transitions,
        &probed,
        &present,
        &"/tmp/out.mp4".to_string(),
        false,
        &ExportQuality::Medium,
        &vec![],
        &vec![],
        &vec![],
        &vec![],
    );
    assert_eq!(plan.route, ExportRoute::CrossFade);
    let filter = filter_of(&plan.args);
    // graph shapes differ: here a cross-fade node appears, plus the
    // pairwise concat of the cut, but no n-way concat node
    assert_eq!(count_occurrences(&filter, "xfade="), 1);
    assert_eq!(count_occurrences(&filter, "concat=n=3"), 0);
    // the cross-fade sits at the running offset: 5 s minus the overlap
    assert!(filter.contains("xfade=transition=fade:duration=0.5:offset=4.500"));
    assert_eq!(plan.total_duration_ms, 14500);
}

#[test]
fn test_single_clip_bypasses_composition() {
    let mut clip = make_clip("a", 640, 480);
    clip.trim_start_ms = 1000;
    clip.trim_end_ms = 4000;
    let plan = export_mp4_plan(
        &vec![clip],
        &vec![],
        &vec![5000u64],
        &vec![vec![]],
        &"/tmp/out.mp4".to_string(),
        false,
        &ExportQuality::High,
        &vec![],
        &vec![],
        &vec![],
        &vec![],
    );
    assert_eq!(plan.route, ExportRoute::SingleClip);
    // the trim window becomes direct seek arguments
    let joined = plan.args.join(" ");
    assert!(joined.contains("-ss 1.000"));
    assert!(joined.contains("-to 3.000"));
    assert!(joined.contains("-preset slow"));
    assert!(joined.contains("-crf 18"));
    assert!(joined.ends_with("/tmp/out.mp4"));
    assert_eq!(plan.total_duration_ms, 3000);
}

#[test]
fn test_export_watermark_and_subtitles_drawn_once() {
    let clips = vec![make_clip("a", 640, 480), make_clip("b", 640, 480)];
    let transitions = vec![tr(TransitionType::Fade)];
    let subtitles = vec![Subtitle {
        id: "s".into(),
        text: "Hi".into(),
        start_ms: 0,
        end_ms: 1000,
        position: SubtitlePosition::Bottom,
        font_size: 0,
        color: "#ffffff".into(),
    }];
    let plan = export_mp4_plan(
        &clips,
        &transitions,
        &vec![5000u64, 5000],
        &vec![vec![], vec![]],
        &"/tmp/out.mp4".to_string(),
        true,
        &ExportQuality::Low,
        &vec![],
        &subtitles,
        &vec![],
        &vec![],
    );
    let filter = filter_of(&plan.args);
    assert_eq!(count_occurrences(&filter, "drawtext=text='ClipFlow'"), 1);
    assert_eq!(count_occurrences(&filter, "drawtext=text='Hi'"), 1);
    assert!(filter.contains("[vfinal]"));
}

#[test]
fn test_export_audio_silence_alignment() {
    // the first clip has a present track, the second none: the audio
    // side synthesizes silence for the second
    let mut a = make_clip("a", 640, 480);
    a.audio_paths = vec!["/tmp/a.wav".to_string()];
    a.has_audio = true;
    let b = make_clip("b", 640, 480);
    let plan = export_mp4_plan(
        &vec![a, b],
        &vec![tr(TransitionType::Fade)],
        &vec![5000u64, 5000],
        &vec![vec![true], vec![]],
        &"/tmp/out.mp4".to_string(),
        false,
        &ExportQuality::Medium,
        &vec![],
        &vec![],
        &vec![],
        &vec![],
    );
    let filter = filter_of(&plan.args);
    assert!(filter.contains("[2:a]anull[a0]"));
    assert!(filter.contains("anullsrc="));
    assert!(filter.contains("[a0][a1]concat=n=2:v=0:a=1[aout]"));
    let joined = plan.args.join(" ");
    assert!(joined.contains("-map [aout]"));
    assert!(joined.contains("-c:a aac"));
}

#[test]
fn test_preview_small_and_muted() {
    let clips = vec![make_clip("a", 1920, 1080), make_clip("b", 1920, 1080)];
    let transitions = vec![tr(TransitionType::Fade)];
    let plan = preview_mp4_plan(&clips, &transitions, &vec![5000u64, 5000], &"/tmp/p.mp4".to_string());
    let joined = plan.args.join(" ");
    assert!(joined.contains("-preset ultrafast"));
    assert!(joined.contains("-an"));
    assert!(joined.contains("-r 24"));
    let filter = filter_of(&plan.args);
    assert!(filter.contains("scale=960:540"));
}

#[test]
fn test_preview_single_clip() {
    let clip = make_clip("a", 400, 300);
    let args = preview_single_clip_plan(&clip, &"/tmp/p.mp4".to_string());
    let joined = args.join(" ");
    // half of 400x300 floored to even, held at the 320x240 floor
    assert!(joined.contains("scale=320:240"));
    assert!(joined.contains("-an"));
}

#[test]
fn test_gif_two_pass_plan() {
    let plan = export_gif_plan(&"/tmp/anim.gif".to_string(), &ExportQuality::Medium);
    assert_eq!(plan.temp_mp4, "/tmp/anim.tmp.mp4");
    assert_eq!(plan.palette_path, "/tmp/anim.palette.png");
    let pal = plan.palette_args.join(" ");
    assert!(pal.contains("fps=12,scale=480:-1:flags=lanczos,palettegen=stats_mode=diff"));
    assert!(pal.ends_with("/tmp/anim.palette.png"));
    let gif = plan.gif_args.join(" ");
    assert!(gif.contains("paletteuse=dither=bayer:bayer_scale=5"));
    assert!(gif.ends_with("/tmp/anim.gif"));
}

#[test]
fn test_with_extension_rules() {
    assert_eq!(with_extension("/a/b/out.gif", "txt"), "/a/b/out.txt");
    assert_eq!(with_extension("/a/b/out", "txt"), "/a/b/out.txt");
    assert_eq!(with_extension("out.tar.gz", "txt"), "out.tar.txt");
    assert_eq!(with_extension("/a.b/out", "txt"), "/a.b/out.txt");
}

#[test]
fn test_concat_plan_empty() {
    let err = concat_segments_plan(&vec![], &vec![], &"/tmp/o.mp4".to_string());
    assert_eq!(err.unwrap_err(), "Aucun segment \u{e0} concat\u{e9}ner");
}

#[test]
fn test_concat_plan_single_copies() {
    let plan = concat_segments_plan(
        &vec!["/tmp/s0.mp4".to_string()],
        &vec![true],
        &"/tmp/o.mp4".to_string(),
    )
    .expect("one segment");
    match plan {
        ConcatPlan::Copy { from, to } => {
            assert_eq!(from, "/tmp/s0.mp4");
            assert_eq!(to, "/tmp/o.mp4");
        }
        _ => panic!("a single segment is copied"),
    }
}

#[test]
fn test_concat_plan_list_quotes_and_skips_missing() {
    let plan = concat_segments_plan(
        &vec!["/tmp/it's.mp4".to_string(), "/tmp/gone.mp4".to_string(), "/tmp/s2.mp4".to_string()],
        &vec![true, false, true],
        &"/tmp/o.mp4".to_string(),
    )
    .expect("several segments");
    match plan {
        ConcatPlan::Run { list_path, list_content, args } => {
            assert_eq!(list_path, "/tmp/o.txt");
            assert_eq!(list_content, "file '/tmp/it'\\''s.mp4'\nfile '/tmp/s2.mp4'\n");
            let joined = args.join(" ");
            assert!(joined.starts_with("-f concat -safe 0 -i /tmp/o.txt -c copy -y"));
        }
        _ => panic!("several segments go through the demuxer"),
    }
}
