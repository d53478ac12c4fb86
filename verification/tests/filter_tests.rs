use clipflow::cursor::{build_cursor_zoom_filter, build_piecewise_lerp, cursor_keyframes};
use clipflow::escape::{annotation_color_ffmpeg, escape_drawtext};
use clipflow::filters::{build_keystroke_filters, build_subtitle_filters};
use clipflow::types::{CursorPosition, KeystrokeEvent, Subtitle, SubtitlePosition};

fn make_subtitle(
    text: &str,
    start: u64,
    end: u64,
    pos: SubtitlePosition,
    font_size: u32,
    color: &str,
) -> Subtitle {
    Subtitle {
        id: "sub1".into(),
        text: text.into(),
        start_ms: start,
        end_ms: end,
        position: pos,
        font_size,
        color: color.into(),
    }
}

#[test]
fn test_escape_drawtext_plain() {
    assert_eq!(escape_drawtext("Hello world"), "Hello world");
}

#[test]
fn test_escape_drawtext_backslash() {
    assert_eq!(escape_drawtext("a\\b"), "a\\\\b");
}

#[test]
fn test_escape_drawtext_colon() {
    assert_eq!(escape_drawtext("time:12:30"), "time\\:12\\:30");
}

#[test]
fn test_escape_drawtext_percent() {
    assert_eq!(escape_drawtext("100%"), "100%%");
}

#[test]
fn test_escape_drawtext_combo() {
    let result = escape_drawtext("a\\b:c%d");
    assert!(result.contains("\\\\"));
    assert!(result.contains("\\:"));
    assert!(result.contains("%%"));
}

#[test]
fn test_lerp_empty() {
    assert_eq!(build_piecewise_lerp(&vec![]), "0");
}

#[test]
fn test_lerp_single() {
    let result = build_piecewise_lerp(&vec![(0, 5000)]);
    assert_eq!(result, "0.5000");
}

#[test]
fn test_lerp_two_keyframes() {
    let result = build_piecewise_lerp(&vec![(0, 0), (1, 10000)]);
    assert!(result.contains("if(lt(t"));
}

#[test]
fn test_lerp_three_keyframes() {
    let result = build_piecewise_lerp(&vec![(0, 0), (1, 5000), (2, 10000)]);
    // nested conditionals, one per keyframe pair
    let if_count = result.matches("if(lt(t").count();
    assert_eq!(if_count, 2);
}

#[test]
fn test_lerp_exact_expression() {
    let result = build_piecewise_lerp(&vec![(0, 0), (2, 10000)]);
    assert_eq!(result, "if(lt(t\\,2.00)\\,0.0000+1.0000*(t-0.00)/2.00\\,1.0000)");
}

#[test]
fn test_color_hex() {
    assert_eq!(annotation_color_ffmpeg("#ff0000"), "0xff0000");
}

#[test]
fn test_color_name() {
    assert_eq!(annotation_color_ffmpeg("white"), "white");
}

#[test]
fn test_color_hex_black() {
    assert_eq!(annotation_color_ffmpeg("#000000"), "0x000000");
}

#[test]
fn test_subtitle_basic() {
    let subs = vec![make_subtitle("Hello", 0, 3000, SubtitlePosition::Bottom, 32, "#ffffff")];
    let filters = build_subtitle_filters(&subs);
    assert_eq!(filters.len(), 1);
    assert!(filters[0].contains("drawtext="));
    assert!(filters[0].contains("Hello"));
    assert!(filters[0].contains("fontsize=32"));
}

#[test]
fn test_subtitle_color() {
    let subs = vec![make_subtitle("Red", 0, 1000, SubtitlePosition::Bottom, 32, "#ff0000")];
    let filters = build_subtitle_filters(&subs);
    assert!(filters[0].contains("fontcolor=0xff0000"));
}

#[test]
fn test_subtitle_position_top() {
    let subs = vec![make_subtitle("Top", 0, 1000, SubtitlePosition::Top, 32, "#ffffff")];
    let filters = build_subtitle_filters(&subs);
    assert!(filters[0].contains("y=30"));
}

#[test]
fn test_subtitle_position_center() {
    let subs = vec![make_subtitle("Center", 0, 1000, SubtitlePosition::Center, 32, "#ffffff")];
    let filters = build_subtitle_filters(&subs);
    assert!(filters[0].contains("y=(h-th)/2"));
}

#[test]
fn test_subtitle_position_bottom() {
    let subs = vec![make_subtitle("Bottom", 0, 1000, SubtitlePosition::Bottom, 32, "#ffffff")];
    let filters = build_subtitle_filters(&subs);
    assert!(filters[0].contains("y=h-th-30"));
}

#[test]
fn test_subtitle_custom_fontsize() {
    let subs = vec![make_subtitle("Big", 0, 1000, SubtitlePosition::Bottom, 56, "#ffffff")];
    let filters = build_subtitle_filters(&subs);
    assert!(filters[0].contains("fontsize=56"));
}

#[test]
fn test_subtitle_default_fontsize() {
    let subs = vec![make_subtitle("Default", 0, 1000, SubtitlePosition::Bottom, 0, "#ffffff")];
    let filters = build_subtitle_filters(&subs);
    assert!(filters[0].contains("fontsize=32"));
}

#[test]
fn test_subtitle_empty() {
    assert!(build_subtitle_filters(&vec![]).is_empty());
}

#[test]
fn test_cursor_zoom_empty() {
    assert!(build_cursor_zoom_filter(&vec![], 0, 1920, 1080).is_none());
}

#[test]
fn test_cursor_zoom_stationary() {
    // the cursor spans only 2% of the frame on both axes: no zoom
    let positions = vec![
        CursorPosition { timestamp_ms: 0, x: 5000, y: 5000 },
        CursorPosition { timestamp_ms: 500, x: 5200, y: 5100 },
        CursorPosition { timestamp_ms: 1000, x: 5100, y: 5200 },
    ];
    assert!(build_cursor_zoom_filter(&positions, 0, 1920, 1080).is_none());
}

#[test]
fn test_cursor_zoom_moving() {
    // the cursor spans 80% of the frame in x: a crop expression appears
    let positions = vec![
        CursorPosition { timestamp_ms: 0, x: 1000, y: 5000 },
        CursorPosition { timestamp_ms: 1000, x: 5000, y: 5000 },
        CursorPosition { timestamp_ms: 2000, x: 9000, y: 5000 },
    ];
    let result = build_cursor_zoom_filter(&positions, 0, 1920, 1080);
    assert!(result.is_some());
    let filter = result.unwrap();
    assert!(filter.contains("crop="));
    assert!(filter.contains("scale=1920:1080"));
}

#[test]
fn test_cursor_zoom_with_trim_offset() {
    // movement over 10%; the trim shifts keyframe times but the motion
    // check reads the raw positions
    let positions = vec![
        CursorPosition { timestamp_ms: 2000, x: 5000, y: 5000 },
        CursorPosition { timestamp_ms: 3000, x: 9000, y: 5000 },
        CursorPosition { timestamp_ms: 4000, x: 5000, y: 5000 },
    ];
    let result = build_cursor_zoom_filter(&positions, 1000, 1920, 1080);
    assert!(result.is_some());
}

#[test]
fn test_cursor_zoom_all_trimmed_away() {
    // enough movement, but every sample sits before the trim start
    let positions = vec![
        CursorPosition { timestamp_ms: 0, x: 1000, y: 5000 },
        CursorPosition { timestamp_ms: 500, x: 9000, y: 5000 },
    ];
    assert!(build_cursor_zoom_filter(&positions, 1000, 1920, 1080).is_none());
}

#[test]
fn test_keystroke_filter_basic() {
    let events = vec![KeystrokeEvent { timestamp_ms: 1000, key_name: "A".into() }];
    let filters = build_keystroke_filters(&events, 0, 0);
    assert_eq!(filters.len(), 1);
    assert!(filters[0].contains("drawtext="));
    assert!(filters[0].contains("A"));
}

#[test]
fn test_keystroke_filter_time_offset() {
    let events = vec![KeystrokeEvent { timestamp_ms: 1000, key_name: "B".into() }];
    let filters = build_keystroke_filters(&events, 5000, 0);
    assert_eq!(filters.len(), 1);
    // the event at 1 s plus a 5 s offset shows at 6 s
    assert!(filters[0].contains("6.0"));
}

#[test]
fn test_keystroke_filter_trim_offset() {
    let events = vec![KeystrokeEvent { timestamp_ms: 3000, key_name: "C".into() }];
    let filters = build_keystroke_filters(&events, 0, 2000);
    assert_eq!(filters.len(), 1);
    // the event at 3 s less a 2 s trim shows at 1 s
    assert!(filters[0].contains("1.0"));
}

#[test]
fn test_keystroke_filter_skips_negative_time() {
    let events = vec![KeystrokeEvent { timestamp_ms: 500, key_name: "D".into() }];
    let filters = build_keystroke_filters(&events, 0, 2000);
    // the event at 0.5 s was trimmed away
    assert!(filters.is_empty());
}

#[test]
fn test_keystroke_filter_caps_at_150() {
    let mut events = Vec::new();
    for i in 0..200u64 {
        events.push(KeystrokeEvent { timestamp_ms: i * 10, key_name: "K".into() });
    }
    let filters = build_keystroke_filters(&events, 0, 0);
    assert_eq!(filters.len(), 150);
}

#[test]
fn test_cursor_keyframes_bucket_average_and_clamp() {
    // bucket 0 averages to x=8000; centered by 4348 and clamped to the
    // largest offset 1304; y averages to 5000, centered to 652
    let positions = vec![
        CursorPosition { timestamp_ms: 0, x: 9000, y: 5000 },
        CursorPosition { timestamp_ms: 500, x: 7000, y: 5000 },
        CursorPosition { timestamp_ms: 1200, x: 0, y: 0 },
    ];
    let (kfx, kfy) = cursor_keyframes(&positions, 0);
    assert_eq!(kfx, vec![(0, 1304), (1, 0)]);
    assert_eq!(kfy, vec![(0, 652), (1, 0)]);
}

#[test]
fn test_cursor_zoom_exact_filter() {
    let positions = vec![
        CursorPosition { timestamp_ms: 0, x: 0, y: 0 },
        CursorPosition { timestamp_ms: 1500, x: 10000, y: 0 },
    ];
    let filter = build_cursor_zoom_filter(&positions, 0, 1920, 1080).unwrap();
    assert_eq!(
        filter,
        "crop=w=iw/1.1:h=ih/1.1:\
         x='(if(lt(t\\,1.00)\\,0.0000+0.1304*(t-0.00)/1.00\\,0.1304))*iw':\
         y='(if(lt(t\\,1.00)\\,0.0000\\,0.0000))*ih':exact=1,scale=1920:1080"
    );
}
