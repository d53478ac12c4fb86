//! The project file's JSON writing, character-exact: the flat per-project
//! description with its fixed key order. The host writes these bytes to
//! disk; reading them back goes through an ordinary JSON parser outside
//! the library.

use vstd::prelude::*;
use crate::types::{
    Annotation, AnnotationKind, AudioSource, Clip, ExportFormat, ExportQuality, Project, Region,
    Subtitle, SubtitlePosition, Transition, TransitionType,
};
use crate::numfmt::{dec_seq, int_seq, u64_string, i64_string};
use crate::escape::push_char;

verus! {

/// How one character stands inside a JSON string: quote and backslash
/// are escaped, as are the three common control characters. Other
/// control characters are not expected in the repository's strings.
pub open spec fn json_char_seq(c: char) -> Seq<char> {
    if c == '"' {
        "\\\""@
    } else if c == '\\' {
        "\\\\"@
    } else if c == '\n' {
        "\\n"@
    } else if c == '\r' {
        "\\r"@
    } else if c == '\t' {
        "\\t"@
    } else {
        seq![c]
    }
}

/// The escaped body of a JSON string.
pub open spec fn json_escape_seq(s: Seq<char>) -> Seq<char>
    decreases s.len(),
{
    if s.len() == 0 {
        Seq::<char>::empty()
    } else {
        json_char_seq(s[0]) + json_escape_seq(s.skip(1))
    }
}

proof fn lemma_json_escape_push(s: Seq<char>, c: char)
    ensures
        json_escape_seq(s.push(c)) == json_escape_seq(s) + json_char_seq(c),
    decreases s.len(),
{
    assert(s.push(c)[0] == if s.len() == 0 {
        c
    } else {
        s[0]
    });
    if s.len() == 0 {
        assert(s.push(c).skip(1) =~= Seq::<char>::empty());
        assert(json_escape_seq(s.push(c)) == json_char_seq(c) + json_escape_seq(
            Seq::<char>::empty(),
        ));
        assert(json_escape_seq(s.push(c)) =~= json_escape_seq(s) + json_char_seq(c));
    } else {
        assert(s.push(c).skip(1) =~= s.skip(1).push(c));
        lemma_json_escape_push(s.skip(1), c);
        assert(json_escape_seq(s.push(c)) =~= json_escape_seq(s) + json_char_seq(c));
    }
}

/// Reading an escaped string body back: the inverse of the escaping,
/// undefined on text that is not an escaping's image.
pub open spec fn json_unescape_seq(s: Seq<char>) -> Option<Seq<char>>
    decreases s.len(),
{
    if s.len() == 0 {
        Option::Some(Seq::<char>::empty())
    } else if s[0] == '\\' {
        if s.len() < 2 {
            Option::<Seq<char>>::None
        } else {
            let c = if s[1] == '"' {
                Option::Some('"')
            } else if s[1] == '\\' {
                Option::Some('\\')
            } else if s[1] == 'n' {
                Option::Some('\n')
            } else if s[1] == 'r' {
                Option::Some('\r')
            } else if s[1] == 't' {
                Option::Some('\t')
            } else {
                Option::<char>::None
            };
            match (c, json_unescape_seq(s.skip(2))) {
                (Option::Some(c0), Option::Some(rest)) => Option::Some(seq![c0] + rest),
                _ => Option::<Seq<char>>::None,
            }
        }
    } else if s[0] == '"' {
        Option::<Seq<char>>::None
    } else {
        match json_unescape_seq(s.skip(1)) {
            Option::Some(rest) => Option::Some(seq![s[0]] + rest),
            Option::None => Option::<Seq<char>>::None,
        }
    }
}

/// The escaping loses nothing: reading an escaped string body back gives
/// the original text. (The stored strings are not expected to hold the
/// rarer control characters, which the escaping passes through.)
pub proof fn lemma_json_escape_lossless(s: Seq<char>)
    ensures
        json_unescape_seq(json_escape_seq(s)) == Option::Some(s),
    decreases s.len(),
{
    reveal_strlit("\\\\");
    reveal_strlit("\\\"");
    reveal_strlit("\\n");
    reveal_strlit("\\r");
    reveal_strlit("\\t");
    if s.len() == 0 {
        assert(json_escape_seq(s).len() == 0);
    } else {
        lemma_json_escape_lossless(s.skip(1));
        let e = json_escape_seq(s);
        assert(e == json_char_seq(s[0]) + json_escape_seq(s.skip(1)));
        if s[0] == '"' || s[0] == '\\' || s[0] == '\n' || s[0] == '\r' || s[0] == '\t' {
            assert(json_char_seq(s[0]).len() == 2);
            assert(e[0] == '\\');
            assert(e.skip(2) =~= json_escape_seq(s.skip(1)));
            assert(json_unescape_seq(e) == Option::Some(seq![s[0]] + s.skip(1)));
            assert(seq![s[0]] + s.skip(1) =~= s);
        } else {
            assert(json_char_seq(s[0]) =~= seq![s[0]]);
            assert(e[0] == s[0]);
            assert(e.skip(1) =~= json_escape_seq(s.skip(1)));
            assert(json_unescape_seq(e) == Option::Some(seq![s[0]] + s.skip(1)));
            assert(seq![s[0]] + s.skip(1) =~= s);
        }
    }
}

/// A whole JSON string, quotes included.
pub open spec fn json_string_seq(s: Seq<char>) -> Seq<char> {
    "\""@ + json_escape_seq(s) + "\""@
}

fn write_json_string(out: &mut String, s: &str)
    ensures
        final(out)@ == old(out)@ + json_string_seq(s@),
{
    out.append("\"");
    let n = s.unicode_len();
    let mut i: usize = 0;
    while i < n
        invariant
            n == s@.len(),
            i <= n,
            out@ == old(out)@ + "\""@ + json_escape_seq(s@.take(i as int)),
        decreases n - i,
    {
        let c = s.get_char(i);
        proof {
            assert(s@.take(i + 1 as int) =~= s@.take(i as int).push(s@[i as int]));
            lemma_json_escape_push(s@.take(i as int), s@[i as int]);
        }
        if c == '"' {
            out.append("\\\"");
        } else if c == '\\' {
            out.append("\\\\");
        } else if c == '\n' {
            out.append("\\n");
        } else if c == '\r' {
            out.append("\\r");
        } else if c == '\t' {
            out.append("\\t");
        } else {
            push_char(out, c);
        }
        proof {
            assert(out@ =~= old(out)@ + "\""@ + json_escape_seq(s@.take(i + 1 as int)));
        }
        i = i + 1;
    }
    out.append("\"");
    proof {
        assert(s@.take(n as int) =~= s@);
        assert(out@ =~= old(out)@ + json_string_seq(s@));
    }
}

/// An optional string: `null` or the string.
pub open spec fn json_opt_string_seq(s: Option<String>) -> Seq<char> {
    match s {
        Option::Some(v) => json_string_seq(v@),
        Option::None => "null"@,
    }
}

/// The stored name of each transition effect.
pub open spec fn transition_type_name_seq(t: TransitionType) -> Seq<char> {
    match t {
        TransitionType::Fade => "fade"@,
        TransitionType::FadeBlack => "fadeblack"@,
        TransitionType::FadeWhite => "fadewhite"@,
        TransitionType::Dissolve => "dissolve"@,
        TransitionType::Zoom => "zoom"@,
        TransitionType::Slide => "slide"@,
        TransitionType::SlideRight => "slideright"@,
        TransitionType::SlideUp => "slideup"@,
        TransitionType::SlideDown => "slidedown"@,
        TransitionType::WipeLeft => "wipeleft"@,
        TransitionType::WipeRight => "wiperight"@,
        TransitionType::WipeUp => "wipeup"@,
        TransitionType::WipeDown => "wipedown"@,
        TransitionType::Pixelize => "pixelize"@,
        TransitionType::CircleOpen => "circleopen"@,
        TransitionType::CircleClose => "circleclose"@,
        TransitionType::Radial => "radial"@,
        TransitionType::SmoothLeft => "smoothleft"@,
        TransitionType::SmoothRight => "smoothright"@,
        TransitionType::Cut => "cut"@,
    }
}

fn write_transition_type(out: &mut String, t: &TransitionType)
    ensures
        final(out)@ == old(out)@ + "\""@ + transition_type_name_seq(*t) + "\""@,
{
    out.append("\"");
    match t {
        TransitionType::Fade => out.append("fade"),
        TransitionType::FadeBlack => out.append("fadeblack"),
        TransitionType::FadeWhite => out.append("fadewhite"),
        TransitionType::Dissolve => out.append("dissolve"),
        TransitionType::Zoom => out.append("zoom"),
        TransitionType::Slide => out.append("slide"),
        TransitionType::SlideRight => out.append("slideright"),
        TransitionType::SlideUp => out.append("slideup"),
        TransitionType::SlideDown => out.append("slidedown"),
        TransitionType::WipeLeft => out.append("wipeleft"),
        TransitionType::WipeRight => out.append("wiperight"),
        TransitionType::WipeUp => out.append("wipeup"),
        TransitionType::WipeDown => out.append("wipedown"),
        TransitionType::Pixelize => out.append("pixelize"),
        TransitionType::CircleOpen => out.append("circleopen"),
        TransitionType::CircleClose => out.append("circleclose"),
        TransitionType::Radial => out.append("radial"),
        TransitionType::SmoothLeft => out.append("smoothleft"),
        TransitionType::SmoothRight => out.append("smoothright"),
        TransitionType::Cut => out.append("cut"),
    }
    out.append("\"");
    proof {
        assert(out@ =~= old(out)@ + "\""@ + transition_type_name_seq(*t) + "\""@);
    }
}

/// One region object.
pub open spec fn json_region_seq(r: Region) -> Seq<char> {
    "{\"x\":"@ + int_seq(r.x as int) + ",\"y\":"@ + int_seq(r.y as int) + ",\"width\":"@ + dec_seq(
        r.width as int,
    ) + ",\"height\":"@ + dec_seq(r.height as int) + "}"@
}

fn write_region(out: &mut String, r: &Region)
    ensures
        final(out)@ == old(out)@ + json_region_seq(*r),
{
    out.append("{\"x\":");
    out.append(i64_string(r.x as i64).as_str());
    out.append(",\"y\":");
    out.append(i64_string(r.y as i64).as_str());
    out.append(",\"width\":");
    out.append(u64_string(r.width as u64).as_str());
    out.append(",\"height\":");
    out.append(u64_string(r.height as u64).as_str());
    out.append("}");
    proof {
        assert(out@ =~= old(out)@ + json_region_seq(*r));
    }
}

/// A string array.
pub open spec fn json_strings_seq(v: Seq<String>, upto: int) -> Seq<char>
    decreases upto,
{
    if upto <= 0 {
        Seq::<char>::empty()
    } else if upto == 1 {
        json_string_seq(v[0]@)
    } else {
        json_strings_seq(v, upto - 1) + ","@ + json_string_seq(v[upto - 1]@)
    }
}

fn write_strings(out: &mut String, v: &Vec<String>)
    ensures
        final(out)@ == old(out)@ + "["@ + json_strings_seq(v@, v@.len() as int) + "]"@,
{
    out.append("[");
    let n = v.len();
    let mut i: usize = 0;
    while i < n
        invariant
            n == v@.len(),
            i <= n,
            out@ == old(out)@ + "["@ + json_strings_seq(v@, i as int),
        decreases n - i,
    {
        if i > 0 {
            out.append(",");
        }
        write_json_string(out, v[i].as_str());
        proof {
            assert(out@ =~= old(out)@ + "["@ + json_strings_seq(v@, i + 1 as int));
        }
        i = i + 1;
    }
    out.append("]");
    proof {
        assert(out@ =~= old(out)@ + "["@ + json_strings_seq(v@, n as int) + "]"@);
    }
}

/// One clip object, keys in storage order.
pub open spec fn json_clip_seq(c: Clip) -> Seq<char> {
    json_clip_head_seq(c) + ",\"thumbnail_path\":"@ + json_opt_string_seq(c.thumbnail_path)
        + ",\"trim_start_ms\":"@ + dec_seq(c.trim_start_ms as int) + ",\"trim_end_ms\":"@
        + dec_seq(c.trim_end_ms as int) + ",\"audio_paths\":"@ + "["@ + json_strings_seq(
        c.audio_paths@,
        c.audio_paths@.len() as int,
    ) + "]"@ + "}"@
}

pub open spec fn json_clip_head_seq(c: Clip) -> Seq<char> {
    "{\"id\":"@ + json_string_seq(c.id@) + ",\"path\":"@ + json_string_seq(c.path@)
        + ",\"duration_ms\":"@ + dec_seq(c.duration_ms as int) + ",\"region\":"@
        + json_region_seq(c.region) + ",\"has_audio\":"@ + (if c.has_audio {
        "true"@
    } else {
        "false"@
    })
}

fn write_clip_head(out: &mut String, c: &Clip)
    ensures
        final(out)@ == old(out)@ + json_clip_head_seq(*c),
{
    out.append("{\"id\":");
    write_json_string(out, c.id.as_str());
    out.append(",\"path\":");
    write_json_string(out, c.path.as_str());
    out.append(",\"duration_ms\":");
    out.append(u64_string(c.duration_ms).as_str());
    out.append(",\"region\":");
    write_region(out, &c.region);
    out.append(",\"has_audio\":");
    if c.has_audio {
        out.append("true");
    } else {
        out.append("false");
    }
    proof {
        assert(out@ =~= old(out)@ + json_clip_head_seq(*c));
    }
}

fn write_clip(out: &mut String, c: &Clip)
    ensures
        final(out)@ == old(out)@ + json_clip_seq(*c),
{
    write_clip_head(out, c);
    out.append(",\"thumbnail_path\":");
    match &c.thumbnail_path {
        Option::Some(p) => write_json_string(out, p.as_str()),
        Option::None => out.append("null"),
    }
    out.append(",\"trim_start_ms\":");
    out.append(u64_string(c.trim_start_ms).as_str());
    out.append(",\"trim_end_ms\":");
    out.append(u64_string(c.trim_end_ms).as_str());
    out.append(",\"audio_paths\":");
    write_strings(out, &c.audio_paths);
    out.append("}");
    proof {
        assert(out@ =~= old(out)@ + json_clip_seq(*c));
    }
}

/// The clip array's body.
pub open spec fn json_clips_seq(v: Seq<Clip>, upto: int) -> Seq<char>
    decreases upto,
{
    if upto <= 0 {
        Seq::<char>::empty()
    } else if upto == 1 {
        json_clip_seq(v[0])
    } else {
        json_clips_seq(v, upto - 1) + ","@ + json_clip_seq(v[upto - 1])
    }
}

/// One transition object.
pub open spec fn json_transition_seq(t: Transition) -> Seq<char> {
    "{\"transition_type\":"@ + "\""@ + transition_type_name_seq(t.transition_type) + "\""@
        + ",\"duration_ms\":"@ + dec_seq(t.duration_ms as int) + "}"@
}

/// The transition array's body.
pub open spec fn json_transitions_seq(v: Seq<Transition>, upto: int) -> Seq<char>
    decreases upto,
{
    if upto <= 0 {
        Seq::<char>::empty()
    } else if upto == 1 {
        json_transition_seq(v[0])
    } else {
        json_transitions_seq(v, upto - 1) + ","@ + json_transition_seq(v[upto - 1])
    }
}

fn write_transition(out: &mut String, t: &Transition)
    ensures
        final(out)@ == old(out)@ + json_transition_seq(*t),
{
    out.append("{\"transition_type\":");
    write_transition_type(out, &t.transition_type);
    out.append(",\"duration_ms\":");
    out.append(u64_string(t.duration_ms).as_str());
    out.append("}");
    proof {
        assert(out@ =~= old(out)@ + json_transition_seq(*t));
    }
}

/// The settings object.
pub open spec fn json_settings_seq(
    audio_source: AudioSource,
    watermark_enabled: bool,
    export_format: ExportFormat,
    export_quality: ExportQuality,
) -> Seq<char> {
    "{\"audio_source\":\""@ + (match audio_source {
        AudioSource::Off => "none"@,
        AudioSource::System => "system"@,
        AudioSource::Microphone => "microphone"@,
        AudioSource::Both => "both"@,
    }) + "\",\"watermark_enabled\":"@ + (if watermark_enabled {
        "true"@
    } else {
        "false"@
    }) + ",\"export_format\":\""@ + (match export_format {
        ExportFormat::Mp4 => "mp4"@,
        ExportFormat::Gif => "gif"@,
    }) + "\",\"export_quality\":\""@ + (match export_quality {
        ExportQuality::High => "high"@,
        ExportQuality::Medium => "medium"@,
        ExportQuality::Low => "low"@,
    }) + "\"}"@
}

/// One subtitle object.
pub open spec fn json_subtitle_seq(s: Subtitle) -> Seq<char> {
    "{\"id\":"@ + json_string_seq(s.id@) + ",\"text\":"@ + json_string_seq(s.text@)
        + ",\"start_ms\":"@ + dec_seq(s.start_ms as int) + ",\"end_ms\":"@ + dec_seq(
        s.end_ms as int,
    ) + ",\"position\":\""@ + (match s.position {
        SubtitlePosition::Top => "top"@,
        SubtitlePosition::Center => "center"@,
        SubtitlePosition::Bottom => "bottom"@,
    }) + "\",\"font_size\":"@ + dec_seq(s.font_size as int) + ",\"color\":"@ + json_string_seq(
        s.color@,
    ) + "}"@
}

/// The subtitle array's body.
pub open spec fn json_subtitles_seq(v: Seq<Subtitle>, upto: int) -> Seq<char>
    decreases upto,
{
    if upto <= 0 {
        Seq::<char>::empty()
    } else if upto == 1 {
        json_subtitle_seq(v[0])
    } else {
        json_subtitles_seq(v, upto - 1) + ","@ + json_subtitle_seq(v[upto - 1])
    }
}

#[verifier::rlimit(100)]
fn write_subtitle(out: &mut String, s: &Subtitle)
    ensures
        final(out)@ == old(out)@ + json_subtitle_seq(*s),
{
    out.append("{\"id\":");
    write_json_string(out, s.id.as_str());
    out.append(",\"text\":");
    write_json_string(out, s.text.as_str());
    out.append(",\"start_ms\":");
    out.append(u64_string(s.start_ms).as_str());
    out.append(",\"end_ms\":");
    out.append(u64_string(s.end_ms).as_str());
    out.append(",\"position\":\"");
    match s.position {
        SubtitlePosition::Top => out.append("top"),
        SubtitlePosition::Center => out.append("center"),
        SubtitlePosition::Bottom => out.append("bottom"),
    }
    out.append("\",\"font_size\":");
    out.append(u64_string(s.font_size as u64).as_str());
    out.append(",\"color\":");
    write_json_string(out, s.color.as_str());
    out.append("}");
    proof {
        assert(out@ =~= old(out)@ + json_subtitle_seq(*s));
    }
}

/// One freehand point as a two-element array.
pub open spec fn json_point_seq(p: (u32, u32)) -> Seq<char> {
    "["@ + dec_seq(p.0 as int) + ","@ + dec_seq(p.1 as int) + "]"@
}

/// The point array's body.
pub open spec fn json_points_seq(v: Seq<(u32, u32)>, upto: int) -> Seq<char>
    decreases upto,
{
    if upto <= 0 {
        Seq::<char>::empty()
    } else if upto == 1 {
        json_point_seq(v[0])
    } else {
        json_points_seq(v, upto - 1) + ","@ + json_point_seq(v[upto - 1])
    }
}

/// The optional point path.
pub open spec fn json_opt_points_seq(v: Option<Vec<(u32, u32)>>) -> Seq<char> {
    match v {
        Option::Some(ps) => "["@ + json_points_seq(ps@, ps@.len() as int) + "]"@,
        Option::None => "null"@,
    }
}

/// One annotation object.
pub open spec fn json_annotation_seq(a: Annotation) -> Seq<char> {
    json_annotation_prefix(a) + json_opt_points_seq(a.points) + ",\"start_ms\":"@ + dec_seq(
        a.start_ms as int,
    ) + ",\"end_ms\":"@ + dec_seq(a.end_ms as int) + "}"@
}

fn write_opt_points(out: &mut String, points: &Option<Vec<(u32, u32)>>)
    ensures
        final(out)@ == old(out)@ + json_opt_points_seq(*points),
{
    match points {
        Option::Some(ps) => {
            out.append("[");
            let n = ps.len();
            let mut i: usize = 0;
            while i < n
                invariant
                    n == ps@.len(),
                    i <= n,
                    out@ == old(out)@ + "["@ + json_points_seq(ps@, i as int),
                decreases n - i,
            {
                if i > 0 {
                    out.append(",");
                }
                out.append("[");
                out.append(u64_string(ps[i].0 as u64).as_str());
                out.append(",");
                out.append(u64_string(ps[i].1 as u64).as_str());
                out.append("]");
                proof {
                    assert(out@ =~= old(out)@ + "["@ + json_points_seq(ps@, i + 1 as int));
                }
                i = i + 1;
            }
            out.append("]");
            proof {
                assert(out@ =~= old(out)@ + json_opt_points_seq(*points));
            }
        },
        Option::None => {
            out.append("null");
        },
    }
}

/// The identity and geometry half of an annotation object.
pub open spec fn json_annotation_head_seq(a: Annotation) -> Seq<char> {
    "{\"id\":"@ + json_string_seq(a.id@) + ",\"kind\":\""@ + (match a.kind {
        AnnotationKind::Arrow => "arrow"@,
        AnnotationKind::Rectangle => "rectangle"@,
        AnnotationKind::Circle => "circle"@,
        AnnotationKind::Text => "text"@,
        AnnotationKind::Freehand => "freehand"@,
    }) + "\",\"x\":"@ + dec_seq(a.x as int) + ",\"y\":"@ + dec_seq(a.y as int)
        + ",\"width\":"@ + dec_seq(a.width as int) + ",\"height\":"@ + dec_seq(
        a.height as int,
    )
}

fn write_annotation_head(out: &mut String, a: &Annotation)
    ensures
        final(out)@ == old(out)@ + json_annotation_head_seq(*a),
{
    let kind_name: &str = match a.kind {
        AnnotationKind::Arrow => "arrow",
        AnnotationKind::Rectangle => "rectangle",
        AnnotationKind::Circle => "circle",
        AnnotationKind::Text => "text",
        AnnotationKind::Freehand => "freehand",
    };
    out.append("{\"id\":");
    write_json_string(out, a.id.as_str());
    out.append(",\"kind\":\"");
    out.append(kind_name);
    out.append("\",\"x\":");
    out.append(u64_string(a.x as u64).as_str());
    out.append(",\"y\":");
    out.append(u64_string(a.y as u64).as_str());
    out.append(",\"width\":");
    out.append(u64_string(a.width as u64).as_str());
    out.append(",\"height\":");
    out.append(u64_string(a.height as u64).as_str());
    proof {
        assert(out@ =~= old(out)@ + json_annotation_head_seq(*a));
    }
}

fn write_annotation_prefix(out: &mut String, a: &Annotation)
    ensures
        final(out)@ == old(out)@ + json_annotation_prefix(*a),
{
    write_annotation_head(out, a);
    out.append(",\"color\":");
    write_json_string(out, a.color.as_str());
    out.append(",\"stroke_width\":");
    out.append(u64_string(a.stroke_width as u64).as_str());
    out.append(",\"text\":");
    match &a.text {
        Option::Some(t) => write_json_string(out, t.as_str()),
        Option::None => out.append("null"),
    }
    out.append(",\"points\":");
    proof {
        assert(out@ =~= old(out)@ + json_annotation_prefix(*a));
    }
}

fn write_annotation(out: &mut String, a: &Annotation)
    ensures
        final(out)@ == old(out)@ + json_annotation_seq(*a),
{
    write_annotation_prefix(out, a);
    write_opt_points(out, &a.points);
    out.append(",\"start_ms\":");
    out.append(u64_string(a.start_ms).as_str());
    out.append(",\"end_ms\":");
    out.append(u64_string(a.end_ms).as_str());
    out.append("}");
    proof {
        assert(out@ =~= old(out)@ + json_annotation_seq(*a));
    }
}

/// Everything of an annotation object before its point path.
pub open spec fn json_annotation_prefix(a: Annotation) -> Seq<char> {
    json_annotation_head_seq(a) + ",\"color\":"@ + json_string_seq(a.color@)
        + ",\"stroke_width\":"@ + dec_seq(a.stroke_width as int) + ",\"text\":"@
        + json_opt_string_seq(a.text) + ",\"points\":"@
}

/// One annotation list, the value under a clip id.
pub open spec fn json_annotations_seq(v: Seq<Annotation>, upto: int) -> Seq<char>
    decreases upto,
{
    if upto <= 0 {
        Seq::<char>::empty()
    } else if upto == 1 {
        json_annotation_seq(v[0])
    } else {
        json_annotations_seq(v, upto - 1) + ","@ + json_annotation_seq(v[upto - 1])
    }
}

/// The annotation map's body: clip id keys, annotation array values.
pub open spec fn json_ann_map_seq(v: Seq<(String, Vec<Annotation>)>, upto: int) -> Seq<char>
    decreases upto,
{
    if upto <= 0 {
        Seq::<char>::empty()
    } else if upto == 1 {
        json_string_seq(v[0].0@) + ":["@ + json_annotations_seq(v[0].1@, v[0].1@.len() as int)
            + "]"@
    } else {
        json_ann_map_seq(v, upto - 1) + ","@ + json_string_seq(v[upto - 1].0@) + ":["@
            + json_annotations_seq(v[upto - 1].1@, v[upto - 1].1@.len() as int) + "]"@
    }
}

/// The whole project file: the flat per-project description, keys in
/// storage order.
pub open spec fn json_project_seq(p: Project) -> Seq<char> {
    "{\"id\":"@ + json_string_seq(p.id@) + ",\"name\":"@ + json_string_seq(p.name@)
        + ",\"created_at\":"@ + json_string_seq(p.created_at@) + ",\"updated_at\":"@
        + json_string_seq(p.updated_at@) + ",\"clips\":"@ + "["@ + json_clips_seq(
        p.clips@,
        p.clips@.len() as int,
    ) + "]"@ + ",\"transitions\":"@ + "["@ + json_transitions_seq(
        p.transitions@,
        p.transitions@.len() as int,
    ) + "]"@ + ",\"settings\":"@ + json_settings_seq(
        p.settings.audio_source,
        p.settings.watermark_enabled,
        p.settings.export_format,
        p.settings.export_quality,
    ) + ",\"annotations\":"@ + "{"@ + json_ann_map_seq(
        p.annotations@,
        p.annotations@.len() as int,
    ) + "}"@ + ",\"subtitles\":"@ + "["@ + json_subtitles_seq(
        p.subtitles@,
        p.subtitles@.len() as int,
    ) + "]"@ + "}"@
}

fn write_clips_array(out: &mut String, clips: &Vec<Clip>)
    ensures
        final(out)@ == old(out)@ + "["@ + json_clips_seq(clips@, clips@.len() as int) + "]"@,
{
    out.append("[");
    let n = clips.len();
    let mut i: usize = 0;
    while i < n
        invariant
            n == clips@.len(),
            i <= n,
            out@ == old(out)@ + "["@ + json_clips_seq(clips@, i as int),
        decreases n - i,
    {
        if i > 0 {
            out.append(",");
        }
        write_clip(out, &clips[i]);
        proof {
            assert(out@ =~= old(out)@ + "["@ + json_clips_seq(clips@, i + 1 as int));
        }
        i = i + 1;
    }
    out.append("]");
}

fn write_transitions_array(out: &mut String, transitions: &Vec<Transition>)
    ensures
        final(out)@ == old(out)@ + "["@ + json_transitions_seq(
            transitions@,
            transitions@.len() as int,
        ) + "]"@,
{
    out.append("[");
    let n = transitions.len();
    let mut i: usize = 0;
    while i < n
        invariant
            n == transitions@.len(),
            i <= n,
            out@ == old(out)@ + "["@ + json_transitions_seq(transitions@, i as int),
        decreases n - i,
    {
        if i > 0 {
            out.append(",");
        }
        write_transition(out, &transitions[i]);
        proof {
            assert(out@ =~= old(out)@ + "["@ + json_transitions_seq(transitions@, i + 1 as int));
        }
        i = i + 1;
    }
    out.append("]");
}

fn write_settings(
    out: &mut String,
    audio_source: AudioSource,
    watermark_enabled: bool,
    export_format: ExportFormat,
    export_quality: ExportQuality,
)
    ensures
        final(out)@ == old(out)@ + json_settings_seq(
            audio_source,
            watermark_enabled,
            export_format,
            export_quality,
        ),
{
    let audio_name: &str = match audio_source {
        AudioSource::Off => "none",
        AudioSource::System => "system",
        AudioSource::Microphone => "microphone",
        AudioSource::Both => "both",
    };
    let watermark_name: &str = if watermark_enabled {
        "true"
    } else {
        "false"
    };
    let format_name: &str = match export_format {
        ExportFormat::Mp4 => "mp4",
        ExportFormat::Gif => "gif",
    };
    let quality_name: &str = match export_quality {
        ExportQuality::High => "high",
        ExportQuality::Medium => "medium",
        ExportQuality::Low => "low",
    };
    out.append("{\"audio_source\":\"");
    out.append(audio_name);
    out.append("\",\"watermark_enabled\":");
    out.append(watermark_name);
    out.append(",\"export_format\":\"");
    out.append(format_name);
    out.append("\",\"export_quality\":\"");
    out.append(quality_name);
    out.append("\"}");
    proof {
        assert(out@ =~= old(out)@ + json_settings_seq(
            audio_source,
            watermark_enabled,
            export_format,
            export_quality,
        ));
    }
}

fn write_ann_entry(out: &mut String, key: &String, entry: &Vec<Annotation>)
    ensures
        final(out)@ == old(out)@ + json_string_seq(key@) + ":["@ + json_annotations_seq(
            entry@,
            entry@.len() as int,
        ) + "]"@,
{
    write_json_string(out, key.as_str());
    out.append(":[");
    let n = entry.len();
    let mut i: usize = 0;
    while i < n
        invariant
            n == entry@.len(),
            i <= n,
            out@ == old(out)@ + json_string_seq(key@) + ":["@ + json_annotations_seq(
                entry@,
                i as int,
            ),
        decreases n - i,
    {
        if i > 0 {
            out.append(",");
        }
        write_annotation(out, &entry[i]);
        proof {
            assert(out@ =~= old(out)@ + json_string_seq(key@) + ":["@ + json_annotations_seq(
                entry@,
                i + 1 as int,
            ));
        }
        i = i + 1;
    }
    out.append("]");
}

fn write_ann_map(out: &mut String, map: &Vec<(String, Vec<Annotation>)>)
    ensures
        final(out)@ == old(out)@ + "{"@ + json_ann_map_seq(map@, map@.len() as int) + "}"@,
{
    out.append("{");
    let n = map.len();
    let mut i: usize = 0;
    while i < n
        invariant
            n == map@.len(),
            i <= n,
            out@ == old(out)@ + "{"@ + json_ann_map_seq(map@, i as int),
        decreases n - i,
    {
        if i > 0 {
            out.append(",");
        }
        write_ann_entry(out, &map[i].0, &map[i].1);
        proof {
            assert(out@ =~= old(out)@ + "{"@ + json_ann_map_seq(map@, i + 1 as int));
        }
        i = i + 1;
    }
    out.append("}");
}

fn write_subtitles_array(out: &mut String, subtitles: &Vec<Subtitle>)
    ensures
        final(out)@ == old(out)@ + "["@ + json_subtitles_seq(
            subtitles@,
            subtitles@.len() as int,
        ) + "]"@,
{
    out.append("[");
    let n = subtitles.len();
    let mut i: usize = 0;
    while i < n
        invariant
            n == subtitles@.len(),
            i <= n,
            out@ == old(out)@ + "["@ + json_subtitles_seq(subtitles@, i as int),
        decreases n - i,
    {
        if i > 0 {
            out.append(",");
        }
        write_subtitle(out, &subtitles[i]);
        proof {
            assert(out@ =~= old(out)@ + "["@ + json_subtitles_seq(subtitles@, i + 1 as int));
        }
        i = i + 1;
    }
    out.append("]");
}

/// Write a project as its stored JSON text.
#[verifier::rlimit(100)]
pub fn project_to_json(p: &Project) -> (r: String)
    ensures
        r@ == json_project_seq(*p),
{
    let mut out = String::new();
    out.append("{\"id\":");
    write_json_string(&mut out, p.id.as_str());
    out.append(",\"name\":");
    write_json_string(&mut out, p.name.as_str());
    out.append(",\"created_at\":");
    write_json_string(&mut out, p.created_at.as_str());
    out.append(",\"updated_at\":");
    write_json_string(&mut out, p.updated_at.as_str());
    out.append(",\"clips\":");
    write_clips_array(&mut out, &p.clips);
    out.append(",\"transitions\":");
    write_transitions_array(&mut out, &p.transitions);
    out.append(",\"settings\":");
    write_settings(
        &mut out,
        p.settings.audio_source,
        p.settings.watermark_enabled,
        p.settings.export_format,
        p.settings.export_quality,
    );
    out.append(",\"annotations\":");
    write_ann_map(&mut out, &p.annotations);
    out.append(",\"subtitles\":");
    write_subtitles_array(&mut out, &p.subtitles);
    out.append("}");
    proof {
        assert(out@ =~= json_project_seq(*p));
    }
    out
}

} // verus!
