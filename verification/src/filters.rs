//! Overlay filter construction: subtitles, keystroke captions and
//! annotation drawings, each as one draw instruction in the encoder's
//! filter language, gated to its time window.

use vstd::prelude::*;
use crate::types::{Annotation, AnnotationKind, KeystrokeEvent, Subtitle, SubtitlePosition};
use crate::escape::{color_spec, escape_seq, annotation_color_ffmpeg, escape_drawtext};
use crate::numfmt::{dec_seq, ms_seq, ms_string, u64_string};

verus! {

/// At most this many keystroke captions are drawn per clip, to bound the
/// size of the filter graph.
pub const KEYSTROKE_CAP: usize = 150;

/// Every keystroke caption stays on screen this long, in ms.
pub const KEYSTROKE_SHOW_MS: u64 = 1500;

/// The time gate of an overlay: visible during `[start, end)` of the
/// output timeline, in ms.
pub open spec fn enable_seq(start_ms: int, end_ms: int) -> Seq<char> {
    "enable='between(t\\,"@ + ms_seq(start_ms) + "\\,"@ + ms_seq(end_ms) + ")'"@
}

fn enable_string(start_ms: u64, end_ms: u64) -> (r: String)
    ensures
        r@ == enable_seq(start_ms as int, end_ms as int),
{
    let r = "enable='between(t\\,"
        .to_owned()
        .concat(ms_string(start_ms).as_str())
        .concat("\\,")
        .concat(ms_string(end_ms).as_str())
        .concat(")'");
    proof {
        assert(r@ =~= enable_seq(start_ms as int, end_ms as int));
    }
    r
}

/// Vertical anchor expression of a subtitle position.
pub open spec fn subtitle_y_seq(position: SubtitlePosition) -> Seq<char> {
    match position {
        SubtitlePosition::Top => "30"@,
        SubtitlePosition::Center => "(h-th)/2"@,
        SubtitlePosition::Bottom => "h-th-30"@,
    }
}

/// The font size a subtitle is drawn with: its own, or 32 when unset.
pub open spec fn subtitle_fontsize_spec(font_size: u32) -> u32 {
    if font_size > 0 {
        font_size
    } else {
        32
    }
}

/// The full draw instruction of one subtitle.
pub open spec fn subtitle_filter_seq(sub: Subtitle) -> Seq<char> {
    "drawtext=text='"@ + escape_seq(sub.text@) + "':fontsize="@ + dec_seq(
        subtitle_fontsize_spec(sub.font_size) as int,
    ) + ":fontcolor="@ + color_spec(sub.color@)
        + ":box=1:boxcolor=black@0.6:boxborderw=8:x=(w-tw)/2:y="@ + subtitle_y_seq(sub.position)
        + ":"@ + enable_seq(sub.start_ms as int, sub.end_ms as int)
}

/// One draw instruction per subtitle, over the whole exported timeline.
pub fn build_subtitle_filters(subtitles: &Vec<Subtitle>) -> (r: Vec<String>)
    ensures
        r@.len() == subtitles@.len(),
        forall|i: int|
            0 <= i < r@.len() ==> (#[trigger] r@[i])@ == subtitle_filter_seq(subtitles@[i]),
{
    let mut r: Vec<String> = Vec::new();
    let n = subtitles.len();
    let mut i: usize = 0;
    while i < n
        invariant
            n == subtitles@.len(),
            i <= n,
            r@.len() == i,
            forall|j: int|
                0 <= j < i ==> (#[trigger] r@[j])@ == subtitle_filter_seq(subtitles@[j]),
        decreases n - i,
    {
        let sub = &subtitles[i];
        let escaped = escape_drawtext(sub.text.as_str());
        let fontsize: u32 = if sub.font_size > 0 {
            sub.font_size
        } else {
            32
        };
        let color = annotation_color_ffmpeg(sub.color.as_str());
        let y_expr: &str = match sub.position {
            SubtitlePosition::Top => "30",
            SubtitlePosition::Center => "(h-th)/2",
            SubtitlePosition::Bottom => "h-th-30",
        };
        let f = "drawtext=text='"
            .to_owned()
            .concat(escaped.as_str())
            .concat("':fontsize=")
            .concat(u64_string(fontsize as u64).as_str())
            .concat(":fontcolor=")
            .concat(color.as_str())
            .concat(":box=1:boxcolor=black@0.6:boxborderw=8:x=(w-tw)/2:y=")
            .concat(y_expr)
            .concat(":")
            .concat(enable_string(sub.start_ms, sub.end_ms).as_str());
        proof {
            assert(f@ =~= subtitle_filter_seq(subtitles@[i as int]));
        }
        r.push(f);
        i = i + 1;
    }
    r
}

/// The caption drawn when a keystroke combo appears, shown for 1.5 s from
/// `at_ms` on the output timeline.
pub open spec fn keystroke_filter_seq(key_name: Seq<char>, at_ms: int) -> Seq<char> {
    "drawtext=text='"@ + escape_seq(key_name)
        + "':fontsize=28:fontcolor=white:box=1:boxcolor=black@0.7:boxborderw=10:x=(w-tw)/2:y=h-60:"@
        + enable_seq(at_ms, at_ms + KEYSTROKE_SHOW_MS)
}

/// Where a keystroke event lands on the output timeline: its in-clip
/// timestamp, shifted back by the clip's trim start and forward by the
/// clip's cumulative offset into the timeline. Negative means the event
/// was trimmed away.
pub open spec fn keystroke_at_spec(ts_ms: int, time_offset_ms: int, trim_start_ms: int) -> int {
    ts_ms - trim_start_ms + time_offset_ms
}

/// The caption list for one clip's events, capped at the first
/// `KEYSTROKE_CAP` events; events shifted to before the timeline start
/// are skipped.
pub open spec fn keystroke_filters_seq(
    events: Seq<KeystrokeEvent>,
    time_offset_ms: int,
    trim_start_ms: int,
    upto: int,
) -> Seq<Seq<char>>
    decreases upto,
{
    if upto <= 0 {
        Seq::<Seq<char>>::empty()
    } else {
        let head = keystroke_filters_seq(events, time_offset_ms, trim_start_ms, upto - 1);
        let at = keystroke_at_spec(
            events[upto - 1].timestamp_ms as int,
            time_offset_ms,
            trim_start_ms,
        );
        if at >= 0 {
            head.push(keystroke_filter_seq(events[upto - 1].key_name@, at))
        } else {
            head
        }
    }
}

/// How many of a clip's events are used: the first 150.
pub open spec fn keystroke_used_spec(n: int) -> int {
    if n > KEYSTROKE_CAP {
        KEYSTROKE_CAP as int
    } else {
        n
    }
}

/// Build the keystroke captions of one clip. `time_offset_ms` is the
/// clip's cumulative offset into the output timeline.
pub fn build_keystroke_filters(
    events: &Vec<KeystrokeEvent>,
    time_offset_ms: i64,
    trim_start_ms: u64,
) -> (r: Vec<String>)
    requires
        forall|i: int|
            0 <= i < events@.len() ==> (#[trigger] events@[i]).timestamp_ms
                <= 0x1000_0000_0000_0000,
        -0x1000_0000_0000_0000 <= time_offset_ms <= 0x1000_0000_0000_0000,
        trim_start_ms <= 0x1000_0000_0000_0000,
    ensures
        ({
            let fs = keystroke_filters_seq(
                events@,
                time_offset_ms as int,
                trim_start_ms as int,
                keystroke_used_spec(events@.len() as int),
            );
            r@.len() == fs.len() && forall|i: int|
                0 <= i < fs.len() ==> (#[trigger] r@[i])@ == fs[i]
        }),
{
    let mut r: Vec<String> = Vec::new();
    let n = events.len();
    let used: usize = if n > KEYSTROKE_CAP {
        KEYSTROKE_CAP
    } else {
        n
    };
    let mut i: usize = 0;
    while i < used
        invariant
            used <= events@.len(),
            used as int == keystroke_used_spec(events@.len() as int),
            i <= used,
            forall|k: int|
                0 <= k < events@.len() ==> (#[trigger] events@[k]).timestamp_ms
                    <= 0x1000_0000_0000_0000,
            -0x1000_0000_0000_0000 <= time_offset_ms <= 0x1000_0000_0000_0000,
            trim_start_ms <= 0x1000_0000_0000_0000,
            ({
                let fs = keystroke_filters_seq(
                    events@,
                    time_offset_ms as int,
                    trim_start_ms as int,
                    i as int,
                );
                r@.len() == fs.len() && forall|k: int|
                    0 <= k < fs.len() ==> (#[trigger] r@[k])@ == fs[k]
            }),
        decreases used - i,
    {
        let ev = &events[i];
        let at: i64 = ev.timestamp_ms as i64 - trim_start_ms as i64 + time_offset_ms;
        if at >= 0 {
            let escaped = escape_drawtext(ev.key_name.as_str());
            let f = "drawtext=text='"
                .to_owned()
                .concat(escaped.as_str())
                .concat(
                    "':fontsize=28:fontcolor=white:box=1:boxcolor=black@0.7:boxborderw=10:x=(w-tw)/2:y=h-60:",
                )
                .concat(enable_string(at as u64, at as u64 + KEYSTROKE_SHOW_MS).as_str());
            proof {
                assert(f@ =~= keystroke_filter_seq(
                    events@[i as int].key_name@,
                    keystroke_at_spec(
                        events@[i as int].timestamp_ms as int,
                        time_offset_ms as int,
                        trim_start_ms as int,
                    ),
                ));
            }
            r.push(f);
        }
        i = i + 1;
    }
    r
}

/// A normalized fraction (ten-thousandths) applied to a pixel dimension.
pub open spec fn px_spec(frac: u32, dim: u32) -> int {
    (frac * dim) / 10000
}

/// A drawn dimension: the scaled fraction, held at 4 px or more.
pub open spec fn dim4_spec(frac: u32, dim: u32) -> int {
    if px_spec(frac, dim) < 4 {
        4int
    } else {
        px_spec(frac, dim)
    }
}

/// A stroke width held at 2 px or more.
pub open spec fn stroke_spec(sw: u32) -> int {
    if sw < 2 {
        2int
    } else {
        sw as int
    }
}

/// A filled stroke (arrow shaft, freehand dot) held at 3 px or more.
pub open spec fn thick_spec(sw: u32) -> int {
    if stroke_spec(sw) < 3 {
        3int
    } else {
        stroke_spec(sw)
    }
}

/// The stroked box of a rectangle annotation.
pub open spec fn rect_filter_seq(ann: Annotation, w: u32, h: u32) -> Seq<char> {
    "drawbox=x="@ + dec_seq(px_spec(ann.x, w)) + ":y="@ + dec_seq(px_spec(ann.y, h)) + ":w="@
        + dec_seq(dim4_spec(ann.width, w)) + ":h="@ + dec_seq(dim4_spec(ann.height, h))
        + ":color="@ + color_spec(ann.color@) + "@0.8:t="@ + dec_seq(stroke_spec(ann.stroke_width))
        + ":"@ + enable_seq(ann.start_ms as int, ann.end_ms as int)
}

/// A circle annotation approximated by the square outline inscribed in
/// its bounding box.
pub open spec fn circle_filter_seq(ann: Annotation, w: u32, h: u32) -> Seq<char> {
    let px = px_spec(ann.x, w);
    let py = px_spec(ann.y, h);
    let pw = dim4_spec(ann.width, w);
    let ph = dim4_spec(ann.height, h);
    let cx = px + pw / 2;
    let cy = py + ph / 2;
    let r0 = (if pw < ph { pw } else { ph }) / 2;
    "drawbox=x="@ + dec_seq(cx - r0) + ":y="@ + dec_seq(cy - r0) + ":w="@ + dec_seq(2 * r0)
        + ":h="@ + dec_seq(2 * r0) + ":color="@ + color_spec(ann.color@) + "@0.8:t="@ + dec_seq(
        stroke_spec(ann.stroke_width),
    ) + ":"@ + enable_seq(ann.start_ms as int, ann.end_ms as int)
}

/// The font size of a text annotation: 70% of its box height, at least 16.
pub open spec fn text_fontsize_spec(hfrac: u32, h: u32) -> int {
    let fs = (hfrac * h * 7) / 100000;
    if fs < 16 {
        16int
    } else {
        fs
    }
}

/// A text annotation drawn at its position.
pub open spec fn text_filter_seq(ann: Annotation, text: Seq<char>, w: u32, h: u32) -> Seq<char> {
    "drawtext=text='"@ + escape_seq(text) + "':x="@ + dec_seq(px_spec(ann.x, w)) + ":y="@
        + dec_seq(px_spec(ann.y, h)) + ":fontsize="@ + dec_seq(text_fontsize_spec(ann.height, h))
        + ":fontcolor="@ + color_spec(ann.color@) + ":"@ + enable_seq(
        ann.start_ms as int,
        ann.end_ms as int,
    )
}

/// An arrow annotation approximated by a thick filled horizontal box
/// through the middle of its bounding box.
pub open spec fn arrow_filter_seq(ann: Annotation, w: u32, h: u32) -> Seq<char> {
    let py = px_spec(ann.y, h);
    let ph = dim4_spec(ann.height, h);
    let thick = thick_spec(ann.stroke_width);
    let ay = py + ph / 2 - thick / 2;
    "drawbox=x="@ + dec_seq(px_spec(ann.x, w)) + ":y="@ + crate::numfmt::int_seq(ay) + ":w="@
        + dec_seq(dim4_spec(ann.width, w)) + ":h="@ + dec_seq(thick) + ":color="@ + color_spec(
        ann.color@,
    ) + "@0.8:t=fill:"@ + enable_seq(ann.start_ms as int, ann.end_ms as int)
}

/// One dot of a freehand stroke.
pub open spec fn freehand_dot_seq(ann: Annotation, pt: (u32, u32), w: u32, h: u32) -> Seq<char> {
    let thick = thick_spec(ann.stroke_width);
    "drawbox=x="@ + dec_seq(px_spec(pt.0, w)) + ":y="@ + dec_seq(px_spec(pt.1, h)) + ":w="@
        + dec_seq(thick) + ":h="@ + dec_seq(thick) + ":color="@ + color_spec(ann.color@)
        + "@0.8:t=fill:"@ + enable_seq(ann.start_ms as int, ann.end_ms as int)
}

/// How many freehand dots are drawn: every third point, at most 50.
pub open spec fn freehand_count_spec(n: int) -> int {
    let stepped = (n + 2) / 3;
    if stepped > 50 {
        50int
    } else {
        stepped
    }
}

/// The dots of a freehand stroke, decimated to every third point.
pub open spec fn freehand_filter_seqs(
    ann: Annotation,
    points: Seq<(u32, u32)>,
    w: u32,
    h: u32,
    upto: int,
) -> Seq<Seq<char>>
    decreases upto,
{
    if upto <= 0 {
        Seq::<Seq<char>>::empty()
    } else {
        freehand_filter_seqs(ann, points, w, h, upto - 1).push(
            freehand_dot_seq(ann, points[(upto - 1) * 3], w, h),
        )
    }
}

/// The draw instructions of one annotation: one box or text, or a dot
/// sequence for freehand; a text annotation without text and a freehand
/// one without points draw nothing.
pub open spec fn annotation_filter_seqs(ann: Annotation, w: u32, h: u32) -> Seq<Seq<char>> {
    match ann.kind {
        AnnotationKind::Rectangle => seq![rect_filter_seq(ann, w, h)],
        AnnotationKind::Circle => seq![circle_filter_seq(ann, w, h)],
        AnnotationKind::Text => match ann.text {
            Option::Some(t) => seq![text_filter_seq(ann, t@, w, h)],
            Option::None => Seq::<Seq<char>>::empty(),
        },
        AnnotationKind::Arrow => seq![arrow_filter_seq(ann, w, h)],
        AnnotationKind::Freehand => match ann.points {
            Option::Some(ps) => freehand_filter_seqs(
                ann,
                ps@,
                w,
                h,
                freehand_count_spec(ps@.len() as int),
            ),
            Option::None => Seq::<Seq<char>>::empty(),
        },
    }
}

/// The draw instructions of a clip's annotation list, in order.
pub open spec fn annotations_filter_seqs(
    anns: Seq<Annotation>,
    w: u32,
    h: u32,
    upto: int,
) -> Seq<Seq<char>>
    decreases upto,
{
    if upto <= 0 {
        Seq::<Seq<char>>::empty()
    } else {
        annotations_filter_seqs(anns, w, h, upto - 1) + annotation_filter_seqs(
            anns[upto - 1],
            w,
            h,
        )
    }
}

fn px_of(frac: u32, dim: u32) -> (r: u64)
    ensures
        r == px_spec(frac, dim),
        r < 0x8_0000_0000_0000,
{
    proof {
        assert((frac as int) * (dim as int) < 0x1_0000_0000_0000_0000) by (nonlinear_arith)
            requires
                frac < 0x1_0000_0000,
                dim < 0x1_0000_0000,
        ;
    }
    (((frac as u128) * (dim as u128)) / 10000) as u64
}

fn dim4_of(frac: u32, dim: u32) -> (r: u64)
    ensures
        r == dim4_spec(frac, dim),
        r < 0x8_0000_0000_0000,
{
    let p = px_of(frac, dim);
    if p < 4 {
        4
    } else {
        p
    }
}

fn stroke_of(sw: u32) -> (r: u64)
    ensures
        r == stroke_spec(sw),
{
    if sw < 2 {
        2
    } else {
        sw as u64
    }
}

fn thick_of(sw: u32) -> (r: u64)
    ensures
        r == thick_spec(sw),
{
    let s = stroke_of(sw);
    if s < 3 {
        3
    } else {
        s
    }
}

fn one_annotation_filters(ann: &Annotation, w: u32, h: u32) -> (r: Vec<String>)
    ensures
        ({
            let fs = annotation_filter_seqs(*ann, w, h);
            r@.len() == fs.len() && forall|i: int|
                0 <= i < fs.len() ==> (#[trigger] r@[i])@ == fs[i]
        }),
{
    let mut r: Vec<String> = Vec::new();
    let color = annotation_color_ffmpeg(ann.color.as_str());
    let enable = enable_string(ann.start_ms, ann.end_ms);
    match ann.kind {
        AnnotationKind::Rectangle => {
            let f = "drawbox=x="
                .to_owned()
                .concat(u64_string(px_of(ann.x, w)).as_str())
                .concat(":y=")
                .concat(u64_string(px_of(ann.y, h)).as_str())
                .concat(":w=")
                .concat(u64_string(dim4_of(ann.width, w)).as_str())
                .concat(":h=")
                .concat(u64_string(dim4_of(ann.height, h)).as_str())
                .concat(":color=")
                .concat(color.as_str())
                .concat("@0.8:t=")
                .concat(u64_string(stroke_of(ann.stroke_width)).as_str())
                .concat(":")
                .concat(enable.as_str());
            proof {
                assert(f@ =~= rect_filter_seq(*ann, w, h));
            }
            r.push(f);
        },
        AnnotationKind::Circle => {
            let px = px_of(ann.x, w);
            let py = px_of(ann.y, h);
            let pw = dim4_of(ann.width, w);
            let ph = dim4_of(ann.height, h);
            let cx = px + pw / 2;
            let cy = py + ph / 2;
            let r0 = (if pw < ph {
                pw
            } else {
                ph
            }) / 2;
            let f = "drawbox=x="
                .to_owned()
                .concat(u64_string(cx - r0).as_str())
                .concat(":y=")
                .concat(u64_string(cy - r0).as_str())
                .concat(":w=")
                .concat(u64_string(2 * r0).as_str())
                .concat(":h=")
                .concat(u64_string(2 * r0).as_str())
                .concat(":color=")
                .concat(color.as_str())
                .concat("@0.8:t=")
                .concat(u64_string(stroke_of(ann.stroke_width)).as_str())
                .concat(":")
                .concat(enable.as_str());
            proof {
                assert(f@ =~= circle_filter_seq(*ann, w, h));
            }
            r.push(f);
        },
        AnnotationKind::Text => {
            if let Option::Some(text) = &ann.text {
                let escaped = escape_drawtext(text.as_str());
                proof {
                    assert((ann.height as int) * (h as int) * 7 < 0x7_0000_0000_0000_0000)
                        by (nonlinear_arith)
                        requires
                            ann.height < 0x1_0000_0000,
                            h < 0x1_0000_0000,
                    ;
                }
                let hf = (((ann.height as u128) * (h as u128) * 7) / 100000) as u64;
                let fs: u64 = if hf < 16 {
                    16
                } else {
                    hf
                };
                let f = "drawtext=text='"
                    .to_owned()
                    .concat(escaped.as_str())
                    .concat("':x=")
                    .concat(u64_string(px_of(ann.x, w)).as_str())
                    .concat(":y=")
                    .concat(u64_string(px_of(ann.y, h)).as_str())
                    .concat(":fontsize=")
                    .concat(u64_string(fs).as_str())
                    .concat(":fontcolor=")
                    .concat(color.as_str())
                    .concat(":")
                    .concat(enable.as_str());
                proof {
                    assert(f@ =~= text_filter_seq(*ann, ann.text->Some_0@, w, h));
                }
                r.push(f);
            }
        },
        AnnotationKind::Arrow => {
            let py = px_of(ann.y, h) as i64;
            let ph = dim4_of(ann.height, h) as i64;
            let thick = thick_of(ann.stroke_width) as i64;
            let ay = py + ph / 2 - thick / 2;
            let f = "drawbox=x="
                .to_owned()
                .concat(u64_string(px_of(ann.x, w)).as_str())
                .concat(":y=")
                .concat(crate::numfmt::i64_string(ay).as_str())
                .concat(":w=")
                .concat(u64_string(dim4_of(ann.width, w)).as_str())
                .concat(":h=")
                .concat(u64_string(thick as u64).as_str())
                .concat(":color=")
                .concat(color.as_str())
                .concat("@0.8:t=fill:")
                .concat(enable.as_str());
            proof {
                assert(f@ =~= arrow_filter_seq(*ann, w, h));
            }
            r.push(f);
        },
        AnnotationKind::Freehand => {
            if let Option::Some(points) = &ann.points {
                let total = points.len();
                let count: usize = if total >= 151 {
                    50
                } else {
                    (total + 2) / 3
                };
                let thick = thick_of(ann.stroke_width);
                let mut k: usize = 0;
                while k < count
                    invariant
                        count as int == freehand_count_spec(points@.len() as int),
                        count * 3 <= points@.len() + 2,
                        k <= count,
                        points@ == ann.points->Some_0@,
                        thick == thick_spec(ann.stroke_width),
                        color@ == color_spec(ann.color@),
                        enable@ == enable_seq(ann.start_ms as int, ann.end_ms as int),
                        ({
                            let fs = freehand_filter_seqs(*ann, points@, w, h, k as int);
                            r@.len() == fs.len() && forall|i: int|
                                0 <= i < fs.len() ==> (#[trigger] r@[i])@ == fs[i]
                        }),
                    decreases count - k,
                {
                    let pt = points[k * 3];
                    let f = "drawbox=x="
                        .to_owned()
                        .concat(u64_string(px_of(pt.0, w)).as_str())
                        .concat(":y=")
                        .concat(u64_string(px_of(pt.1, h)).as_str())
                        .concat(":w=")
                        .concat(u64_string(thick).as_str())
                        .concat(":h=")
                        .concat(u64_string(thick).as_str())
                        .concat(":color=")
                        .concat(color.as_str())
                        .concat("@0.8:t=fill:")
                        .concat(enable.as_str());
                    proof {
                        assert(f@ =~= freehand_dot_seq(*ann, points@[k as int * 3], w, h));
                    }
                    r.push(f);
                    k = k + 1;
                }
            }
        },
    }
    r
}

/// Build the draw instructions for all annotations of one clip, scaled to
/// the clip's drawn size.
pub fn build_annotation_draw_filters(annotations: &Vec<Annotation>, width: u32, height: u32) -> (r:
    Vec<String>)
    ensures
        ({
            let fs = annotations_filter_seqs(
                annotations@,
                width,
                height,
                annotations@.len() as int,
            );
            r@.len() == fs.len() && forall|i: int|
                0 <= i < fs.len() ==> (#[trigger] r@[i])@ == fs[i]
        }),
{
    let mut r: Vec<String> = Vec::new();
    let n = annotations.len();
    let mut i: usize = 0;
    while i < n
        invariant
            n == annotations@.len(),
            i <= n,
            ({
                let fs = annotations_filter_seqs(annotations@, width, height, i as int);
                r@.len() == fs.len() && forall|j: int|
                    0 <= j < fs.len() ==> (#[trigger] r@[j])@ == fs[j]
            }),
        decreases n - i,
    {
        let mut one = one_annotation_filters(&annotations[i], width, height);
        r.append(&mut one);
        i = i + 1;
    }
    r
}

} // verus!

