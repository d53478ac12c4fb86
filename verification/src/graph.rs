//! Timeline arithmetic and cross-clip composition: effective durations,
//! transition offsets, and the choice between the cross-fade chain and
//! the plain concatenation.

use vstd::prelude::*;
use crate::types::{Annotation, Clip, CursorPosition, Transition, TransitionType};
use crate::numfmt::{dec_seq, ms_seq, ms_string, u64_string, usize_string};

verus! {

/// Cross-fades all run this long, in ms.
pub const TRANSITION_DURATION_MS: u64 = 500;

/// The longest clip duration, trim bound or event timestamp the planner
/// accepts, in ms (about four and a half years); keeps every timeline sum
/// well inside 64 bits.
pub const MAX_TIME_MS: u64 = 0x8000_0000_000;

/// The most clips one timeline can hold.
pub const MAX_CLIPS: usize = 0x10000;

/// How long a clip plays after trimming: from the trim start to the trim
/// end (or to the probed end when no trim end is set), never less than
/// 100 ms.
pub open spec fn effective_duration_spec(
    trim_start_ms: u64,
    trim_end_ms: u64,
    probed_ms: u64,
) -> int {
    let end = if trim_end_ms > 0 {
        trim_end_ms as int
    } else {
        probed_ms as int
    };
    if end - trim_start_ms >= 100 {
        end - trim_start_ms
    } else {
        100
    }
}

/// The effective duration of a clip whose container holds `probed_ms` of
/// video.
pub fn effective_duration(clip: &Clip, probed_ms: u64) -> (r: u64)
    ensures
        r == effective_duration_spec(clip.trim_start_ms, clip.trim_end_ms, probed_ms),
        100 <= r,
        clip.trim_end_ms <= MAX_TIME_MS && probed_ms <= MAX_TIME_MS ==> r <= MAX_TIME_MS,
{
    let end = if clip.trim_end_ms > 0 {
        clip.trim_end_ms
    } else {
        probed_ms
    };
    if end >= clip.trim_start_ms && end - clip.trim_start_ms >= 100 {
        end - clip.trim_start_ms
    } else {
        100
    }
}

/// Whether every transition is the degenerate cut.
pub open spec fn all_cuts_spec(ts: Seq<Transition>) -> bool {
    forall|i: int| 0 <= i < ts.len() ==> (#[trigger] ts[i]).transition_type == TransitionType::Cut
}

/// True when every transition in the list is a cut; the timeline is then
/// composed by one n-way concatenation instead of a cross-fade chain.
pub fn all_cuts(transitions: &Vec<Transition>) -> (r: bool)
    ensures
        r == all_cuts_spec(transitions@),
{
    let n = transitions.len();
    let mut i: usize = 0;
    while i < n
        invariant
            n == transitions@.len(),
            i <= n,
            forall|j: int|
                0 <= j < i ==> (#[trigger] transitions@[j]).transition_type
                    == TransitionType::Cut,
        decreases n - i,
    {
        if !matches!(transitions[i].transition_type, TransitionType::Cut) {
            return false;
        }
        i = i + 1;
    }
    true
}

/// The encoder's name for each transition effect; a cut never reaches the
/// cross-fade path, so its name only stands in for completeness.
pub open spec fn xfade_name_spec(t: TransitionType) -> Seq<char> {
    match t {
        TransitionType::Fade => "fade"@,
        TransitionType::FadeBlack => "fadeblack"@,
        TransitionType::FadeWhite => "fadewhite"@,
        TransitionType::Dissolve => "dissolve"@,
        TransitionType::Zoom => "zoomin"@,
        TransitionType::Slide => "slideleft"@,
        TransitionType::SlideRight => "slideright"@,
        TransitionType::SlideUp => "slideup"@,
        TransitionType::SlideDown => "slidedown"@,
        TransitionType::WipeLeft => "wipeleft"@,
        TransitionType::WipeRight => "wiperight"@,
        TransitionType::WipeUp => "wipeup"@,
        TransitionType::WipeDown => "wipedown"@,
        TransitionType::Pixelize => "pixelize"@,
        TransitionType::CircleOpen => "circleopen"@,
        TransitionType::CircleClose => "circleclose"@,
        TransitionType::Radial => "radial"@,
        TransitionType::SmoothLeft => "smoothleft"@,
        TransitionType::SmoothRight => "smoothright"@,
        TransitionType::Cut => "fade"@,
    }
}

/// Map a transition type to the encoder's effect name.
pub fn xfade_name(t: &TransitionType) -> (r: String)
    ensures
        r@ == xfade_name_spec(*t),
{
    match t {
        TransitionType::Fade => "fade".to_owned(),
        TransitionType::FadeBlack => "fadeblack".to_owned(),
        TransitionType::FadeWhite => "fadewhite".to_owned(),
        TransitionType::Dissolve => "dissolve".to_owned(),
        TransitionType::Zoom => "zoomin".to_owned(),
        TransitionType::Slide => "slideleft".to_owned(),
        TransitionType::SlideRight => "slideright".to_owned(),
        TransitionType::SlideUp => "slideup".to_owned(),
        TransitionType::SlideDown => "slidedown".to_owned(),
        TransitionType::WipeLeft => "wipeleft".to_owned(),
        TransitionType::WipeRight => "wiperight".to_owned(),
        TransitionType::WipeUp => "wipeup".to_owned(),
        TransitionType::WipeDown => "wipedown".to_owned(),
        TransitionType::Pixelize => "pixelize".to_owned(),
        TransitionType::CircleOpen => "circleopen".to_owned(),
        TransitionType::CircleClose => "circleclose".to_owned(),
        TransitionType::Radial => "radial".to_owned(),
        TransitionType::SmoothLeft => "smoothleft".to_owned(),
        TransitionType::SmoothRight => "smoothright".to_owned(),
        TransitionType::Cut => "fade".to_owned(),
    }
}

/// The transition placed after clip `i`: the stored one, or a fade where
/// the list is short.
pub open spec fn transition_type_at(ts: Seq<Transition>, i: int) -> TransitionType {
    if 0 <= i < ts.len() {
        ts[i].transition_type
    } else {
        TransitionType::Fade
    }
}

/// Whether the transition after clip `i` is a cut.
pub open spec fn cut_at(ts: Seq<Transition>, i: int) -> bool {
    transition_type_at(ts, i) == TransitionType::Cut
}

/// The start offset of clip `i` in the cross-fade chain: each earlier
/// clip contributes its effective duration, less one transition duration
/// when it ends in a cross-fade (the fade overlaps the next clip).
pub open spec fn xfade_offset_spec(eff: Seq<u64>, ts: Seq<Transition>, i: int) -> int
    decreases i,
{
    if i <= 0 {
        0
    } else {
        xfade_offset_spec(eff, ts, i - 1) + if cut_at(ts, i - 1) {
            eff[i - 1] as int
        } else {
            eff[i - 1] as int - TRANSITION_DURATION_MS as int
        }
    }
}

/// Every effective duration within the planner's bounds.
pub open spec fn durations_bounded(eff: Seq<u64>) -> bool {
    &&& eff.len() <= MAX_CLIPS
    &&& forall|i: int| 0 <= i < eff.len() ==> 100 <= (#[trigger] eff[i]) <= MAX_TIME_MS
}

/// Cross-fade offsets stay within 64-bit range while durations are
/// bounded.
pub proof fn lemma_xfade_offset_bounds(eff: Seq<u64>, ts: Seq<Transition>, i: int)
    requires
        durations_bounded(eff),
        0 <= i <= eff.len(),
    ensures
        -(TRANSITION_DURATION_MS as int) * i <= xfade_offset_spec(eff, ts, i) <= (
        MAX_TIME_MS as int) * i,
    decreases i,
{
    if i > 0 {
        lemma_xfade_offset_bounds(eff, ts, i - 1);
        assert((MAX_TIME_MS as int) * (i - 1) + MAX_TIME_MS as int == (MAX_TIME_MS as int) * i)
            by (nonlinear_arith);
        assert(-(TRANSITION_DURATION_MS as int) * (i - 1) - TRANSITION_DURATION_MS as int == -(
        TRANSITION_DURATION_MS as int) * i) by (nonlinear_arith);
    }
}

/// The start offsets of all clips in the cross-fade chain. The cross-fade
/// after clip `i` is placed at the offset of clip `i + 1`.
pub fn transition_offsets(eff_durations: &Vec<u64>, transitions: &Vec<Transition>) -> (r: Vec<
    i64,
>)
    requires
        durations_bounded(eff_durations@),
    ensures
        r@.len() == eff_durations@.len() + 1,
        forall|i: int|
            0 <= i < r@.len() ==> (#[trigger] r@[i]) == xfade_offset_spec(
                eff_durations@,
                transitions@,
                i,
            ),
{
    let n = eff_durations.len();
    let mut r: Vec<i64> = Vec::new();
    let mut acc: i64 = 0;
    r.push(0);
    let mut i: usize = 0;
    while i < n
        invariant
            n == eff_durations@.len(),
            durations_bounded(eff_durations@),
            i <= n,
            r@.len() == i + 1,
            acc == xfade_offset_spec(eff_durations@, transitions@, i as int),
            forall|j: int|
                0 <= j < r@.len() ==> (#[trigger] r@[j]) == xfade_offset_spec(
                    eff_durations@,
                    transitions@,
                    j,
                ),
        decreases n - i,
    {
        proof {
            lemma_xfade_offset_bounds(eff_durations@, transitions@, i as int);
            lemma_xfade_offset_bounds(eff_durations@, transitions@, i + 1);
        }
        let is_cut = if i < transitions.len() {
            matches!(transitions[i].transition_type, TransitionType::Cut)
        } else {
            false
        };
        if is_cut {
            acc = acc + eff_durations[i] as i64;
        } else {
            acc = acc + eff_durations[i] as i64 - TRANSITION_DURATION_MS as i64;
        }
        r.push(acc);
        i = i + 1;
    }
    r
}

/// The total play time of the composed timeline: the sum of effective
/// durations, less one transition duration per cross-fade.
pub open spec fn timeline_duration_spec(eff: Seq<u64>, ts: Seq<Transition>) -> int {
    xfade_offset_spec(eff, ts, eff.len() as int - 1) + if eff.len() > 0 {
        eff[eff.len() - 1] as int
    } else {
        0
    }
}

/// Compute the composed timeline's duration in ms. Only the transitions
/// between clips count, so the last clip always contributes whole.
pub fn timeline_duration_ms(eff_durations: &Vec<u64>, transitions: &Vec<Transition>) -> (r: i64)
    requires
        durations_bounded(eff_durations@),
        transitions@.len() == eff_durations@.len() - 1 || eff_durations@.len() == 0,
    ensures
        r == timeline_duration_spec(eff_durations@, transitions@),
{
    let n = eff_durations.len();
    if n == 0 {
        return 0;
    }
    let offsets = transition_offsets(eff_durations, transitions);
    proof {
        lemma_xfade_offset_bounds(eff_durations@, transitions@, n as int - 1);
    }
    offsets[n - 1] + eff_durations[n - 1] as i64
}


// ─── association lists keyed by clip id ───

/// The value stored under `key`, searching from the front.
pub open spec fn assoc_entry<T>(map: Seq<(String, Vec<T>)>, key: Seq<char>) -> Option<Seq<T>>
    decreases map.len(),
{
    if map.len() == 0 {
        Option::None
    } else if map[0].0@ == key {
        Option::Some(map[0].1@)
    } else {
        assoc_entry(map.drop_first(), key)
    }
}

proof fn lemma_assoc_entry_skip<T>(map: Seq<(String, Vec<T>)>, key: Seq<char>, i: int)
    requires
        0 <= i <= map.len(),
        forall|j: int| 0 <= j < i ==> (#[trigger] map[j]).0@ != key,
    ensures
        assoc_entry(map, key) == assoc_entry(map.skip(i), key),
    decreases i,
{
    if i > 0 {
        lemma_assoc_entry_skip(map.drop_first(), key, i - 1);
        assert(map.drop_first().skip(i - 1) =~= map.skip(i));
    } else {
        assert(map.skip(0) =~= map);
    }
}

/// Look a clip's side data up by clip id.
pub fn assoc_get<'a, T>(map: &'a Vec<(String, Vec<T>)>, key: &String) -> (r: Option<&'a Vec<T>>)
    ensures
        match r {
            Option::Some(v) => assoc_entry(map@, key@) == Option::Some(v@),
            Option::None => assoc_entry(map@, key@) is None,
        },
{
    let n = map.len();
    let mut i: usize = 0;
    while i < n
        invariant
            n == map@.len(),
            i <= n,
            forall|j: int| 0 <= j < i ==> (#[trigger] map@[j]).0@ != key@,
        decreases n - i,
    {
        if map[i].0 == *key {
            proof {
                lemma_assoc_entry_skip(map@, key@, i as int);
                assert(map@.skip(i as int)[0] == map@[i as int]);
            }
            return Option::Some(&map[i].1);
        }
        i = i + 1;
    }
    proof {
        lemma_assoc_entry_skip(map@, key@, n as int);
        assert(map@.skip(n as int).len() == 0);
    }
    Option::None
}

// ─── per-clip chain ───

/// The trim stage of a clip's chain: cut the window out and reset the
/// presentation clock; absent while the clip is untrimmed.
pub open spec fn trim_part_seq(clip: Clip) -> Seq<char> {
    if clip.trim_start_ms > 0 && clip.trim_end_ms > 0 {
        "trim=start="@ + ms_seq(clip.trim_start_ms as int) + ":end="@ + ms_seq(
            clip.trim_end_ms as int,
        ) + ",setpts=PTS-STARTPTS,"@
    } else if clip.trim_start_ms > 0 {
        "trim=start="@ + ms_seq(clip.trim_start_ms as int) + ",setpts=PTS-STARTPTS,"@
    } else if clip.trim_end_ms > 0 {
        "trim=end="@ + ms_seq(clip.trim_end_ms as int) + ",setpts=PTS-STARTPTS,"@
    } else {
        Seq::<char>::empty()
    }
}

/// The geometry stage: scale down into the timeline frame, pad centered
/// to exactly that frame, square pixels, fixed frame rate.
pub open spec fn scale_part_seq(w: u32, h: u32) -> Seq<char> {
    "scale="@ + dec_seq(w as int) + ":"@ + dec_seq(h as int)
        + ":force_original_aspect_ratio=decrease,pad="@ + dec_seq(w as int) + ":"@ + dec_seq(
        h as int,
    ) + ":(ow-iw)/2:(oh-ih)/2,setsar=1,fps=30"@
}

/// Extra stages appended to a chain, each preceded by a comma.
pub open spec fn extras_seq(fs: Seq<Seq<char>>, upto: int) -> Seq<char>
    decreases upto,
{
    if upto <= 0 {
        Seq::<char>::empty()
    } else {
        extras_seq(fs, upto - 1) + ","@ + fs[upto - 1]
    }
}

/// The annotation stages of a clip: the draw instructions of its
/// annotation list, or none when it has no list.
pub open spec fn ann_stage_seqs(anns: Option<Seq<Annotation>>, w: u32, h: u32) -> Seq<Seq<char>> {
    match anns {
        Option::Some(a) => crate::filters::annotations_filter_seqs(a, w, h, a.len() as int),
        Option::None => Seq::<Seq<char>>::empty(),
    }
}

/// One clip's whole chain: input label, trim, geometry, optional pan,
/// annotation draws, output label `[s<i>]`.
pub open spec fn clip_chain_seq(
    i: int,
    clip: Clip,
    w: u32,
    h: u32,
    zoom: Option<Seq<char>>,
    anns: Option<Seq<Annotation>>,
) -> Seq<char> {
    "["@ + dec_seq(i) + ":v]"@ + trim_part_seq(clip) + scale_part_seq(w, h) + (match zoom {
        Option::Some(z) => ","@ + z,
        Option::None => Seq::<char>::empty(),
    }) + extras_seq(ann_stage_seqs(anns, w, h), ann_stage_seqs(anns, w, h).len() as int) + "[s"@
        + dec_seq(i) + "]"@
}

/// Whether a clip's samples turn its pan on: it has samples, they moved
/// enough, and some survive the trim.
pub open spec fn zoom_on_spec(cursor: Option<Seq<CursorPosition>>, trim_start_ms: u64) -> bool {
    match cursor {
        Option::Some(ps) => crate::cursor::cursor_moved_spec(ps) && crate::cursor::any_kept_spec(
            ps,
            trim_start_ms,
        ),
        Option::None => false,
    }
}

/// The view of an optional borrowed sample list.
pub open spec fn cursor_view(cursor: Option<&Vec<CursorPosition>>) -> Option<Seq<CursorPosition>> {
    match cursor {
        Option::Some(ps) => Option::Some(ps@),
        Option::None => Option::None,
    }
}

/// The view of an optional borrowed annotation list.
pub open spec fn ann_view(anns: Option<&Vec<Annotation>>) -> Option<Seq<Annotation>> {
    match anns {
        Option::Some(a) => Option::Some(a@),
        Option::None => Option::None,
    }
}

/// Build the chain of clip `i`: trim, then scale and pad into the
/// timeline frame, then the cursor pan when the clip's samples call for
/// one, then its annotation draws. The pan stage is present exactly when
/// `zoom_on_spec` holds of the samples.
#[verifier::rlimit(60)]
pub fn build_clip_chain(
    i: usize,
    clip: &Clip,
    max_w: u32,
    max_h: u32,
    cursor_positions: Option<&Vec<CursorPosition>>,
    annotations: Option<&Vec<Annotation>>,
) -> (r: String)
    ensures
        exists|zoom: Option<Seq<char>>|
            (zoom is Some <==> zoom_on_spec(cursor_view(cursor_positions), clip.trim_start_ms))
                && r@ == #[trigger] clip_chain_seq(
                i as int,
                *clip,
                max_w,
                max_h,
                zoom,
                ann_view(annotations),
            ),
{
    let has_trim = clip.trim_start_ms > 0 || clip.trim_end_ms > 0;
    let trim_part: String = if clip.trim_start_ms > 0 && clip.trim_end_ms > 0 {
        let t = "trim=start="
            .to_owned()
            .concat(ms_string(clip.trim_start_ms).as_str())
            .concat(":end=")
            .concat(ms_string(clip.trim_end_ms).as_str())
            .concat(",setpts=PTS-STARTPTS,");
        proof {
            assert(t@ =~= trim_part_seq(*clip));
        }
        t
    } else if clip.trim_start_ms > 0 {
        let t = "trim=start=".to_owned().concat(ms_string(clip.trim_start_ms).as_str()).concat(
            ",setpts=PTS-STARTPTS,",
        );
        proof {
            assert(t@ =~= trim_part_seq(*clip));
        }
        t
    } else if clip.trim_end_ms > 0 {
        let t = "trim=end=".to_owned().concat(ms_string(clip.trim_end_ms).as_str()).concat(
            ",setpts=PTS-STARTPTS,",
        );
        proof {
            assert(t@ =~= trim_part_seq(*clip));
        }
        t
    } else {
        let t = String::new();
        proof {
            assert(t@ =~= trim_part_seq(*clip));
        }
        t
    };

    let mut chain = "["
        .to_owned()
        .concat(usize_string(i).as_str())
        .concat(":v]")
        .concat(trim_part.as_str())
        .concat("scale=")
        .concat(u64_string(max_w as u64).as_str())
        .concat(":")
        .concat(u64_string(max_h as u64).as_str())
        .concat(":force_original_aspect_ratio=decrease,pad=")
        .concat(u64_string(max_w as u64).as_str())
        .concat(":")
        .concat(u64_string(max_h as u64).as_str())
        .concat(":(ow-iw)/2:(oh-ih)/2,setsar=1,fps=30");
    proof {
        assert(chain@ =~= "["@ + dec_seq(i as int) + ":v]"@ + trim_part_seq(*clip)
            + scale_part_seq(max_w, max_h));
    }

    let ghost mut zoom_view: Option<Seq<char>> = Option::None;
    if let Option::Some(positions) = cursor_positions {
        if let Option::Some(zoom_filter) = crate::cursor::build_cursor_zoom_filter(
            positions,
            clip.trim_start_ms,
            max_w,
            max_h,
        ) {
            chain.append(",");
            chain.append(zoom_filter.as_str());
            proof {
                zoom_view = Option::Some(zoom_filter@);
            }
        }
    }
    proof {
        assert(zoom_view is Some <==> zoom_on_spec(
            cursor_view(cursor_positions),
            clip.trim_start_ms,
        ));
    }

    let ghost stages = ann_stage_seqs(ann_view(annotations), max_w, max_h);
    if let Option::Some(anns) = annotations {
        let fs = crate::filters::build_annotation_draw_filters(anns, max_w, max_h);
        let m = fs.len();
        let mut k: usize = 0;
        while k < m
            invariant
                m == fs@.len(),
                m == stages.len(),
                k <= m,
                forall|j: int| 0 <= j < m ==> (#[trigger] fs@[j])@ == stages[j],
                chain@ == "["@ + dec_seq(i as int) + ":v]"@ + trim_part_seq(*clip)
                    + scale_part_seq(max_w, max_h) + (match zoom_view {
                    Option::Some(z) => ","@ + z,
                    Option::None => Seq::<char>::empty(),
                }) + extras_seq(stages, k as int),
            decreases m - k,
        {
            chain.append(",");
            chain.append(fs[k].as_str());
            k = k + 1;
        }
    }

    chain.append("[s");
    chain.append(usize_string(i).as_str());
    chain.append("]");
    proof {
        assert(chain@ =~= clip_chain_seq(
            i as int,
            *clip,
            max_w,
            max_h,
            zoom_view,
            ann_view(annotations),
        ));
    }
    chain
}


// ─── cross-clip composition ───

/// The chain of clip `j` within a timeline, its pan taken from `zooms`
/// and its annotations looked up by clip id.
pub open spec fn chain_at_seq(
    clips: Seq<Clip>,
    w: u32,
    h: u32,
    anns_map: Seq<(String, Vec<Annotation>)>,
    zooms: Seq<Option<Seq<char>>>,
    j: int,
) -> Seq<char> {
    clip_chain_seq(j, clips[j], w, h, zooms[j], assoc_entry(anns_map, clips[j].id@))
}

/// The first `upto` clip chains, joined by `;`.
pub open spec fn chains_join_seq(
    clips: Seq<Clip>,
    w: u32,
    h: u32,
    anns_map: Seq<(String, Vec<Annotation>)>,
    zooms: Seq<Option<Seq<char>>>,
    upto: int,
) -> Seq<char>
    decreases upto,
{
    if upto <= 0 {
        Seq::<char>::empty()
    } else if upto == 1 {
        chain_at_seq(clips, w, h, anns_map, zooms, 0)
    } else {
        chains_join_seq(clips, w, h, anns_map, zooms, upto - 1) + ";"@ + chain_at_seq(
            clips,
            w,
            h,
            anns_map,
            zooms,
            upto - 1,
        )
    }
}

/// The joined chains only read the pans of the clips they cover.
pub proof fn lemma_chains_join_prefix(
    clips: Seq<Clip>,
    w: u32,
    h: u32,
    anns_map: Seq<(String, Vec<Annotation>)>,
    zooms1: Seq<Option<Seq<char>>>,
    zooms2: Seq<Option<Seq<char>>>,
    upto: int,
)
    requires
        forall|j: int| 0 <= j < upto ==> zooms1[j] == zooms2[j],
    ensures
        chains_join_seq(clips, w, h, anns_map, zooms1, upto) == chains_join_seq(
            clips,
            w,
            h,
            anns_map,
            zooms2,
            upto,
        ),
    decreases upto,
{
    if upto > 1 {
        lemma_chains_join_prefix(clips, w, h, anns_map, zooms1, zooms2, upto - 1);
    }
}

/// The label the composition reads its `i`-th left input from: the first
/// clip's chain output, then the previous composition step's output.
pub open spec fn prev_label_seq(i: int) -> Seq<char> {
    if i == 0 {
        "[s0]"@
    } else {
        "[v"@ + dec_seq(i - 1) + "]"@
    }
}

/// The composition step after clip `i`, with its cross-fade offset given:
/// a two-way concatenation for a cut, else a cross-fade at that offset.
pub open spec fn transition_part_with(ts: Seq<Transition>, i: int, offset_ms: int) -> Seq<char> {
    let head = prev_label_seq(i) + "[s"@ + dec_seq(i + 1) + "]"@;
    let tail = "[v"@ + dec_seq(i) + "]"@;
    if cut_at(ts, i) {
        head + "concat=n=2:v=1:a=0"@ + tail
    } else {
        head + "xfade=transition="@ + xfade_name_spec(transition_type_at(ts, i))
            + ":duration=0.5:offset="@ + ms_seq(offset_ms) + tail
    }
}

/// The composition step after clip `i`: a two-way concatenation for a
/// cut, else a cross-fade at the running offset of clip `i + 1`.
pub open spec fn transition_part_seq(eff: Seq<u64>, ts: Seq<Transition>, i: int) -> Seq<char> {
    transition_part_with(ts, i, xfade_offset_spec(eff, ts, i + 1))
}

fn transition_part_string(transitions: &Vec<Transition>, k: usize, offset_ms: i64) -> (p: String)
    requires
        k < usize::MAX,
    ensures
        p@ == transition_part_with(transitions@, k as int, offset_ms as int),
{
    let prev_label: String = if k == 0 {
        "[s0]".to_owned()
    } else {
        let p = "[v".to_owned().concat(usize_string(k - 1).as_str()).concat("]");
        proof {
            assert(p@ =~= prev_label_seq(k as int));
        }
        p
    };
    let is_cut = if k < transitions.len() {
        matches!(transitions[k].transition_type, TransitionType::Cut)
    } else {
        false
    };
    if is_cut {
        let p = prev_label
            .concat("[s")
            .concat(usize_string(k + 1).as_str())
            .concat("]")
            .concat("concat=n=2:v=1:a=0")
            .concat("[v")
            .concat(usize_string(k).as_str())
            .concat("]");
        proof {
            assert(p@ =~= transition_part_with(transitions@, k as int, offset_ms as int));
        }
        p
    } else {
        let tt = if k < transitions.len() {
            transitions[k].transition_type
        } else {
            TransitionType::Fade
        };
        let p = prev_label
            .concat("[s")
            .concat(usize_string(k + 1).as_str())
            .concat("]")
            .concat("xfade=transition=")
            .concat(xfade_name(&tt).as_str())
            .concat(":duration=0.5:offset=")
            .concat(crate::numfmt::ms_i64_string(offset_ms).as_str())
            .concat("[v")
            .concat(usize_string(k).as_str())
            .concat("]");
        proof {
            assert(tt == transition_type_at(transitions@, k as int));
            assert(p@ =~= transition_part_with(transitions@, k as int, offset_ms as int));
        }
        p
    }
}

/// The first `upto` composition steps, each preceded by `;`.
pub open spec fn trans_join_seq(eff: Seq<u64>, ts: Seq<Transition>, upto: int) -> Seq<char>
    decreases upto,
{
    if upto <= 0 {
        Seq::<char>::empty()
    } else {
        trans_join_seq(eff, ts, upto - 1) + ";"@ + transition_part_seq(eff, ts, upto - 1)
    }
}

/// The whole filter description of a multi-clip timeline: every clip's
/// chain, then the chain of composition steps.
pub open spec fn filter_complex_seq(
    clips: Seq<Clip>,
    eff: Seq<u64>,
    ts: Seq<Transition>,
    w: u32,
    h: u32,
    anns_map: Seq<(String, Vec<Annotation>)>,
    zooms: Seq<Option<Seq<char>>>,
) -> Seq<char> {
    chains_join_seq(clips, w, h, anns_map, zooms, clips.len() as int) + trans_join_seq(
        eff,
        ts,
        clips.len() as int - 1,
    )
}

/// Whether clip `j`'s pan is on, judged from the stored samples.
pub open spec fn clip_zoom_on_spec(
    clips: Seq<Clip>,
    cursors_map: Seq<(String, Vec<CursorPosition>)>,
    j: int,
) -> bool {
    zoom_on_spec(assoc_entry(cursors_map, clips[j].id@), clips[j].trim_start_ms)
}

/// Build the whole filter description of a multi-clip timeline: per-clip
/// trim, geometry, pan and annotation chains, composed pairwise by cuts
/// and cross-fades. The pan stage of each clip is present exactly when
/// its stored samples call for one.
#[verifier::rlimit(60)]
pub fn build_filter_complex_with_trim(
    clips: &Vec<Clip>,
    eff_durations: &Vec<u64>,
    transitions: &Vec<Transition>,
    max_w: u32,
    max_h: u32,
    clip_annotations: &Vec<(String, Vec<Annotation>)>,
    clip_cursor_positions: &Vec<(String, Vec<CursorPosition>)>,
) -> (r: String)
    requires
        clips@.len() >= 1,
        eff_durations@.len() == clips@.len(),
        durations_bounded(eff_durations@),
    ensures
        exists|zooms: Seq<Option<Seq<char>>>|
            zooms.len() == clips@.len() && (forall|j: int|
                0 <= j < clips@.len() ==> ((#[trigger] zooms[j]) is Some <==> clip_zoom_on_spec(
                    clips@,
                    clip_cursor_positions@,
                    j,
                ))) && r@ == #[trigger] filter_complex_seq(
                clips@,
                eff_durations@,
                transitions@,
                max_w,
                max_h,
                clip_annotations@,
                zooms,
            ),
{
    let n = clips.len();
    let mut filter = String::new();
    let ghost mut zooms: Seq<Option<Seq<char>>> = Seq::empty();

    let mut i: usize = 0;
    while i < n
        invariant
            n == clips@.len(),
            n >= 1,
            eff_durations@.len() == n,
            durations_bounded(eff_durations@),
            i <= n,
            zooms.len() == i,
            forall|j: int|
                0 <= j < i ==> ((#[trigger] zooms[j]) is Some <==> clip_zoom_on_spec(
                    clips@,
                    clip_cursor_positions@,
                    j,
                )),
            filter@ == chains_join_seq(
                clips@,
                max_w,
                max_h,
                clip_annotations@,
                zooms,
                i as int,
            ),
        decreases n - i,
    {
        let clip = &clips[i];
        let cursor = assoc_get(clip_cursor_positions, &clip.id);
        let anns = assoc_get(clip_annotations, &clip.id);
        let chain = build_clip_chain(i, clip, max_w, max_h, cursor, anns);
        proof {
            let z = choose|z: Option<Seq<char>>|
                (z is Some <==> zoom_on_spec(cursor_view(cursor), clip.trim_start_ms)) && chain@
                    == #[trigger] clip_chain_seq(
                    i as int,
                    *clip,
                    max_w,
                    max_h,
                    z,
                    ann_view(anns),
                );
            let prev = zooms;
            zooms = zooms.push(z);
            lemma_chains_join_prefix(
                clips@,
                max_w,
                max_h,
                clip_annotations@,
                prev,
                zooms,
                i as int,
            );
            assert(ann_view(anns) == assoc_entry(clip_annotations@, clips@[i as int].id@));
            assert(chain@ == chain_at_seq(
                clips@,
                max_w,
                max_h,
                clip_annotations@,
                zooms,
                i as int,
            ));
        }
        if i > 0 {
            filter.append(";");
        }
        filter.append(chain.as_str());
        i = i + 1;
    }

    let offsets = transition_offsets(eff_durations, transitions);
    let mut k: usize = 0;
    while k < n - 1
        invariant
            n == clips@.len(),
            n >= 1,
            eff_durations@.len() == n,
            durations_bounded(eff_durations@),
            k <= n - 1,
            offsets@.len() == n + 1,
            forall|j: int|
                0 <= j < offsets@.len() ==> (#[trigger] offsets@[j]) == xfade_offset_spec(
                    eff_durations@,
                    transitions@,
                    j,
                ),
            zooms.len() == n,
            forall|j: int|
                0 <= j < n ==> ((#[trigger] zooms[j]) is Some <==> clip_zoom_on_spec(
                    clips@,
                    clip_cursor_positions@,
                    j,
                )),
            filter@ == chains_join_seq(clips@, max_w, max_h, clip_annotations@, zooms, n as int)
                + trans_join_seq(eff_durations@, transitions@, k as int),
        decreases n - 1 - k,
    {
        let part = transition_part_string(transitions, k, offsets[k + 1]);
        proof {
            assert(part@ == transition_part_seq(eff_durations@, transitions@, k as int));
        }
        filter.append(";");
        filter.append(part.as_str());
        k = k + 1;
    }
    proof {
        assert(filter@ == filter_complex_seq(
            clips@,
            eff_durations@,
            transitions@,
            max_w,
            max_h,
            clip_annotations@,
            zooms,
        ));
    }
    filter
}


// ─── audio composition ───

/// The labels of the per-clip audio results, `[a0][a1]...`, over the
/// first `upto` clips.
pub open spec fn audio_labels_seq(upto: int) -> Seq<char>
    decreases upto,
{
    if upto <= 0 {
        Seq::<char>::empty()
    } else {
        audio_labels_seq(upto - 1) + "[a"@ + dec_seq(upto - 1) + "]"@
    }
}

/// The labels of the per-clip chain outputs, `[s0][s1]...`, over the
/// first `upto` clips.
pub open spec fn chain_labels_seq(upto: int) -> Seq<char>
    decreases upto,
{
    if upto <= 0 {
        Seq::<char>::empty()
    } else {
        chain_labels_seq(upto - 1) + "[s"@ + dec_seq(upto - 1) + "]"@
    }
}

/// The input labels of a mix, `[3:a][4:a]...`, over the first `upto`
/// input indices.
pub open spec fn mix_inputs_seq(indices: Seq<usize>, upto: int) -> Seq<char>
    decreases upto,
{
    if upto <= 0 {
        Seq::<char>::empty()
    } else {
        mix_inputs_seq(indices, upto - 1) + "["@ + dec_seq(indices[upto - 1] as int) + ":a]"@
    }
}

/// The duration backing clip `ci`'s silence: its effective duration, or
/// one second where none is known.
pub open spec fn silence_duration_spec(eff: Seq<u64>, ci: int) -> int {
    if 0 <= ci < eff.len() {
        eff[ci] as int
    } else {
        1000
    }
}

/// One clip's audio stage: synthesized silence when it has no track (to
/// keep the timeline aligned), a pass-through for one track, an
/// equal-priority mix bounded to the first input for several.
pub open spec fn audio_part_seq(indices: Seq<usize>, eff: Seq<u64>, ci: int) -> Seq<char> {
    if indices.len() == 0 {
        "anullsrc=channel_layout=stereo:sample_rate=44100,atrim=duration="@ + ms_seq(
            silence_duration_spec(eff, ci),
        ) + "[a"@ + dec_seq(ci) + "]"@
    } else if indices.len() == 1 {
        "["@ + dec_seq(indices[0] as int) + ":a]anull[a"@ + dec_seq(ci) + "]"@
    } else {
        mix_inputs_seq(indices, indices.len() as int) + "amix=inputs="@ + dec_seq(
            indices.len() as int,
        ) + ":duration=first[a"@ + dec_seq(ci) + "]"@
    }
}

/// The per-clip audio input indices of an input map.
pub open spec fn indices_of(map: Seq<(usize, Vec<usize>)>) -> Seq<Seq<usize>> {
    map.map_values(|e: (usize, Vec<usize>)| e.1@)
}

/// The first `upto` audio stages, joined by `;`.
pub open spec fn audio_parts_join_seq(
    idxs: Seq<Seq<usize>>,
    eff: Seq<u64>,
    upto: int,
) -> Seq<char>
    decreases upto,
{
    if upto <= 0 {
        Seq::<char>::empty()
    } else if upto == 1 {
        audio_part_seq(idxs[0], eff, 0)
    } else {
        audio_parts_join_seq(idxs, eff, upto - 1) + ";"@ + audio_part_seq(
            idxs[upto - 1],
            eff,
            upto - 1,
        )
    }
}

/// Whether any clip contributes a real audio track.
pub open spec fn any_audio_spec(idxs: Seq<Seq<usize>>) -> bool {
    exists|i: int| 0 <= i < idxs.len() && (#[trigger] idxs[i]).len() > 0
}

/// The whole audio filter: every clip's stage, then one concatenation
/// into `[aout]`; empty when no clip has a track.
pub open spec fn audio_filter_seq(idxs: Seq<Seq<usize>>, eff: Seq<u64>) -> Seq<char> {
    if any_audio_spec(idxs) {
        audio_parts_join_seq(idxs, eff, idxs.len() as int) + ";"@ + audio_labels_seq(
            idxs.len() as int,
        ) + "concat=n="@ + dec_seq(idxs.len() as int) + ":v=0:a=1[aout]"@
    } else {
        Seq::<char>::empty()
    }
}

fn mix_inputs_string(indices: &Vec<usize>) -> (r: String)
    ensures
        r@ == mix_inputs_seq(indices@, indices@.len() as int),
{
    let mut r = String::new();
    let m = indices.len();
    let mut k: usize = 0;
    while k < m
        invariant
            m == indices@.len(),
            k <= m,
            r@ == mix_inputs_seq(indices@, k as int),
        decreases m - k,
    {
        r.append("[");
        r.append(usize_string(indices[k]).as_str());
        r.append(":a]");
        proof {
            assert(r@ =~= mix_inputs_seq(indices@, k + 1 as int));
        }
        k = k + 1;
    }
    r
}

fn audio_part_string(indices: &Vec<usize>, eff_durations: &Vec<u64>, ci: usize) -> (r: String)
    ensures
        r@ == audio_part_seq(indices@, eff_durations@, ci as int),
{
    if indices.len() == 0 {
        let dur: u64 = if ci < eff_durations.len() {
            eff_durations[ci]
        } else {
            1000
        };
        let r = "anullsrc=channel_layout=stereo:sample_rate=44100,atrim=duration="
            .to_owned()
            .concat(ms_string(dur).as_str())
            .concat("[a")
            .concat(usize_string(ci).as_str())
            .concat("]");
        proof {
            assert(r@ =~= audio_part_seq(indices@, eff_durations@, ci as int));
        }
        r
    } else if indices.len() == 1 {
        let r = "["
            .to_owned()
            .concat(usize_string(indices[0]).as_str())
            .concat(":a]anull[a")
            .concat(usize_string(ci).as_str())
            .concat("]");
        proof {
            assert(r@ =~= audio_part_seq(indices@, eff_durations@, ci as int));
        }
        r
    } else {
        let r = mix_inputs_string(indices)
            .concat("amix=inputs=")
            .concat(usize_string(indices.len()).as_str())
            .concat(":duration=first[a")
            .concat(usize_string(ci).as_str())
            .concat("]");
        proof {
            assert(r@ =~= audio_part_seq(indices@, eff_durations@, ci as int));
        }
        r
    }
}

/// Build the audio side of the graph from the per-clip encoder input
/// indices: silence for clips without tracks, a mix for clips with
/// several, one concatenation of all per-clip results into `[aout]`.
/// Empty when no clip has a track.
pub fn build_audio_concat_filter(
    audio_input_map: &Vec<(usize, Vec<usize>)>,
    eff_durations: &Vec<u64>,
) -> (r: String)
    ensures
        r@ == audio_filter_seq(indices_of(audio_input_map@), eff_durations@),
{
    let n = audio_input_map.len();
    let mut has_any = false;
    let mut parts = String::new();
    let mut i: usize = 0;
    while i < n
        invariant
            n == audio_input_map@.len(),
            i <= n,
            has_any == exists|j: int|
                0 <= j < i && (#[trigger] indices_of(audio_input_map@)[j]).len() > 0,
            parts@ == audio_parts_join_seq(indices_of(audio_input_map@), eff_durations@, i as int),
        decreases n - i,
    {
        let part = audio_part_string(&audio_input_map[i].1, eff_durations, i);
        proof {
            assert(indices_of(audio_input_map@)[i as int] == audio_input_map@[i as int].1@);
        }
        if audio_input_map[i].1.len() > 0 {
            has_any = true;
        }
        if i > 0 {
            parts.append(";");
        }
        parts.append(part.as_str());
        i = i + 1;
    }
    if !has_any {
        proof {
            assert(!any_audio_spec(indices_of(audio_input_map@)));
        }
        return String::new();
    }
    proof {
        assert(any_audio_spec(indices_of(audio_input_map@)));
    }
    let mut labels = String::new();
    let mut k: usize = 0;
    while k < n
        invariant
            k <= n,
            labels@ == audio_labels_seq(k as int),
        decreases n - k,
    {
        labels.append("[a");
        labels.append(usize_string(k).as_str());
        labels.append("]");
        proof {
            assert(labels@ =~= audio_labels_seq(k + 1 as int));
        }
        k = k + 1;
    }
    let r = parts
        .concat(";")
        .concat(labels.as_str())
        .concat("concat=n=")
        .concat(usize_string(n).as_str())
        .concat(":v=0:a=1[aout]");
    proof {
        assert(r@ =~= audio_filter_seq(indices_of(audio_input_map@), eff_durations@));
    }
    r
}

/// Build the `[s0][s1]...` label list of the first `n` chains.
pub fn chain_labels_string(n: usize) -> (r: String)
    ensures
        r@ == chain_labels_seq(n as int),
{
    let mut labels = String::new();
    let mut k: usize = 0;
    while k < n
        invariant
            k <= n,
            labels@ == chain_labels_seq(k as int),
        decreases n - k,
    {
        labels.append("[s");
        labels.append(usize_string(k).as_str());
        labels.append("]");
        proof {
            assert(labels@ =~= chain_labels_seq(k + 1 as int));
        }
        k = k + 1;
    }
    labels
}

} // verus!



