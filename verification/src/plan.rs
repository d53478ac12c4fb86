//! Export and preview planning: turn the repository's clips, transitions
//! and overlays into the encoder invocation — the full argument list and
//! the filter description — plus the timeline duration that progress is
//! measured against. The host spawns the process and streams its
//! diagnostics; everything decided here is decided over plain values.

use vstd::prelude::*;
use crate::types::{
    Annotation, Clip, CursorPosition, ExportQuality, KeystrokeEvent, Subtitle, Transition,
};
use crate::numfmt::{dec_seq, ms_seq, ms_string, u64_string, usize_string};
use crate::graph::{
    all_cuts_spec, assoc_entry, cut_at, durations_bounded, xfade_offset_spec, MAX_CLIPS,
    MAX_TIME_MS, TRANSITION_DURATION_MS,
};

verus! {

/// The views of a list of strings.
pub open spec fn views_of(v: Seq<String>) -> Seq<Seq<char>> {
    v.map_values(|s: String| s@)
}

/// Mapping to views distributes over concatenation.
pub proof fn lemma_views_of_add(a: Seq<String>, b: Seq<String>)
    ensures
        views_of(a + b) == views_of(a) + views_of(b),
{
    assert(views_of(a + b) =~= views_of(a) + views_of(b));
}

/// The watermark caption burned into the bottom-right corner.
pub open spec fn watermark_filter_seq() -> Seq<char> {
    "drawtext=text='ClipFlow':fontsize=28:fontcolor=white@0.7:shadowcolor=black@0.5:shadowx=2:shadowy=2:x=w-tw-20:y=h-th-16"@
}

/// One `-i <file>` pair per clip, in order.
pub open spec fn video_input_args_seq(clips: Seq<Clip>, upto: int) -> Seq<Seq<char>>
    decreases upto,
{
    if upto <= 0 {
        Seq::<Seq<char>>::empty()
    } else {
        video_input_args_seq(clips, upto - 1) + seq!["-i"@, clips[upto - 1].path@]
    }
}

/// Build the video input arguments.
pub fn video_input_args(clips: &Vec<Clip>) -> (r: Vec<String>)
    ensures
        views_of(r@) == video_input_args_seq(clips@, clips@.len() as int),
{
    let mut r: Vec<String> = Vec::new();
    let n = clips.len();
    let mut i: usize = 0;
    while i < n
        invariant
            n == clips@.len(),
            i <= n,
            views_of(r@) == video_input_args_seq(clips@, i as int),
        decreases n - i,
    {
        r.push("-i".to_owned());
        r.push(clips[i].path.clone());
        proof {
            assert(views_of(r@) =~= video_input_args_seq(clips@, i + 1 as int));
        }
        i = i + 1;
    }
    r
}

// ─── audio inputs ───

/// The encoder input indices a clip's present audio files receive:
/// counted up from `start`, one per file that exists.
pub open spec fn clip_audio_indices_spec(present: Seq<bool>, start: int, upto: int) -> Seq<usize>
    decreases upto,
{
    if upto <= 0 {
        Seq::<usize>::empty()
    } else {
        let head = clip_audio_indices_spec(present, start, upto - 1);
        if present[upto - 1] {
            head.push((start + head.len()) as usize)
        } else {
            head
        }
    }
}

/// How many of a clip's audio files are present.
pub open spec fn present_count_spec(present: Seq<bool>, upto: int) -> int
    decreases upto,
{
    if upto <= 0 {
        0
    } else {
        present_count_spec(present, upto - 1) + if present[upto - 1] {
            1int
        } else {
            0int
        }
    }
}

/// The `-i <file>` pairs of one clip's present audio files.
pub open spec fn clip_audio_args_seq(
    paths: Seq<String>,
    present: Seq<bool>,
    upto: int,
) -> Seq<Seq<char>>
    decreases upto,
{
    if upto <= 0 {
        Seq::<Seq<char>>::empty()
    } else {
        clip_audio_args_seq(paths, present, upto - 1) + if present[upto - 1] {
            seq!["-i"@, paths[upto - 1]@]
        } else {
            Seq::<Seq<char>>::empty()
        }
    }
}

/// The index count matches the present count.
pub proof fn lemma_clip_audio_indices_len(present: Seq<bool>, start: int, upto: int)
    ensures
        clip_audio_indices_spec(present, start, upto).len() == present_count_spec(present, upto),
    decreases upto,
{
    if upto > 0 {
        lemma_clip_audio_indices_len(present, start, upto - 1);
    }
}

/// Build one clip's audio input arguments and the indices those inputs
/// get, the first input receiving index `start`.
fn clip_audio_inputs(paths: &Vec<String>, present: &Vec<bool>, start: usize) -> (r: (
    Vec<String>,
    Vec<usize>,
))
    requires
        present@.len() == paths@.len(),
        start + paths@.len() <= usize::MAX,
    ensures
        views_of(r.0@) == clip_audio_args_seq(paths@, present@, paths@.len() as int),
        r.1@ == clip_audio_indices_spec(present@, start as int, present@.len() as int),
        r.1@.len() == present_count_spec(present@, present@.len() as int),
        r.1@.len() <= paths@.len(),
{
    let mut args: Vec<String> = Vec::new();
    let mut indices: Vec<usize> = Vec::new();
    let n = paths.len();
    let mut j: usize = 0;
    while j < n
        invariant
            n == paths@.len(),
            present@.len() == n,
            start + n <= usize::MAX,
            j <= n,
            views_of(args@) == clip_audio_args_seq(paths@, present@, j as int),
            indices@ == clip_audio_indices_spec(present@, start as int, j as int),
            indices@.len() <= j,
        decreases n - j,
    {
        if present[j] {
            args.push("-i".to_owned());
            args.push(paths[j].clone());
            indices.push(start + indices.len());
            proof {
                assert(views_of(args@) =~= clip_audio_args_seq(paths@, present@, j + 1 as int));
            }
        } else {
            proof {
                assert(views_of(args@) =~= clip_audio_args_seq(paths@, present@, j + 1 as int));
            }
        }
        j = j + 1;
    }
    proof {
        lemma_clip_audio_indices_len(present@, start as int, n as int);
    }
    (args, indices)
}


/// All clips' audio input arguments, in clip order.
pub open spec fn audio_args_all_seq(
    clips: Seq<Clip>,
    present: Seq<Vec<bool>>,
    upto: int,
) -> Seq<Seq<char>>
    decreases upto,
{
    if upto <= 0 {
        Seq::<Seq<char>>::empty()
    } else {
        audio_args_all_seq(clips, present, upto - 1) + clip_audio_args_seq(
            clips[upto - 1].audio_paths@,
            present[upto - 1]@,
            present[upto - 1]@.len() as int,
        )
    }
}

/// The first encoder input index of clip `ci`'s audio files: the video
/// inputs, then every earlier clip's present files.
pub open spec fn audio_base_spec(
    present: Seq<Vec<bool>>,
    n_video: int,
    ci: int,
) -> int
    decreases ci,
{
    if ci <= 0 {
        n_video
    } else {
        audio_base_spec(present, n_video, ci - 1) + present_count_spec(
            present[ci - 1]@,
            present[ci - 1]@.len() as int,
        )
    }
}

/// The audio input indices of clip `ci`.
pub open spec fn audio_indices_at_spec(
    present: Seq<Vec<bool>>,
    n_video: int,
    ci: int,
) -> Seq<usize> {
    clip_audio_indices_spec(
        present[ci]@,
        audio_base_spec(present, n_video, ci),
        present[ci]@.len() as int,
    )
}

/// Present counts are not negative.
pub proof fn lemma_present_count_nonneg(present: Seq<bool>, upto: int)
    ensures
        0 <= present_count_spec(present, upto),
        present_count_spec(present, upto) <= (if upto >= 0 { upto } else { 0 }),
    decreases upto,
{
    if upto > 0 {
        lemma_present_count_nonneg(present, upto - 1);
    }
}

/// Build every clip's audio input arguments and the per-clip input index
/// map. `audio_present[i][j]` says whether the `j`-th audio file of clip
/// `i` exists on disk; only present files become inputs.
pub fn audio_inputs(clips: &Vec<Clip>, audio_present: &Vec<Vec<bool>>, n_video: usize) -> (r: (
    Vec<String>,
    Vec<(usize, Vec<usize>)>,
))
    requires
        audio_present@.len() == clips@.len(),
        forall|i: int|
            0 <= i < clips@.len() ==> (#[trigger] audio_present@[i])@.len()
                == clips@[i].audio_paths@.len(),
        clips@.len() <= MAX_CLIPS,
        forall|i: int| 0 <= i < clips@.len() ==> (#[trigger] clips@[i]).audio_paths@.len() <= 16,
        n_video <= MAX_CLIPS,
    ensures
        views_of(r.0@) == audio_args_all_seq(clips@, audio_present@, clips@.len() as int),
        r.1@.len() == clips@.len(),
        forall|i: int|
            0 <= i < clips@.len() ==> (#[trigger] r.1@[i]).0 == i && r.1@[i].1@
                == audio_indices_at_spec(audio_present@, n_video as int, i),
{
    let mut args: Vec<String> = Vec::new();
    let mut map: Vec<(usize, Vec<usize>)> = Vec::new();
    let mut next_input: usize = n_video;
    let n = clips.len();
    let mut i: usize = 0;
    while i < n
        invariant
            n == clips@.len(),
            audio_present@.len() == n,
            forall|k: int|
                0 <= k < n ==> (#[trigger] audio_present@[k])@.len()
                    == clips@[k].audio_paths@.len(),
            n <= MAX_CLIPS,
            forall|k: int| 0 <= k < n ==> (#[trigger] clips@[k]).audio_paths@.len() <= 16,
            n_video <= MAX_CLIPS,
            i <= n,
            next_input as int == audio_base_spec(audio_present@, n_video as int, i as int),
            next_input <= n_video + 16 * i,
            views_of(args@) == audio_args_all_seq(clips@, audio_present@, i as int),
            map@.len() == i,
            forall|k: int|
                0 <= k < i ==> (#[trigger] map@[k]).0 == k && map@[k].1@ == audio_indices_at_spec(
                    audio_present@,
                    n_video as int,
                    k,
                ),
        decreases n - i,
    {
        let (clip_args, indices) = clip_audio_inputs(
            &clips[i].audio_paths,
            &audio_present[i],
            next_input,
        );
        proof {
            lemma_views_of_add(args@, clip_args@);
            lemma_present_count_nonneg(audio_present@[i as int]@, audio_present@[i as int]@.len() as int);
        }
        let added = indices.len();
        let mut clip_args = clip_args;
        args.append(&mut clip_args);
        map.push((i, indices));
        next_input = next_input + added;
        i = i + 1;
    }
    (args, map)
}

// ─── overlay assembly ───

/// A clip's cumulative offset into the output timeline, before overlays:
/// in the cross-fade route each cross-fade overlaps the next clip by the
/// transition duration; in the concat route (and past the end of the
/// transition list) clips simply add up.
pub open spec fn overlay_offset_spec(
    eff: Seq<u64>,
    ts: Seq<Transition>,
    concat_route: bool,
    i: int,
) -> int
    decreases i,
{
    if i <= 0 {
        0
    } else {
        overlay_offset_spec(eff, ts, concat_route, i - 1) + (if concat_route || i - 1 >= ts.len()
            || cut_at(ts, i - 1) {
            eff[i - 1] as int
        } else {
            eff[i - 1] as int - TRANSITION_DURATION_MS as int
        })
    }
}

/// Overlay offsets stay within 64-bit range while durations are bounded.
pub proof fn lemma_overlay_offset_bounds(
    eff: Seq<u64>,
    ts: Seq<Transition>,
    concat_route: bool,
    i: int,
)
    requires
        durations_bounded(eff),
        0 <= i <= eff.len(),
    ensures
        -(TRANSITION_DURATION_MS as int) * i <= overlay_offset_spec(eff, ts, concat_route, i) <= (
        MAX_TIME_MS as int) * i,
    decreases i,
{
    if i > 0 {
        lemma_overlay_offset_bounds(eff, ts, concat_route, i - 1);
        assert((MAX_TIME_MS as int) * (i - 1) + MAX_TIME_MS as int == (MAX_TIME_MS as int) * i)
            by (nonlinear_arith);
        assert(-(TRANSITION_DURATION_MS as int) * (i - 1) - TRANSITION_DURATION_MS as int == -(
        TRANSITION_DURATION_MS as int) * i) by (nonlinear_arith);
    }
}

/// The keystroke captions of every clip, each clip's events shifted by
/// its cumulative timeline offset.
pub open spec fn keystroke_overlays_seq(
    clips: Seq<Clip>,
    eff: Seq<u64>,
    ts: Seq<Transition>,
    ks_map: Seq<(String, Vec<KeystrokeEvent>)>,
    concat_route: bool,
    upto: int,
) -> Seq<Seq<char>>
    decreases upto,
{
    if upto <= 0 {
        Seq::<Seq<char>>::empty()
    } else {
        keystroke_overlays_seq(clips, eff, ts, ks_map, concat_route, upto - 1) + (
        match assoc_entry(ks_map, clips[upto - 1].id@) {
            Option::Some(events) => crate::filters::keystroke_filters_seq(
                events,
                overlay_offset_spec(eff, ts, concat_route, upto - 1),
                clips[upto - 1].trim_start_ms as int,
                crate::filters::keystroke_used_spec(events.len() as int),
            ),
            Option::None => Seq::<Seq<char>>::empty(),
        })
    }
}

/// A found association entry is one of the list's entries.
pub proof fn lemma_assoc_entry_member<T>(map: Seq<(String, Vec<T>)>, key: Seq<char>)
    requires
        assoc_entry(map, key) is Some,
    ensures
        exists|i: int|
            0 <= i < map.len() && (#[trigger] map[i]).1@ == assoc_entry(map, key)->Some_0,
    decreases map.len(),
{
    if map.len() > 0 {
        if map[0].0@ == key {
            assert(map[0].1@ == assoc_entry(map, key)->Some_0);
        } else {
            lemma_assoc_entry_member(map.drop_first(), key);
            let i = choose|i: int|
                0 <= i < map.drop_first().len() && (#[trigger] map.drop_first()[i]).1@
                    == assoc_entry(map.drop_first(), key)->Some_0;
            assert(map[i + 1].1@ == assoc_entry(map, key)->Some_0);
        }
    }
}

/// Every event timestamp in the stored keystroke data is within the
/// planner's bounds.
pub open spec fn keystrokes_bounded(ks_map: Seq<(String, Vec<KeystrokeEvent>)>) -> bool {
    forall|i: int, j: int|
        0 <= i < ks_map.len() && 0 <= j < ks_map[i].1@.len() ==> (#[trigger] ks_map[i].1@[j]).timestamp_ms
            <= MAX_TIME_MS
}

/// Every trim bound of the clips is within the planner's bounds.
pub open spec fn trims_bounded(clips: Seq<Clip>) -> bool {
    forall|i: int|
        0 <= i < clips.len() ==> (#[trigger] clips[i]).trim_start_ms <= MAX_TIME_MS && clips[i].trim_end_ms
            <= MAX_TIME_MS
}

/// The global overlays of an export: keystroke captions, subtitle
/// captions, and the watermark when asked for.
pub open spec fn overlays_seq(
    clips: Seq<Clip>,
    eff: Seq<u64>,
    ts: Seq<Transition>,
    ks_map: Seq<(String, Vec<KeystrokeEvent>)>,
    subtitles: Seq<Subtitle>,
    watermark: bool,
    concat_route: bool,
) -> Seq<Seq<char>> {
    keystroke_overlays_seq(clips, eff, ts, ks_map, concat_route, clips.len() as int)
        + subtitles.map_values(|sub: Subtitle| crate::filters::subtitle_filter_seq(sub)) + (
    if watermark {
        seq![watermark_filter_seq()]
    } else {
        Seq::<Seq<char>>::empty()
    })
}

/// Build the global overlay filters, in drawing order.
pub fn build_overlays(
    clips: &Vec<Clip>,
    eff_durations: &Vec<u64>,
    transitions: &Vec<Transition>,
    clip_keystrokes: &Vec<(String, Vec<KeystrokeEvent>)>,
    subtitles: &Vec<Subtitle>,
    watermark: bool,
    concat_route: bool,
) -> (r: Vec<String>)
    requires
        eff_durations@.len() == clips@.len(),
        durations_bounded(eff_durations@),
        keystrokes_bounded(clip_keystrokes@),
        trims_bounded(clips@),
    ensures
        ({
            let fs = overlays_seq(
                clips@,
                eff_durations@,
                transitions@,
                clip_keystrokes@,
                subtitles@,
                watermark,
                concat_route,
            );
            r@.len() == fs.len() && forall|i: int|
                0 <= i < fs.len() ==> (#[trigger] r@[i])@ == fs[i]
        }),
{
    let mut r: Vec<String> = Vec::new();
    let n = clips.len();
    let mut i: usize = 0;
    while i < n
        invariant
            n == clips@.len(),
            eff_durations@.len() == n,
            durations_bounded(eff_durations@),
            keystrokes_bounded(clip_keystrokes@),
            trims_bounded(clips@),
            i <= n,
            ({
                let fs = keystroke_overlays_seq(
                    clips@,
                    eff_durations@,
                    transitions@,
                    clip_keystrokes@,
                    concat_route,
                    i as int,
                );
                r@.len() == fs.len() && forall|k: int|
                    0 <= k < fs.len() ==> (#[trigger] r@[k])@ == fs[k]
            }),
        decreases n - i,
    {
        let clip = &clips[i];
        proof {
            lemma_overlay_offset_bounds(
                eff_durations@,
                transitions@,
                concat_route,
                i as int,
            );
        }
        let mut offset: i64 = 0;
        let mut j: usize = 0;
        while j < i
            invariant
                n == clips@.len(),
                eff_durations@.len() == n,
                durations_bounded(eff_durations@),
                j <= i <= n,
                offset == overlay_offset_spec(eff_durations@, transitions@, concat_route, j as int),
            decreases i - j,
        {
            proof {
                lemma_overlay_offset_bounds(eff_durations@, transitions@, concat_route, j as int);
                lemma_overlay_offset_bounds(
                    eff_durations@,
                    transitions@,
                    concat_route,
                    j + 1 as int,
                );
            }
            let step_full = concat_route || j >= transitions.len() || matches!(
                transitions[j].transition_type,
                crate::types::TransitionType::Cut,
            );
            if step_full {
                offset = offset + eff_durations[j] as i64;
            } else {
                offset = offset + eff_durations[j] as i64 - TRANSITION_DURATION_MS as i64;
            }
            j = j + 1;
        }
        if let Option::Some(events) = crate::graph::assoc_get(clip_keystrokes, &clip.id) {
            proof {
                lemma_assoc_entry_member(clip_keystrokes@, clip.id@);
                lemma_overlay_offset_bounds(
                    eff_durations@,
                    transitions@,
                    concat_route,
                    i as int,
                );
                assert((MAX_TIME_MS as int) * (i as int) <= (MAX_TIME_MS as int) * (
                MAX_CLIPS as int)) by (nonlinear_arith)
                    requires
                        0 <= i as int <= MAX_CLIPS as int,
                ;
                assert(-(TRANSITION_DURATION_MS as int) * (i as int) >= -(
                TRANSITION_DURATION_MS as int) * (MAX_CLIPS as int)) by (nonlinear_arith)
                    requires
                        0 <= i as int <= MAX_CLIPS as int,
                ;
            }
            let mut fs = crate::filters::build_keystroke_filters(
                events,
                offset,
                clip.trim_start_ms,
            );
            r.append(&mut fs);
        }
        i = i + 1;
    }
    let mut subs = crate::filters::build_subtitle_filters(subtitles);
    r.append(&mut subs);
    if watermark {
        r.push(
            "drawtext=text='ClipFlow':fontsize=28:fontcolor=white@0.7:shadowcolor=black@0.5:shadowx=2:shadowy=2:x=w-tw-20:y=h-th-16"
                .to_owned(),
        );
    }
    proof {
        let fs = overlays_seq(
            clips@,
            eff_durations@,
            transitions@,
            clip_keystrokes@,
            subtitles@,
            watermark,
            concat_route,
        );
        assert(r@.len() == fs.len() && forall|k: int|
            0 <= k < fs.len() ==> (#[trigger] r@[k])@ == fs[k]);
    }
    r
}

/// Refuse an export whose clip list is empty or whose files are not all
/// on disk; the error names the first missing clip, counted from one.
pub fn check_clips(clips: &Vec<Clip>, clip_exists: &Vec<bool>) -> (r: Result<(), String>)
    requires
        clip_exists@.len() == clips@.len(),
    ensures
        r is Ok <==> (clips@.len() > 0 && forall|i: int|
            0 <= i < clip_exists@.len() ==> #[trigger] clip_exists@[i]),
        clips@.len() == 0 ==> (r matches Err(e) && e@ == "No clips to export"@),
        clips@.len() > 0 ==> (r matches Err(e) ==> exists|i: int|
            0 <= i < clips@.len() && !(#[trigger] clip_exists@[i]) && (forall|k: int|
                0 <= k < i ==> #[trigger] clip_exists@[k]) && e@ == "Clip "@ + dec_seq(i + 1)
                + " file not found: "@ + clips@[i].path@),
{
    if clips.len() == 0 {
        return Result::Err("No clips to export".to_owned());
    }
    let n = clips.len();
    let mut i: usize = 0;
    while i < n
        invariant
            n == clips@.len(),
            clip_exists@.len() == n,
            i <= n,
            forall|k: int| 0 <= k < i ==> #[trigger] clip_exists@[k],
        decreases n - i,
    {
        if !clip_exists[i] {
            let e = "Clip "
                .to_owned()
                .concat(u64_string((i + 1) as u64).as_str())
                .concat(" file not found: ")
                .concat(clips[i].path.as_str());
            proof {
                assert(e@ =~= "Clip "@ + dec_seq(i as int + 1) + " file not found: "@
                    + clips@[i as int].path@);
            }
            return Result::Err(e);
        }
        i = i + 1;
    }
    Result::Ok(())
}


// ─── shared tail and sizing ───

/// The encoding tail of an export: video codec, quality, pixel format
/// and frame rate, the audio codec or no-audio switch, and the output.
pub open spec fn codec_args_seq(
    quality: ExportQuality,
    audio_out: bool,
    output: Seq<char>,
) -> Seq<Seq<char>> {
    seq![
        "-c:v"@,
        "libx264"@,
        "-preset"@,
        quality.preset_spec(),
        "-crf"@,
        dec_seq(quality.crf_spec() as int),
        "-pix_fmt"@,
        "yuv420p"@,
        "-r"@,
        "30"@,
    ] + (if audio_out {
        seq!["-c:a"@, "aac"@, "-b:a"@, "128k"@]
    } else {
        seq!["-an"@]
    }) + seq!["-shortest"@, "-y"@, output]
}

fn push_codec_args(args: &mut Vec<String>, quality: &ExportQuality, audio_out: bool, output: &str)
    ensures
        views_of(final(args)@) == views_of(old(args)@) + codec_args_seq(
            *quality,
            audio_out,
            output@,
        ),
{
    args.push("-c:v".to_owned());
    args.push("libx264".to_owned());
    args.push("-preset".to_owned());
    args.push(quality.preset());
    args.push("-crf".to_owned());
    args.push(u64_string(quality.crf() as u64));
    args.push("-pix_fmt".to_owned());
    args.push("yuv420p".to_owned());
    args.push("-r".to_owned());
    args.push("30".to_owned());
    if audio_out {
        args.push("-c:a".to_owned());
        args.push("aac".to_owned());
        args.push("-b:a".to_owned());
        args.push("128k".to_owned());
    } else {
        args.push("-an".to_owned());
    }
    args.push("-shortest".to_owned());
    args.push("-y".to_owned());
    args.push(output.to_owned());
    proof {
        assert(views_of(final(args)@) =~= views_of(old(args)@) + codec_args_seq(
            *quality,
            audio_out,
            output@,
        ));
    }
}

/// Filters joined by commas.
pub open spec fn join_commas_seq(fs: Seq<Seq<char>>, upto: int) -> Seq<char>
    decreases upto,
{
    if upto <= 0 {
        Seq::<char>::empty()
    } else if upto == 1 {
        fs[0]
    } else {
        join_commas_seq(fs, upto - 1) + ","@ + fs[upto - 1]
    }
}

fn join_commas(fs: &Vec<String>) -> (r: String)
    ensures
        r@ == join_commas_seq(views_of(fs@), fs@.len() as int),
{
    let mut r = String::new();
    let n = fs.len();
    let mut i: usize = 0;
    while i < n
        invariant
            n == fs@.len(),
            i <= n,
            r@ == join_commas_seq(views_of(fs@), i as int),
        decreases n - i,
    {
        if i > 0 {
            r.append(",");
        }
        r.append(fs[i].as_str());
        proof {
            assert(views_of(fs@)[i as int] == fs@[i as int]@);
        }
        i = i + 1;
    }
    r
}

/// The greatest clip width, floored to even; 1920 without clips.
pub open spec fn max_width_spec(clips: Seq<Clip>, upto: int) -> int
    decreases upto,
{
    if upto <= 0 {
        1920
    } else if clips[upto - 1].region.width > max_width_spec(clips, upto - 1) {
        clips[upto - 1].region.width as int
    } else {
        max_width_spec(clips, upto - 1)
    }
}

/// The greatest clip height; 1080 without clips.
pub open spec fn max_height_spec(clips: Seq<Clip>, upto: int) -> int
    decreases upto,
{
    if upto <= 0 {
        1080
    } else if clips[upto - 1].region.height > max_height_spec(clips, upto - 1) {
        clips[upto - 1].region.height as int
    } else {
        max_height_spec(clips, upto - 1)
    }
}

/// The timeline frame: the largest clip region, floored to even.
pub fn timeline_frame(clips: &Vec<Clip>) -> (r: (u32, u32))
    ensures
        r.0 == (max_width_spec(clips@, clips@.len() as int) / 2) * 2,
        r.1 == (max_height_spec(clips@, clips@.len() as int) / 2) * 2,
{
    let n = clips.len();
    let mut w: u32 = 1920;
    let mut h: u32 = 1080;
    let mut i: usize = 0;
    while i < n
        invariant
            n == clips@.len(),
            i <= n,
            w == max_width_spec(clips@, i as int),
            h == max_height_spec(clips@, i as int),
        decreases n - i,
    {
        if clips[i].region.width > w {
            w = clips[i].region.width;
        }
        if clips[i].region.height > h {
            h = clips[i].region.height;
        }
        i = i + 1;
    }
    ((w / 2) * 2, (h / 2) * 2)
}

/// Whether any clip lists an audio track at all.
pub open spec fn any_paths_spec(clips: Seq<Clip>) -> bool {
    exists|i: int| 0 <= i < clips.len() && (#[trigger] clips[i]).audio_paths@.len() > 0
}

fn any_paths(clips: &Vec<Clip>) -> (r: bool)
    ensures
        r == any_paths_spec(clips@),
{
    let n = clips.len();
    let mut i: usize = 0;
    while i < n
        invariant
            n == clips@.len(),
            i <= n,
            forall|j: int| 0 <= j < i ==> (#[trigger] clips@[j]).audio_paths@.len() == 0,
        decreases n - i,
    {
        if clips[i].audio_paths.len() > 0 {
            return true;
        }
        i = i + 1;
    }
    false
}

fn any_audio_present(map: &Vec<(usize, Vec<usize>)>) -> (r: bool)
    ensures
        r == crate::graph::any_audio_spec(crate::graph::indices_of(map@)),
{
    let n = map.len();
    let mut i: usize = 0;
    while i < n
        invariant
            n == map@.len(),
            i <= n,
            forall|j: int|
                0 <= j < i ==> (#[trigger] crate::graph::indices_of(map@)[j]).len() == 0,
        decreases n - i,
    {
        if map[i].1.len() > 0 {
            proof {
                assert(crate::graph::indices_of(map@)[i as int].len() > 0);
            }
            return true;
        }
        i = i + 1;
    }
    false
}

// ─── the export routes ───

/// Which graph shape an export takes.
#[derive(Debug, Clone, Copy, PartialEq, Eq, Structural)]
pub enum ExportRoute {
    /// One clip: direct seek arguments and a single chain, no composition.
    SingleClip,
    /// Several clips, every transition a cut: one n-way concatenation.
    Concat,
    /// Several clips with at least one real transition: a cross-fade
    /// chain.
    CrossFade,
}

/// The route an export takes: the single-clip bypass, the n-way
/// concatenation when every transition is a cut, else the cross-fade
/// chain.
pub open spec fn route_spec(clips: Seq<Clip>, ts: Seq<Transition>) -> ExportRoute {
    if clips.len() == 1 {
        ExportRoute::SingleClip
    } else if all_cuts_spec(ts) {
        ExportRoute::Concat
    } else {
        ExportRoute::CrossFade
    }
}

/// A ready encoder invocation.
#[derive(Debug)]
pub struct ExportPlan {
    /// The graph shape this plan took.
    pub route: ExportRoute,
    /// The whole argument list of the encoder process.
    pub args: Vec<String>,
    /// The composed timeline's duration in ms, the denominator of
    /// progress reports.
    pub total_duration_ms: i64,
}


/// The per-clip audio input index lists, judged from the present flags.
pub open spec fn audio_idxs_spec(present: Seq<Vec<bool>>, n_video: int) -> Seq<Seq<usize>> {
    Seq::new(present.len(), |i: int| audio_indices_at_spec(present, n_video, i))
}

/// Whether the export carries audio: some clip lists a track and some
/// listed track is present on disk.
pub open spec fn audio_on_spec(clips: Seq<Clip>, present: Seq<Vec<bool>>) -> bool {
    any_paths_spec(clips) && crate::graph::any_audio_spec(
        audio_idxs_spec(present, clips.len() as int),
    )
}

/// The final video label of a multi-clip graph before overlays.
pub open spec fn multi_final_label_seq(n: int, concat_route: bool) -> Seq<char> {
    if concat_route {
        "[vout]"@
    } else {
        "[v"@ + dec_seq(n - 2) + "]"@
    }
}

/// The whole filter description of a multi-clip export: the per-clip
/// chains composed by the route's shape, the global overlays drawn onto
/// the composed video, and the audio side when the export carries audio.
pub open spec fn multi_filter_full_seq(
    clips: Seq<Clip>,
    eff: Seq<u64>,
    ts: Seq<Transition>,
    w: u32,
    h: u32,
    anns_map: Seq<(String, Vec<Annotation>)>,
    ks_map: Seq<(String, Vec<KeystrokeEvent>)>,
    subtitles: Seq<Subtitle>,
    watermark: bool,
    present: Seq<Vec<bool>>,
    zooms: Seq<Option<Seq<char>>>,
    concat_route: bool,
) -> Seq<char> {
    let n = clips.len() as int;
    let base = if concat_route {
        crate::graph::chains_join_seq(clips, w, h, anns_map, zooms, n) + ";"@
            + crate::graph::chain_labels_seq(n) + "concat=n="@ + dec_seq(n) + ":v=1:a=0[vout]"@
    } else {
        crate::graph::filter_complex_seq(clips, eff, ts, w, h, anns_map, zooms)
    };
    let ovs = overlays_seq(clips, eff, ts, ks_map, subtitles, watermark, concat_route);
    let with_ov = if ovs.len() == 0 {
        base
    } else {
        base + ";"@ + multi_final_label_seq(n, concat_route) + join_commas_seq(
            ovs,
            ovs.len() as int,
        ) + "[vfinal]"@
    };
    if audio_on_spec(clips, present) {
        with_ov + ";"@ + crate::graph::audio_filter_seq(audio_idxs_spec(present, n), eff)
    } else {
        with_ov
    }
}

/// The label the output video is mapped from.
pub open spec fn multi_out_label_seq(
    clips: Seq<Clip>,
    eff: Seq<u64>,
    ts: Seq<Transition>,
    ks_map: Seq<(String, Vec<KeystrokeEvent>)>,
    subtitles: Seq<Subtitle>,
    watermark: bool,
    concat_route: bool,
) -> Seq<char> {
    let ovs = overlays_seq(clips, eff, ts, ks_map, subtitles, watermark, concat_route);
    if ovs.len() == 0 {
        multi_final_label_seq(clips.len() as int, concat_route)
    } else {
        "[vfinal]"@
    }
}

/// The whole argument list of a multi-clip export.
pub open spec fn multi_args_seq(
    clips: Seq<Clip>,
    eff: Seq<u64>,
    ts: Seq<Transition>,
    w: u32,
    h: u32,
    anns_map: Seq<(String, Vec<Annotation>)>,
    ks_map: Seq<(String, Vec<KeystrokeEvent>)>,
    subtitles: Seq<Subtitle>,
    watermark: bool,
    quality: ExportQuality,
    present: Seq<Vec<bool>>,
    output: Seq<char>,
    zooms: Seq<Option<Seq<char>>>,
    concat_route: bool,
) -> Seq<Seq<char>> {
    let n = clips.len() as int;
    let audio_on = audio_on_spec(clips, present);
    video_input_args_seq(clips, n) + (if any_paths_spec(clips) {
        audio_args_all_seq(clips, present, n)
    } else {
        Seq::<Seq<char>>::empty()
    }) + seq![
        "-filter_complex"@,
        multi_filter_full_seq(
            clips,
            eff,
            ts,
            w,
            h,
            anns_map,
            ks_map,
            subtitles,
            watermark,
            present,
            zooms,
            concat_route,
        ),
        "-map"@,
        multi_out_label_seq(clips, eff, ts, ks_map, subtitles, watermark, concat_route),
    ] + (if audio_on {
        seq!["-map"@, "[aout]"@]
    } else {
        Seq::<Seq<char>>::empty()
    }) + codec_args_seq(quality, audio_on, output)
}

/// Append the filter, stream maps and encoding tail to the input
/// arguments.
fn assemble_args(
    args: &mut Vec<String>,
    filter: String,
    out_label: String,
    audio_on: bool,
    quality: &ExportQuality,
    output_path: &String,
)
    ensures
        views_of(final(args)@) == views_of(old(args)@) + seq!["-filter_complex"@, filter@, "-map"@, out_label@]
            + (if audio_on {
            seq!["-map"@, "[aout]"@]
        } else {
            Seq::<Seq<char>>::empty()
        }) + codec_args_seq(*quality, audio_on, output_path@),
{
    let ghost filter_view = filter@;
    let ghost label_view = out_label@;
    args.push("-filter_complex".to_owned());
    args.push(filter);
    args.push("-map".to_owned());
    args.push(out_label);
    if audio_on {
        args.push("-map".to_owned());
        args.push("[aout]".to_owned());
    }
    let ghost before_codec = args@;
    proof {
        assert(views_of(before_codec) =~= views_of(old(args)@) + seq![
            "-filter_complex"@,
            filter_view,
            "-map"@,
            label_view,
        ] + (if audio_on {
            seq!["-map"@, "[aout]"@]
        } else {
            Seq::<Seq<char>>::empty()
        }));
    }
    push_codec_args(args, quality, audio_on, output_path.as_str());
}

/// Build the argument list of a multi-clip export, over either route.
#[verifier::rlimit(100)]
fn multi_plan_args(
    clips: &Vec<Clip>,
    eff_durations: &Vec<u64>,
    transitions: &Vec<Transition>,
    audio_present: &Vec<Vec<bool>>,
    output_path: &String,
    watermark: bool,
    quality: &ExportQuality,
    clip_keystrokes: &Vec<(String, Vec<KeystrokeEvent>)>,
    subtitles: &Vec<Subtitle>,
    clip_annotations: &Vec<(String, Vec<Annotation>)>,
    clip_cursor_positions: &Vec<(String, Vec<CursorPosition>)>,
    concat_route: bool,
) -> (r: Vec<String>)
    requires
        clips@.len() >= 2,
        eff_durations@.len() == clips@.len(),
        durations_bounded(eff_durations@),
        audio_present@.len() == clips@.len(),
        forall|i: int|
            0 <= i < clips@.len() ==> (#[trigger] audio_present@[i])@.len()
                == clips@[i].audio_paths@.len(),
        forall|i: int| 0 <= i < clips@.len() ==> (#[trigger] clips@[i]).audio_paths@.len() <= 16,
        keystrokes_bounded(clip_keystrokes@),
        trims_bounded(clips@),
    ensures
        exists|zooms: Seq<Option<Seq<char>>>|
            zooms.len() == clips@.len() && (forall|j: int|
                0 <= j < clips@.len() ==> ((#[trigger] zooms[j]) is Some
                    <==> crate::graph::clip_zoom_on_spec(clips@, clip_cursor_positions@, j)))
                && views_of(r@) == #[trigger] multi_args_seq(
                clips@,
                eff_durations@,
                transitions@,
                timeline_frame_dims(clips@).0,
                timeline_frame_dims(clips@).1,
                clip_annotations@,
                clip_keystrokes@,
                subtitles@,
                watermark,
                *quality,
                audio_present@,
                output_path@,
                zooms,
                concat_route,
            ),
{
    let n = clips.len();
    let (max_w, max_h) = timeline_frame(clips);
    let has_any = any_paths(clips);

    let mut args = video_input_args(clips);
    let (mut audio_args, audio_map) = audio_inputs(clips, audio_present, n);
    let ghost pre_audio = args@;
    let ghost audio_args_view = audio_args@;
    if has_any {
        proof {
            lemma_views_of_add(pre_audio, audio_args@);
        }
        args.append(&mut audio_args);
    }
    let ghost after_inputs = args@;
    proof {
        assert(views_of(after_inputs) =~= video_input_args_seq(clips@, n as int) + (
        if any_paths_spec(clips@) {
            audio_args_all_seq(clips@, audio_present@, n as int)
        } else {
            Seq::<Seq<char>>::empty()
        }));
    }

    // the composed video, with the pans the clips' samples call for
    let ghost mut zooms_g: Seq<Option<Seq<char>>> = Seq::empty();
    let base: String = if concat_route {
        let chains = build_chains_only(
            clips,
            max_w,
            max_h,
            clip_annotations,
            clip_cursor_positions,
        );
        proof {
            zooms_g = choose|zooms: Seq<Option<Seq<char>>>|
                zooms.len() == clips@.len() && (forall|j: int|
                    0 <= j < clips@.len() ==> ((#[trigger] zooms[j]) is Some
                        <==> crate::graph::clip_zoom_on_spec(clips@, clip_cursor_positions@, j)))
                    && chains@ == #[trigger] crate::graph::chains_join_seq(
                    clips@,
                    max_w,
                    max_h,
                    clip_annotations@,
                    zooms,
                    clips@.len() as int,
                );
        }
        let b = chains
            .concat(";")
            .concat(crate::graph::chain_labels_string(n).as_str())
            .concat("concat=n=")
            .concat(usize_string(n).as_str())
            .concat(":v=1:a=0[vout]");
        proof {
            assert(base_matches(
                b@,
                clips@,
                eff_durations@,
                transitions@,
                max_w,
                max_h,
                clip_annotations@,
                zooms_g,
                concat_route,
            )) by {
                assert(b@ =~= crate::graph::chains_join_seq(
                    clips@,
                    max_w,
                    max_h,
                    clip_annotations@,
                    zooms_g,
                    clips@.len() as int,
                ) + ";"@ + crate::graph::chain_labels_seq(clips@.len() as int) + "concat=n="@
                    + dec_seq(clips@.len() as int) + ":v=1:a=0[vout]"@);
            }
        }
        b
    } else {
        let f = crate::graph::build_filter_complex_with_trim(
            clips,
            eff_durations,
            transitions,
            max_w,
            max_h,
            clip_annotations,
            clip_cursor_positions,
        );
        proof {
            zooms_g = choose|zooms: Seq<Option<Seq<char>>>|
                zooms.len() == clips@.len() && (forall|j: int|
                    0 <= j < clips@.len() ==> ((#[trigger] zooms[j]) is Some
                        <==> crate::graph::clip_zoom_on_spec(clips@, clip_cursor_positions@, j)))
                    && f@ == #[trigger] crate::graph::filter_complex_seq(
                    clips@,
                    eff_durations@,
                    transitions@,
                    max_w,
                    max_h,
                    clip_annotations@,
                    zooms,
                );
        }
        f
    };
    let ghost base_view = base@;

    // overlays
    let overlays = build_overlays(
        clips,
        eff_durations,
        transitions,
        clip_keystrokes,
        subtitles,
        watermark,
        concat_route,
    );
    let final_label: String = if concat_route {
        "[vout]".to_owned()
    } else {
        let l = "[v".to_owned().concat(usize_string(n - 2).as_str()).concat("]");
        proof {
            assert(l@ =~= multi_final_label_seq(n as int, concat_route));
        }
        l
    };
    let ghost ovs_spec = overlays_seq(
        clips@,
        eff_durations@,
        transitions@,
        clip_keystrokes@,
        subtitles@,
        watermark,
        concat_route,
    );
    let mut filter = base;
    let out_label: String = if overlays.len() == 0 {
        final_label
    } else {
        let joined = join_commas(&overlays);
        proof {
            assert(views_of(overlays@) =~= ovs_spec);
        }
        filter.append(";");
        filter.append(final_label.as_str());
        filter.append(joined.as_str());
        filter.append("[vfinal]");
        "[vfinal]".to_owned()
    };
    proof {
        assert(out_label@ == multi_out_label_seq(
            clips@,
            eff_durations@,
            transitions@,
            clip_keystrokes@,
            subtitles@,
            watermark,
            concat_route,
        ));
    }

    // audio
    let audio_on = has_any && any_audio_present(&audio_map);
    proof {
        assert(crate::graph::indices_of(audio_map@) =~= audio_idxs_spec(
            audio_present@,
            n as int,
        ));
        assert(audio_on == audio_on_spec(clips@, audio_present@));
    }
    if audio_on {
        let af = crate::graph::build_audio_concat_filter(&audio_map, eff_durations);
        filter.append(";");
        filter.append(af.as_str());
    }
    proof {
        assert(filter@ == multi_filter_full_seq(
            clips@,
            eff_durations@,
            transitions@,
            max_w,
            max_h,
            clip_annotations@,
            clip_keystrokes@,
            subtitles@,
            watermark,
            audio_present@,
            zooms_g,
            concat_route,
        ));
    }

    assemble_args(&mut args, filter, out_label, audio_on, quality, output_path);
    proof {
        assert(views_of(args@) =~= multi_args_seq(
            clips@,
            eff_durations@,
            transitions@,
            max_w,
            max_h,
            clip_annotations@,
            clip_keystrokes@,
            subtitles@,
            watermark,
            *quality,
            audio_present@,
            output_path@,
            zooms_g,
            concat_route,
        ));
        assert(max_w == timeline_frame_dims(clips@).0 && max_h == timeline_frame_dims(clips@).1);
        assert(views_of(args@) == multi_args_seq(
            clips@,
            eff_durations@,
            transitions@,
            timeline_frame_dims(clips@).0,
            timeline_frame_dims(clips@).1,
            clip_annotations@,
            clip_keystrokes@,
            subtitles@,
            watermark,
            *quality,
            audio_present@,
            output_path@,
            zooms_g,
            concat_route,
        ));
    }
    args
}

/// The even-floored timeline frame of a clip list.
pub open spec fn timeline_frame_dims(clips: Seq<Clip>) -> (u32, u32) {
    (
        (((max_width_spec(clips, clips.len() as int) / 2) * 2) as u32),
        (((max_height_spec(clips, clips.len() as int) / 2) * 2) as u32),
    )
}

/// The base composition of a multi-clip graph under given pans.
pub open spec fn base_matches(
    base: Seq<char>,
    clips: Seq<Clip>,
    eff: Seq<u64>,
    ts: Seq<Transition>,
    w: u32,
    h: u32,
    anns_map: Seq<(String, Vec<Annotation>)>,
    zooms: Seq<Option<Seq<char>>>,
    concat_route: bool,
) -> bool {
    if concat_route {
        base == crate::graph::chains_join_seq(clips, w, h, anns_map, zooms, clips.len() as int)
            + ";"@ + crate::graph::chain_labels_seq(clips.len() as int) + "concat=n="@ + dec_seq(
            clips.len() as int,
        ) + ":v=1:a=0[vout]"@
    } else {
        base == crate::graph::filter_complex_seq(clips, eff, ts, w, h, anns_map, zooms)
    }
}

/// Build the per-clip chains alone, joined by `;` (the concat route's
/// base).
fn build_chains_only(
    clips: &Vec<Clip>,
    max_w: u32,
    max_h: u32,
    clip_annotations: &Vec<(String, Vec<Annotation>)>,
    clip_cursor_positions: &Vec<(String, Vec<CursorPosition>)>,
) -> (r: String)
    requires
        clips@.len() >= 1,
    ensures
        exists|zooms: Seq<Option<Seq<char>>>|
            zooms.len() == clips@.len() && (forall|j: int|
                0 <= j < clips@.len() ==> ((#[trigger] zooms[j]) is Some
                    <==> crate::graph::clip_zoom_on_spec(clips@, clip_cursor_positions@, j))) && r@
                == #[trigger] crate::graph::chains_join_seq(
                clips@,
                max_w,
                max_h,
                clip_annotations@,
                zooms,
                clips@.len() as int,
            ),
{
    let n = clips.len();
    let mut filter = String::new();
    let ghost mut zooms: Seq<Option<Seq<char>>> = Seq::empty();
    let mut i: usize = 0;
    while i < n
        invariant
            n == clips@.len(),
            i <= n,
            zooms.len() == i,
            forall|j: int|
                0 <= j < i ==> ((#[trigger] zooms[j]) is Some
                    <==> crate::graph::clip_zoom_on_spec(clips@, clip_cursor_positions@, j)),
            filter@ == crate::graph::chains_join_seq(
                clips@,
                max_w,
                max_h,
                clip_annotations@,
                zooms,
                i as int,
            ),
        decreases n - i,
    {
        let clip = &clips[i];
        let cursor = crate::graph::assoc_get(clip_cursor_positions, &clip.id);
        let anns = crate::graph::assoc_get(clip_annotations, &clip.id);
        let chain = crate::graph::build_clip_chain(i, clip, max_w, max_h, cursor, anns);
        proof {
            let z = choose|z: Option<Seq<char>>|
                (z is Some <==> crate::graph::zoom_on_spec(
                    crate::graph::cursor_view(cursor),
                    clip.trim_start_ms,
                )) && chain@ == #[trigger] crate::graph::clip_chain_seq(
                    i as int,
                    *clip,
                    max_w,
                    max_h,
                    z,
                    crate::graph::ann_view(anns),
                );
            let prev = zooms;
            zooms = zooms.push(z);
            crate::graph::lemma_chains_join_prefix(
                clips@,
                max_w,
                max_h,
                clip_annotations@,
                prev,
                zooms,
                i as int,
            );
            assert(crate::graph::ann_view(anns) == assoc_entry(
                clip_annotations@,
                clips@[i as int].id@,
            ));
            assert(chain@ == crate::graph::chain_at_seq(
                clips@,
                max_w,
                max_h,
                clip_annotations@,
                zooms,
                i as int,
            ));
        }
        if i > 0 {
            filter.append(";");
        }
        filter.append(chain.as_str());
        i = i + 1;
    }
    filter
}


// ─── the single-clip route ───

/// The `-to` bound of a trimmed single clip: the trim window's length,
/// at least 100 ms.
pub open spec fn trim_to_spec(clip: Clip) -> int {
    if clip.trim_end_ms >= clip.trim_start_ms + 100 {
        clip.trim_end_ms - clip.trim_start_ms
    } else {
        100
    }
}

/// The filter stages of a single-clip export: the pan when called for,
/// the clip's annotation draws at its own size, its keystroke captions
/// (unshifted), the subtitles, and the watermark when asked for.
pub open spec fn single_vf_seq(
    clip: Clip,
    zoom: Option<Seq<char>>,
    anns_map: Seq<(String, Vec<Annotation>)>,
    ks_map: Seq<(String, Vec<KeystrokeEvent>)>,
    subtitles: Seq<Subtitle>,
    watermark: bool,
) -> Seq<Seq<char>> {
    (match zoom {
        Option::Some(z) => seq![z],
        Option::None => Seq::<Seq<char>>::empty(),
    }) + crate::graph::ann_stage_seqs(
        assoc_entry(anns_map, clip.id@),
        clip.region.width,
        clip.region.height,
    ) + (match assoc_entry(ks_map, clip.id@) {
        Option::Some(events) => crate::filters::keystroke_filters_seq(
            events,
            0,
            clip.trim_start_ms as int,
            crate::filters::keystroke_used_spec(events.len() as int),
        ),
        Option::None => Seq::<Seq<char>>::empty(),
    }) + subtitles.map_values(|sub: Subtitle| crate::filters::subtitle_filter_seq(sub)) + (
    if watermark {
        seq![watermark_filter_seq()]
    } else {
        Seq::<Seq<char>>::empty()
    })
}

/// The filter description of a single-clip export: the stages over the
/// one input (or a null stage when there are none), plus a mix of the
/// clip's audio tracks when it has several.
pub open spec fn single_fc_seq(vf: Seq<Seq<char>>, idxs: Seq<usize>) -> Seq<char> {
    "[0:v]"@ + (if vf.len() == 0 {
        "null"@
    } else {
        join_commas_seq(vf, vf.len() as int)
    }) + "[vout]"@ + (if idxs.len() > 1 {
        ";"@ + crate::graph::mix_inputs_seq(idxs, idxs.len() as int) + "amix=inputs="@ + dec_seq(
            idxs.len() as int,
        ) + ":duration=first[aout]"@
    } else {
        Seq::<char>::empty()
    })
}

/// The whole argument list of a single-clip export: the trim window as
/// direct seek arguments, the inputs, the filter when any stage or mix
/// is needed, the stream maps, and the encoding tail.
pub open spec fn single_args_seq(
    clip: Clip,
    present: Seq<bool>,
    anns_map: Seq<(String, Vec<Annotation>)>,
    ks_map: Seq<(String, Vec<KeystrokeEvent>)>,
    subtitles: Seq<Subtitle>,
    watermark: bool,
    quality: ExportQuality,
    output: Seq<char>,
    zoom: Option<Seq<char>>,
) -> Seq<Seq<char>> {
    let ss = if clip.trim_start_ms > 0 {
        seq!["-ss"@, ms_seq(clip.trim_start_ms as int)]
    } else {
        Seq::<Seq<char>>::empty()
    };
    let inputs = seq!["-i"@, clip.path@] + clip_audio_args_seq(
        clip.audio_paths@,
        present,
        present.len() as int,
    );
    let to = if clip.trim_end_ms > 0 {
        seq!["-to"@, ms_seq(trim_to_spec(clip))]
    } else {
        Seq::<Seq<char>>::empty()
    };
    let idxs = clip_audio_indices_spec(present, 1, present.len() as int);
    let vf = single_vf_seq(clip, zoom, anns_map, ks_map, subtitles, watermark);
    let maps = if vf.len() > 0 || idxs.len() > 1 {
        seq!["-filter_complex"@, single_fc_seq(vf, idxs), "-map"@, "[vout]"@] + (if idxs.len()
            > 1 {
            seq!["-map"@, "[aout]"@]
        } else if idxs.len() == 1 {
            seq!["-map"@, dec_seq(idxs[0] as int) + ":a"@]
        } else {
            Seq::<Seq<char>>::empty()
        })
    } else if idxs.len() == 1 {
        seq!["-map"@, "0:v"@, "-map"@, dec_seq(idxs[0] as int) + ":a"@]
    } else {
        Seq::<Seq<char>>::empty()
    };
    ss + inputs + to + maps + codec_args_seq(quality, clip.audio_paths@.len() > 0, output)
}

/// Build the filter stages of a single-clip export.
fn single_vf_build(
    clip: &Clip,
    watermark: bool,
    clip_keystrokes: &Vec<(String, Vec<KeystrokeEvent>)>,
    subtitles: &Vec<Subtitle>,
    clip_annotations: &Vec<(String, Vec<Annotation>)>,
    clip_cursor_positions: &Vec<(String, Vec<CursorPosition>)>,
) -> (r: (Vec<String>, Ghost<Option<Seq<char>>>))
    requires
        keystrokes_bounded(clip_keystrokes@),
        clip.trim_start_ms <= MAX_TIME_MS,
    ensures
        (r.1@ is Some <==> crate::graph::zoom_on_spec(
            assoc_entry(clip_cursor_positions@, clip.id@),
            clip.trim_start_ms,
        )),
        views_of(r.0@) == single_vf_seq(
            *clip,
            r.1@,
            clip_annotations@,
            clip_keystrokes@,
            subtitles@,
            watermark,
        ),
{
    let mut vf: Vec<String> = Vec::new();
    let ghost mut zoom_view: Option<Seq<char>> = Option::None;
    if let Option::Some(positions) = crate::graph::assoc_get(clip_cursor_positions, &clip.id) {
        if let Option::Some(zoom_filter) = crate::cursor::build_cursor_zoom_filter(
            positions,
            clip.trim_start_ms,
            clip.region.width,
            clip.region.height,
        ) {
            proof {
                zoom_view = Option::Some(zoom_filter@);
            }
            vf.push(zoom_filter);
        }
    }
    if let Option::Some(anns) = crate::graph::assoc_get(clip_annotations, &clip.id) {
        let mut fs = crate::filters::build_annotation_draw_filters(
            anns,
            clip.region.width,
            clip.region.height,
        );
        proof {
            lemma_views_of_add(vf@, fs@);
        }
        vf.append(&mut fs);
    }
    if let Option::Some(events) = crate::graph::assoc_get(clip_keystrokes, &clip.id) {
        proof {
            lemma_assoc_entry_member(clip_keystrokes@, clip.id@);
        }
        let mut fs = crate::filters::build_keystroke_filters(events, 0, clip.trim_start_ms);
        proof {
            lemma_views_of_add(vf@, fs@);
        }
        vf.append(&mut fs);
    }
    let mut subs = crate::filters::build_subtitle_filters(subtitles);
    proof {
        lemma_views_of_add(vf@, subs@);
    }
    vf.append(&mut subs);
    if watermark {
        vf.push(
            "drawtext=text='ClipFlow':fontsize=28:fontcolor=white@0.7:shadowcolor=black@0.5:shadowx=2:shadowy=2:x=w-tw-20:y=h-th-16"
                .to_owned(),
        );
    }
    proof {
        assert(views_of(vf@) =~= single_vf_seq(
            *clip,
            zoom_view,
            clip_annotations@,
            clip_keystrokes@,
            subtitles@,
            watermark,
        ));
    }
    (vf, Ghost(zoom_view))
}

/// Build the filter description of a single-clip export.
fn single_fc_build(vf: &Vec<String>, idxs: &Vec<usize>) -> (r: String)
    ensures
        r@ == single_fc_seq(views_of(vf@), idxs@),
{
    let chain: String = if vf.len() == 0 {
        "[0:v]".to_owned().concat("null").concat("[vout]")
    } else {
        "[0:v]".to_owned().concat(join_commas(vf).as_str()).concat("[vout]")
    };
    let fc: String = if idxs.len() > 1 {
        chain
            .concat(";")
            .concat(mix_inputs_pub(idxs).as_str())
            .concat("amix=inputs=")
            .concat(usize_string(idxs.len()).as_str())
            .concat(":duration=first[aout]")
    } else {
        chain
    };
    proof {
        assert(fc@ =~= single_fc_seq(views_of(vf@), idxs@));
    }
    fc
}

/// Build the argument list of a single-clip export. The pan stage is
/// present exactly when the clip's stored samples call for one.
#[verifier::rlimit(100)]
fn single_plan_args(
    clip: &Clip,
    audio_present: &Vec<bool>,
    output_path: &String,
    watermark: bool,
    quality: &ExportQuality,
    clip_keystrokes: &Vec<(String, Vec<KeystrokeEvent>)>,
    subtitles: &Vec<Subtitle>,
    clip_annotations: &Vec<(String, Vec<Annotation>)>,
    clip_cursor_positions: &Vec<(String, Vec<CursorPosition>)>,
) -> (r: Vec<String>)
    requires
        audio_present@.len() == clip.audio_paths@.len(),
        clip.audio_paths@.len() <= 16,
        keystrokes_bounded(clip_keystrokes@),
        clip.trim_start_ms <= MAX_TIME_MS,
    ensures
        exists|zoom: Option<Seq<char>>|
            (zoom is Some <==> crate::graph::zoom_on_spec(
                assoc_entry(clip_cursor_positions@, clip.id@),
                clip.trim_start_ms,
            )) && views_of(r@) == #[trigger] single_args_seq(
                *clip,
                audio_present@,
                clip_annotations@,
                clip_keystrokes@,
                subtitles@,
                watermark,
                *quality,
                output_path@,
                zoom,
            ),
{
    let mut args: Vec<String> = Vec::new();
    if clip.trim_start_ms > 0 {
        args.push("-ss".to_owned());
        args.push(ms_string(clip.trim_start_ms));
    }
    args.push("-i".to_owned());
    args.push(clip.path.clone());
    let (mut audio_args, idxs) = clip_audio_inputs(&clip.audio_paths, audio_present, 1);
    let ghost before_audio = args@;
    proof {
        lemma_views_of_add(before_audio, audio_args@);
    }
    args.append(&mut audio_args);
    if clip.trim_end_ms > 0 {
        args.push("-to".to_owned());
        let to_ms: u64 = if clip.trim_end_ms >= clip.trim_start_ms && clip.trim_end_ms
            - clip.trim_start_ms >= 100 {
            clip.trim_end_ms - clip.trim_start_ms
        } else {
            100
        };
        args.push(ms_string(to_ms));
    }
    let ghost after_inputs = args@;

    let (vf, zoom_ghost) = single_vf_build(
        clip,
        watermark,
        clip_keystrokes,
        subtitles,
        clip_annotations,
        clip_cursor_positions,
    );
    let ghost zoom_view = zoom_ghost@;

    let need_fc = vf.len() > 0 || idxs.len() > 1;
    if need_fc {
        let fc = single_fc_build(&vf, &idxs);
        args.push("-filter_complex".to_owned());
        args.push(fc);
        args.push("-map".to_owned());
        args.push("[vout]".to_owned());
        if idxs.len() > 1 {
            args.push("-map".to_owned());
            args.push("[aout]".to_owned());
        } else if idxs.len() == 1 {
            args.push("-map".to_owned());
            let m = usize_string(idxs[0]).concat(":a");
            args.push(m);
        }
    } else if idxs.len() == 1 {
        args.push("-map".to_owned());
        args.push("0:v".to_owned());
        args.push("-map".to_owned());
        let m = usize_string(idxs[0]).concat(":a");
        args.push(m);
    }
    let has_audio = clip.audio_paths.len() > 0;
    push_codec_args(&mut args, quality, has_audio, output_path.as_str());
    proof {
        assert(views_of(args@) =~= single_args_seq(
            *clip,
            audio_present@,
            clip_annotations@,
            clip_keystrokes@,
            subtitles@,
            watermark,
            *quality,
            output_path@,
            zoom_view,
        ));
    }
    args
}

/// Build the `[3:a][4:a]...` input labels of a mix.
fn mix_inputs_pub(indices: &Vec<usize>) -> (r: String)
    ensures
        r@ == crate::graph::mix_inputs_seq(indices@, indices@.len() as int),
{
    let mut r = String::new();
    let m = indices.len();
    let mut k: usize = 0;
    while k < m
        invariant
            m == indices@.len(),
            k <= m,
            r@ == crate::graph::mix_inputs_seq(indices@, k as int),
        decreases m - k,
    {
        r.append("[");
        r.append(usize_string(indices[k]).as_str());
        r.append(":a]");
        proof {
            assert(r@ =~= crate::graph::mix_inputs_seq(indices@, k + 1 as int));
        }
        k = k + 1;
    }
    r
}

// ─── the dispatch ───

/// The effective durations of the clips, given what the probe reported.
pub open spec fn eff_seq_spec(clips: Seq<Clip>, probed_ms: Seq<u64>) -> Seq<u64> {
    Seq::new(
        clips.len(),
        |i: int|
            crate::graph::effective_duration_spec(
                clips[i].trim_start_ms,
                clips[i].trim_end_ms,
                probed_ms[i],
            ) as u64,
    )
}

/// Plan an MP4 export: choose the route — the single-clip bypass, the
/// n-way concatenation when every transition is a cut, else the
/// cross-fade chain — and build the whole encoder invocation for it,
/// plus the timeline duration progress is measured against. The caller
/// has already checked that every clip file exists (`check_clips`) and
/// probed each file's duration.
pub fn export_mp4_plan(
    clips: &Vec<Clip>,
    transitions: &Vec<Transition>,
    probed_ms: &Vec<u64>,
    audio_present: &Vec<Vec<bool>>,
    output_path: &String,
    watermark: bool,
    quality: &ExportQuality,
    clip_keystrokes: &Vec<(String, Vec<KeystrokeEvent>)>,
    subtitles: &Vec<Subtitle>,
    clip_annotations: &Vec<(String, Vec<Annotation>)>,
    clip_cursor_positions: &Vec<(String, Vec<CursorPosition>)>,
) -> (r: ExportPlan)
    requires
        1 <= clips@.len() <= MAX_CLIPS,
        transitions@.len() == clips@.len() - 1,
        probed_ms@.len() == clips@.len(),
        forall|i: int| 0 <= i < probed_ms@.len() ==> (#[trigger] probed_ms@[i]) <= MAX_TIME_MS,
        trims_bounded(clips@),
        audio_present@.len() == clips@.len(),
        forall|i: int|
            0 <= i < clips@.len() ==> (#[trigger] audio_present@[i])@.len()
                == clips@[i].audio_paths@.len(),
        forall|i: int| 0 <= i < clips@.len() ==> (#[trigger] clips@[i]).audio_paths@.len() <= 16,
        keystrokes_bounded(clip_keystrokes@),
    ensures
        r.route == route_spec(clips@, transitions@),
        r.total_duration_ms == crate::graph::timeline_duration_spec(
            eff_seq_spec(clips@, probed_ms@),
            transitions@,
        ),
        r.route == ExportRoute::SingleClip ==> exists|zoom: Option<Seq<char>>|
            (zoom is Some <==> crate::graph::zoom_on_spec(
                assoc_entry(clip_cursor_positions@, clips@[0].id@),
                clips@[0].trim_start_ms,
            )) && views_of(r.args@) == #[trigger] single_args_seq(
                clips@[0],
                audio_present@[0]@,
                clip_annotations@,
                clip_keystrokes@,
                subtitles@,
                watermark,
                *quality,
                output_path@,
                zoom,
            ),
        r.route == ExportRoute::Concat ==> exists|zooms: Seq<Option<Seq<char>>>|
            zooms.len() == clips@.len() && (forall|j: int|
                0 <= j < clips@.len() ==> ((#[trigger] zooms[j]) is Some
                    <==> crate::graph::clip_zoom_on_spec(clips@, clip_cursor_positions@, j)))
                && views_of(r.args@) == #[trigger] multi_args_seq(
                clips@,
                eff_seq_spec(clips@, probed_ms@),
                transitions@,
                timeline_frame_dims(clips@).0,
                timeline_frame_dims(clips@).1,
                clip_annotations@,
                clip_keystrokes@,
                subtitles@,
                watermark,
                *quality,
                audio_present@,
                output_path@,
                zooms,
                true,
            ),
        r.route == ExportRoute::CrossFade ==> exists|zooms: Seq<Option<Seq<char>>>|
            zooms.len() == clips@.len() && (forall|j: int|
                0 <= j < clips@.len() ==> ((#[trigger] zooms[j]) is Some
                    <==> crate::graph::clip_zoom_on_spec(clips@, clip_cursor_positions@, j)))
                && views_of(r.args@) == #[trigger] multi_args_seq(
                clips@,
                eff_seq_spec(clips@, probed_ms@),
                transitions@,
                timeline_frame_dims(clips@).0,
                timeline_frame_dims(clips@).1,
                clip_annotations@,
                clip_keystrokes@,
                subtitles@,
                watermark,
                *quality,
                audio_present@,
                output_path@,
                zooms,
                false,
            ),
{
    let n = clips.len();
    let mut eff: Vec<u64> = Vec::new();
    let mut i: usize = 0;
    while i < n
        invariant
            n == clips@.len(),
            probed_ms@.len() == n,
            trims_bounded(clips@),
            forall|k: int| 0 <= k < n ==> (#[trigger] probed_ms@[k]) <= MAX_TIME_MS,
            i <= n,
            eff@.len() == i,
            forall|k: int| 0 <= k < i ==> (#[trigger] eff@[k]) == eff_seq_spec(clips@, probed_ms@)[k],
            forall|k: int| 0 <= k < i ==> 100 <= (#[trigger] eff@[k]) <= MAX_TIME_MS,
        decreases n - i,
    {
        let d = crate::graph::effective_duration(&clips[i], probed_ms[i]);
        eff.push(d);
        i = i + 1;
    }
    proof {
        assert(eff@ =~= eff_seq_spec(clips@, probed_ms@));
        assert(durations_bounded(eff@));
    }
    let total = crate::graph::timeline_duration_ms(&eff, transitions);

    if n == 1 {
        let args = single_plan_args(
            &clips[0],
            &audio_present[0],
            output_path,
            watermark,
            quality,
            clip_keystrokes,
            subtitles,
            clip_annotations,
            clip_cursor_positions,
        );
        ExportPlan { route: ExportRoute::SingleClip, args, total_duration_ms: total }
    } else {
        let concat_route = crate::graph::all_cuts(transitions);
        let args = multi_plan_args(
            clips,
            &eff,
            transitions,
            audio_present,
            output_path,
            watermark,
            quality,
            clip_keystrokes,
            subtitles,
            clip_annotations,
            clip_cursor_positions,
            concat_route,
        );
        let route = if concat_route {
            ExportRoute::Concat
        } else {
            ExportRoute::CrossFade
        };
        ExportPlan { route, args, total_duration_ms: total }
    }
}


// ─── preview ───

/// The preview frame: half the timeline frame, floored to even, held at
/// 320 x 240 or more.
pub open spec fn preview_w_spec(clips: Seq<Clip>) -> int {
    let w = ((max_width_spec(clips, clips.len() as int) / 2) / 2) * 2;
    if w < 320 {
        320
    } else {
        w
    }
}

pub open spec fn preview_h_spec(clips: Seq<Clip>) -> int {
    let h = ((max_height_spec(clips, clips.len() as int) / 2) / 2) * 2;
    if h < 240 {
        240
    } else {
        h
    }
}

/// The fast encoding tail of a preview.
pub open spec fn preview_tail_seq(output: Seq<char>) -> Seq<Seq<char>> {
    seq![
        "-c:v"@,
        "libx264"@,
        "-preset"@,
        "ultrafast"@,
        "-crf"@,
        "30"@,
        "-pix_fmt"@,
        "yuv420p"@,
        "-r"@,
        "24"@,
        "-an"@,
        "-y"@,
        output,
    ]
}

fn push_preview_tail(args: &mut Vec<String>, output: &String)
    ensures
        views_of(final(args)@) == views_of(old(args)@) + preview_tail_seq(output@),
{
    args.push("-c:v".to_owned());
    args.push("libx264".to_owned());
    args.push("-preset".to_owned());
    args.push("ultrafast".to_owned());
    args.push("-crf".to_owned());
    args.push("30".to_owned());
    args.push("-pix_fmt".to_owned());
    args.push("yuv420p".to_owned());
    args.push("-r".to_owned());
    args.push("24".to_owned());
    args.push("-an".to_owned());
    args.push("-y".to_owned());
    args.push(output.clone());
    proof {
        assert(views_of(final(args)@) =~= views_of(old(args)@) + preview_tail_seq(output@));
    }
}

/// A multi-clip preview: the cross-fade chain at preview size, without
/// annotations or pans (for speed), encoded fast and muted.
pub open spec fn preview_args_seq(
    clips: Seq<Clip>,
    eff: Seq<u64>,
    ts: Seq<Transition>,
    output: Seq<char>,
    zooms: Seq<Option<Seq<char>>>,
) -> Seq<Seq<char>> {
    let empty_anns = Seq::<(String, Vec<Annotation>)>::empty();
    video_input_args_seq(clips, clips.len() as int) + seq![
        "-filter_complex"@,
        crate::graph::filter_complex_seq(
            clips,
            eff,
            ts,
            preview_w_spec(clips) as u32,
            preview_h_spec(clips) as u32,
            empty_anns,
            zooms,
        ),
        "-map"@,
        "[v"@ + dec_seq(clips.len() as int - 2) + "]"@,
    ] + preview_tail_seq(output)
}

/// Plan a multi-clip preview. Annotations, keystrokes and cursor pans
/// are left out for speed, so every pan slot is empty.
pub fn preview_mp4_plan(
    clips: &Vec<Clip>,
    transitions: &Vec<Transition>,
    probed_ms: &Vec<u64>,
    output_path: &String,
) -> (r: ExportPlan)
    requires
        2 <= clips@.len() <= MAX_CLIPS,
        transitions@.len() == clips@.len() - 1,
        probed_ms@.len() == clips@.len(),
        forall|i: int| 0 <= i < probed_ms@.len() ==> (#[trigger] probed_ms@[i]) <= MAX_TIME_MS,
        trims_bounded(clips@),
    ensures
        r.route == ExportRoute::CrossFade,
        r.total_duration_ms == crate::graph::timeline_duration_spec(
            eff_seq_spec(clips@, probed_ms@),
            transitions@,
        ),
        exists|zooms: Seq<Option<Seq<char>>>|
            zooms.len() == clips@.len() && (forall|j: int|
                0 <= j < clips@.len() ==> (#[trigger] zooms[j]) is None) && views_of(r.args@)
                == #[trigger] preview_args_seq(
                clips@,
                eff_seq_spec(clips@, probed_ms@),
                transitions@,
                output_path@,
                zooms,
            ),
{
    let n = clips.len();
    let mut eff: Vec<u64> = Vec::new();
    let mut i: usize = 0;
    while i < n
        invariant
            n == clips@.len(),
            probed_ms@.len() == n,
            trims_bounded(clips@),
            forall|k: int| 0 <= k < n ==> (#[trigger] probed_ms@[k]) <= MAX_TIME_MS,
            i <= n,
            eff@.len() == i,
            forall|k: int| 0 <= k < i ==> (#[trigger] eff@[k]) == eff_seq_spec(clips@, probed_ms@)[k],
            forall|k: int| 0 <= k < i ==> 100 <= (#[trigger] eff@[k]) <= MAX_TIME_MS,
        decreases n - i,
    {
        let d = crate::graph::effective_duration(&clips[i], probed_ms[i]);
        eff.push(d);
        i = i + 1;
    }
    proof {
        assert(eff@ =~= eff_seq_spec(clips@, probed_ms@));
        assert(durations_bounded(eff@));
    }
    let total = crate::graph::timeline_duration_ms(&eff, transitions);

    let (raw_w, raw_h) = raw_frame(clips);
    let pw: u32 = {
        let w = ((raw_w / 2) / 2) * 2;
        if w < 320 {
            320
        } else {
            w
        }
    };
    let ph: u32 = {
        let h = ((raw_h / 2) / 2) * 2;
        if h < 240 {
            240
        } else {
            h
        }
    };

    let empty_anns: Vec<(String, Vec<Annotation>)> = Vec::new();
    let empty_cursors: Vec<(String, Vec<CursorPosition>)> = Vec::new();
    let filter = crate::graph::build_filter_complex_with_trim(
        clips,
        &eff,
        transitions,
        pw,
        ph,
        &empty_anns,
        &empty_cursors,
    );
    let ghost zooms_g = choose|zooms: Seq<Option<Seq<char>>>|
        zooms.len() == clips@.len() && (forall|j: int|
            0 <= j < clips@.len() ==> ((#[trigger] zooms[j]) is Some
                <==> crate::graph::clip_zoom_on_spec(clips@, empty_cursors@, j))) && filter@
            == #[trigger] crate::graph::filter_complex_seq(
            clips@,
            eff@,
            transitions@,
            pw,
            ph,
            empty_anns@,
            zooms,
        );
    proof {
        assert(forall|j: int|
            0 <= j < clips@.len() ==> !crate::graph::clip_zoom_on_spec(clips@, empty_cursors@, j));
        assert(empty_anns@ =~= Seq::<(String, Vec<Annotation>)>::empty());
    }

    let mut args = video_input_args(clips);
    args.push("-filter_complex".to_owned());
    args.push(filter);
    args.push("-map".to_owned());
    let label = "[v".to_owned().concat(usize_string(n - 2).as_str()).concat("]");
    args.push(label);
    push_preview_tail(&mut args, output_path);
    proof {
        assert(views_of(args@) =~= preview_args_seq(
            clips@,
            eff_seq_spec(clips@, probed_ms@),
            transitions@,
            output_path@,
            zooms_g,
        ));
    }
    ExportPlan { route: ExportRoute::CrossFade, args, total_duration_ms: total }
}

/// The raw (un-floored) largest clip region.
fn raw_frame(clips: &Vec<Clip>) -> (r: (u32, u32))
    ensures
        r.0 == max_width_spec(clips@, clips@.len() as int),
        r.1 == max_height_spec(clips@, clips@.len() as int),
{
    let n = clips.len();
    let mut w: u32 = 1920;
    let mut h: u32 = 1080;
    let mut i: usize = 0;
    while i < n
        invariant
            n == clips@.len(),
            i <= n,
            w == max_width_spec(clips@, i as int),
            h == max_height_spec(clips@, i as int),
        decreases n - i,
    {
        if clips[i].region.width > w {
            w = clips[i].region.width;
        }
        if clips[i].region.height > h {
            h = clips[i].region.height;
        }
        i = i + 1;
    }
    (w, h)
}

/// A single-clip preview: the trim window as direct seek arguments and
/// one scale to preview size.
pub open spec fn preview_single_args_seq(clip: Clip, output: Seq<char>) -> Seq<Seq<char>> {
    let pw = {
        let w = ((clip.region.width / 2) / 2) * 2;
        if w < 320 {
            320int
        } else {
            w as int
        }
    };
    let ph = {
        let h = ((clip.region.height / 2) / 2) * 2;
        if h < 240 {
            240int
        } else {
            h as int
        }
    };
    (if clip.trim_start_ms > 0 {
        seq!["-ss"@, ms_seq(clip.trim_start_ms as int)]
    } else {
        Seq::<Seq<char>>::empty()
    }) + seq!["-i"@, clip.path@] + (if clip.trim_end_ms > 0 {
        seq!["-to"@, ms_seq(trim_to_spec(clip))]
    } else {
        Seq::<Seq<char>>::empty()
    }) + seq!["-vf"@, "scale="@ + dec_seq(pw) + ":"@ + dec_seq(ph)] + preview_tail_seq(output)
}

/// Plan a single-clip preview.
pub fn preview_single_clip_plan(clip: &Clip, output_path: &String) -> (r: Vec<String>)
    ensures
        views_of(r@) == preview_single_args_seq(*clip, output_path@),
{
    let pw: u32 = {
        let w = ((clip.region.width / 2) / 2) * 2;
        if w < 320 {
            320
        } else {
            w
        }
    };
    let ph: u32 = {
        let h = ((clip.region.height / 2) / 2) * 2;
        if h < 240 {
            240
        } else {
            h
        }
    };
    let mut args: Vec<String> = Vec::new();
    if clip.trim_start_ms > 0 {
        args.push("-ss".to_owned());
        args.push(ms_string(clip.trim_start_ms));
    }
    args.push("-i".to_owned());
    args.push(clip.path.clone());
    if clip.trim_end_ms > 0 {
        args.push("-to".to_owned());
        let to_ms: u64 = if clip.trim_end_ms >= clip.trim_start_ms && clip.trim_end_ms
            - clip.trim_start_ms >= 100 {
            clip.trim_end_ms - clip.trim_start_ms
        } else {
            100
        };
        args.push(ms_string(to_ms));
    }
    args.push("-vf".to_owned());
    args.push(
        "scale=".to_owned().concat(u64_string(pw as u64).as_str()).concat(":").concat(
            u64_string(ph as u64).as_str(),
        ),
    );
    push_preview_tail(&mut args, output_path);
    proof {
        assert(views_of(args@) =~= preview_single_args_seq(*clip, output_path@));
    }
    args
}


// ─── GIF derivation ───

/// The last position of `c` strictly below `below`; -1 when there is
/// none.
pub open spec fn find_last_below(s: Seq<char>, c: char, below: int) -> int
    decreases below,
{
    if below <= 0 || below > s.len() {
        -1
    } else if s[below - 1] == c {
        below - 1
    } else {
        find_last_below(s, c, below - 1)
    }
}

/// Where the extension dot of a path sits: the last dot after the last
/// separator, and not as the file name's first character; -1 when the
/// path has no extension.
pub open spec fn ext_dot_spec(s: Seq<char>) -> int {
    let sl = find_last_below(s, '/', s.len() as int);
    let d = find_last_below(s, '.', s.len() as int);
    if d > sl + 1 {
        d
    } else {
        -1
    }
}

/// The path with its extension replaced (or appended when it has none).
pub open spec fn with_extension_spec(s: Seq<char>, ext: Seq<char>) -> Seq<char> {
    (if ext_dot_spec(s) >= 0 {
        s.take(ext_dot_spec(s))
    } else {
        s
    }) + "."@ + ext
}

fn find_last_exec(s: &str, c: char) -> (r: Option<usize>)
    ensures
        r matches Some(i) ==> find_last_below(s@, c, s@.len() as int) == i as int && i < s@.len(),
        r is None ==> find_last_below(s@, c, s@.len() as int) == -1,
{
    let n = s.unicode_len();
    let mut below: usize = n;
    while below > 0
        invariant
            below <= n,
            n == s@.len(),
            find_last_below(s@, c, n as int) == find_last_below(s@, c, below as int),
        decreases below,
    {
        if s.get_char(below - 1) == c {
            return Option::Some(below - 1);
        }
        below = below - 1;
    }
    Option::None
}

/// Replace a path's extension, as the encoder's derived files are named:
/// everything from the extension dot on is replaced by `.ext`; a path
/// without an extension gets `.ext` appended.
pub fn with_extension(path: &str, ext: &str) -> (r: String)
    ensures
        r@ == with_extension_spec(path@, ext@),
{
    let sl = find_last_exec(path, '/');
    let d = find_last_exec(path, '.');
    let cut: Option<usize> = match (d, sl) {
        (Option::Some(di), Option::Some(si)) => if di > si && di - si > 1 {
            Option::Some(di)
        } else {
            Option::None
        },
        (Option::Some(di), Option::None) => if di > 0 {
            Option::Some(di)
        } else {
            Option::None
        },
        _ => Option::None,
    };
    let r = match cut {
        Option::Some(i) => {
            let head = path.substring_char(0, i);
            head.to_owned().concat(".").concat(ext)
        },
        Option::None => path.to_owned().concat(".").concat(ext),
    };
    proof {
        assert(r@ =~= with_extension_spec(path@, ext@));
    }
    r
}

/// The GIF frame rate per quality step.
pub open spec fn gif_fps_spec(quality: ExportQuality) -> int {
    match quality {
        ExportQuality::High => 15,
        ExportQuality::Medium => 12,
        ExportQuality::Low => 8,
    }
}

/// The GIF width per quality step.
pub open spec fn gif_width_spec(quality: ExportQuality) -> int {
    match quality {
        ExportQuality::High => 640,
        ExportQuality::Medium => 480,
        ExportQuality::Low => 320,
    }
}

/// The palette pass: sample the intermediate video down and build one
/// palette over its frame differences.
pub open spec fn palette_args_seq(
    temp: Seq<char>,
    quality: ExportQuality,
    palette: Seq<char>,
) -> Seq<Seq<char>> {
    seq![
        "-i"@,
        temp,
        "-vf"@,
        "fps="@ + dec_seq(gif_fps_spec(quality)) + ",scale="@ + dec_seq(gif_width_spec(quality))
            + ":-1:flags=lanczos,palettegen=stats_mode=diff"@,
        "-y"@,
        palette,
    ]
}

/// The apply pass: same sampling, dithered through the palette.
pub open spec fn gif_args_seq(
    temp: Seq<char>,
    palette: Seq<char>,
    quality: ExportQuality,
    output: Seq<char>,
) -> Seq<Seq<char>> {
    seq![
        "-i"@,
        temp,
        "-i"@,
        palette,
        "-filter_complex"@,
        "fps="@ + dec_seq(gif_fps_spec(quality)) + ",scale="@ + dec_seq(gif_width_spec(quality))
            + ":-1:flags=lanczos[x];[x][1:v]paletteuse=dither=bayer:bayer_scale=5"@,
        "-y"@,
        output,
    ]
}

/// The two-pass GIF derivation from an intermediate video.
#[derive(Debug)]
pub struct GifPlan {
    /// The intermediate low-quality video to render first.
    pub temp_mp4: String,
    /// The palette file of the first pass.
    pub palette_path: String,
    pub palette_args: Vec<String>,
    pub gif_args: Vec<String>,
}

/// Plan the GIF derivation: the intermediate and palette files are named
/// from the output, and the two passes sample at the quality's rate and
/// width. The caller renders the intermediate video first (through the
/// MP4 planner at low quality) and removes both files afterwards,
/// whatever the outcome.
pub fn export_gif_plan(output_path: &String, quality: &ExportQuality) -> (r: GifPlan)
    ensures
        r.temp_mp4@ == with_extension_spec(output_path@, "tmp.mp4"@),
        r.palette_path@ == with_extension_spec(output_path@, "palette.png"@),
        views_of(r.palette_args@) == palette_args_seq(r.temp_mp4@, *quality, r.palette_path@),
        views_of(r.gif_args@) == gif_args_seq(r.temp_mp4@, r.palette_path@, *quality, output_path@),
{
    let temp_mp4 = with_extension(output_path.as_str(), "tmp.mp4");
    let palette_path = with_extension(output_path.as_str(), "palette.png");
    let fps: u64 = match quality {
        ExportQuality::High => 15,
        ExportQuality::Medium => 12,
        ExportQuality::Low => 8,
    };
    let width: u64 = match quality {
        ExportQuality::High => 640,
        ExportQuality::Medium => 480,
        ExportQuality::Low => 320,
    };
    let mut palette_args: Vec<String> = Vec::new();
    palette_args.push("-i".to_owned());
    palette_args.push(temp_mp4.clone());
    palette_args.push("-vf".to_owned());
    let pf = "fps="
        .to_owned()
        .concat(u64_string(fps).as_str())
        .concat(",scale=")
        .concat(u64_string(width).as_str())
        .concat(":-1:flags=lanczos,palettegen=stats_mode=diff");
    palette_args.push(pf);
    palette_args.push("-y".to_owned());
    palette_args.push(palette_path.clone());
    proof {
        assert(views_of(palette_args@) =~= palette_args_seq(temp_mp4@, *quality, palette_path@));
    }
    let mut gif_args: Vec<String> = Vec::new();
    gif_args.push("-i".to_owned());
    gif_args.push(temp_mp4.clone());
    gif_args.push("-i".to_owned());
    gif_args.push(palette_path.clone());
    gif_args.push("-filter_complex".to_owned());
    let gf = "fps="
        .to_owned()
        .concat(u64_string(fps).as_str())
        .concat(",scale=")
        .concat(u64_string(width).as_str())
        .concat(":-1:flags=lanczos[x];[x][1:v]paletteuse=dither=bayer:bayer_scale=5");
    gif_args.push(gf);
    gif_args.push("-y".to_owned());
    gif_args.push(output_path.clone());
    proof {
        assert(views_of(gif_args@) =~= gif_args_seq(
            temp_mp4@,
            palette_path@,
            *quality,
            output_path@,
        ));
    }
    GifPlan { temp_mp4, palette_path, palette_args, gif_args }
}

// ─── segment concatenation ───

/// One character of a path between single quotes in the concat list:
/// a quote closes, escapes and reopens.
pub open spec fn quote_char_seq(c: char) -> Seq<char> {
    if c == '\'' {
        "'\\''"@
    } else {
        seq![c]
    }
}

/// A path quoted for the concat list.
pub open spec fn quote_path_seq(s: Seq<char>) -> Seq<char>
    decreases s.len(),
{
    if s.len() == 0 {
        Seq::<char>::empty()
    } else {
        quote_char_seq(s[0]) + quote_path_seq(s.skip(1))
    }
}

proof fn lemma_quote_path_push(s: Seq<char>, c: char)
    ensures
        quote_path_seq(s.push(c)) == quote_path_seq(s) + quote_char_seq(c),
    decreases s.len(),
{
    assert(s.push(c)[0] == if s.len() == 0 {
        c
    } else {
        s[0]
    });
    if s.len() == 0 {
        assert(s.push(c).skip(1) =~= Seq::<char>::empty());
        assert(quote_path_seq(s.push(c)) == quote_char_seq(c) + quote_path_seq(
            Seq::<char>::empty(),
        ));
        assert(quote_path_seq(s.push(c)) =~= quote_path_seq(s) + quote_char_seq(c));
    } else {
        assert(s.push(c).skip(1) =~= s.skip(1).push(c));
        lemma_quote_path_push(s.skip(1), c);
        assert(quote_path_seq(s.push(c)) =~= quote_path_seq(s) + quote_char_seq(c));
    }
}

fn quote_path(path: &str) -> (r: String)
    ensures
        r@ == quote_path_seq(path@),
{
    let n = path.unicode_len();
    let mut out = String::new();
    let mut i: usize = 0;
    while i < n
        invariant
            n == path@.len(),
            i <= n,
            out@ == quote_path_seq(path@.take(i as int)),
        decreases n - i,
    {
        let c = path.get_char(i);
        proof {
            assert(path@.take(i + 1 as int) =~= path@.take(i as int).push(path@[i as int]));
            lemma_quote_path_push(path@.take(i as int), path@[i as int]);
        }
        if c == '\'' {
            out.append("'\\''");
        } else {
            crate::escape::push_char(&mut out, c);
        }
        i = i + 1;
    }
    proof {
        assert(path@.take(n as int) =~= path@);
    }
    out
}

/// The line-oriented list the concat demuxer reads: one quoted path per
/// existing segment.
pub open spec fn concat_list_seq(segments: Seq<String>, seg_exists: Seq<bool>, upto: int) -> Seq<
    char,
>
    decreases upto,
{
    if upto <= 0 {
        Seq::<char>::empty()
    } else {
        concat_list_seq(segments, seg_exists, upto - 1) + if seg_exists[upto - 1] {
            "file '"@ + quote_path_seq(segments[upto - 1]@) + "'\n"@
        } else {
            Seq::<char>::empty()
        }
    }
}

/// The stream-copy concat invocation over a list file.
pub open spec fn concat_args_seq(list_path: Seq<char>, output: Seq<char>) -> Seq<Seq<char>> {
    seq![
        "-f"@,
        "concat"@,
        "-safe"@,
        "0"@,
        "-i"@,
        list_path,
        "-c"@,
        "copy"@,
        "-y"@,
        output,
    ]
}

/// How a segment list becomes one file.
#[derive(Debug)]
pub enum ConcatPlan {
    /// A single segment is copied directly.
    Copy { from: String, to: String },
    /// Several segments go through the demuxer: write the list file,
    /// run the invocation, remove the list file whatever the outcome.
    Run { list_path: String, list_content: String, args: Vec<String> },
}

/// Plan the concatenation of a session's segments into one file.
/// `seg_exists` says which segment files are still on disk; only those
/// enter the list.
pub fn concat_segments_plan(
    segments: &Vec<String>,
    seg_exists: &Vec<bool>,
    output: &String,
) -> (r: Result<ConcatPlan, String>)
    requires
        seg_exists@.len() == segments@.len(),
    ensures
        r is Ok <==> segments@.len() > 0,
        r matches Err(e) ==> e@ == "Aucun segment \u{e0} concat\u{e9}ner"@,
        segments@.len() == 1 ==> (r matches Ok(p) && p matches ConcatPlan::Copy { from, to }
            && from == segments@[0] && to@ == output@),
        segments@.len() > 1 ==> (r matches Ok(p) && p matches ConcatPlan::Run {
            list_path,
            list_content,
            args,
        } && list_path@ == with_extension_spec(output@, "txt"@) && list_content@
            == concat_list_seq(segments@, seg_exists@, segments@.len() as int) && views_of(args@)
            == concat_args_seq(list_path@, output@)),
{
    let n = segments.len();
    if n == 0 {
        return Result::Err("Aucun segment \u{e0} concat\u{e9}ner".to_owned());
    }
    if n == 1 {
        return Result::Ok(ConcatPlan::Copy { from: segments[0].clone(), to: output.clone() });
    }
    let list_path = with_extension(output.as_str(), "txt");
    let mut content = String::new();
    let mut i: usize = 0;
    while i < n
        invariant
            n == segments@.len(),
            seg_exists@.len() == n,
            i <= n,
            content@ == concat_list_seq(segments@, seg_exists@, i as int),
        decreases n - i,
    {
        if seg_exists[i] {
            content.append("file '");
            content.append(quote_path(segments[i].as_str()).as_str());
            content.append("'\n");
            proof {
                assert(content@ =~= concat_list_seq(segments@, seg_exists@, i + 1 as int));
            }
        }
        i = i + 1;
    }
    let mut args: Vec<String> = Vec::new();
    args.push("-f".to_owned());
    args.push("concat".to_owned());
    args.push("-safe".to_owned());
    args.push("0".to_owned());
    args.push("-i".to_owned());
    args.push(list_path.clone());
    args.push("-c".to_owned());
    args.push("copy".to_owned());
    args.push("-y".to_owned());
    args.push(output.clone());
    proof {
        assert(views_of(args@) =~= concat_args_seq(list_path@, output@));
    }
    Result::Ok(ConcatPlan::Run { list_path, list_content: content, args })
}

} // verus!






