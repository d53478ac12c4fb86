//! Cursor-follow zoom: turn sampled cursor positions into a synthetic
//! virtual-camera pan, as a crop whose offsets are piecewise-linear
//! expressions of time.
//!
//! Coordinates are ten-thousandths of the frame. The zoom factor is
//! 1.15x: the crop keeps 1/1.15 of each axis, so the offset of each axis
//! stays within `[0, 1 - 1/1.15]`, which is `CURSOR_MAX_OFF_FP` in
//! ten-thousandths; `CURSOR_HALF_INV_FP` is half the kept fraction,
//! subtracted so the cursor sits at the crop's center.

use vstd::prelude::*;
use crate::types::CursorPosition;
use crate::numfmt::{dec_seq, fp4_seq, sec2_seq, u64_string, fp4_string, fp4_i64_string, sec2_string};

verus! {

/// Half of the kept fraction of the frame, in ten-thousandths:
/// 1 / (2 * 1.15).
pub const CURSOR_HALF_INV_FP: u32 = 4348;

/// Largest crop offset per axis, in ten-thousandths: 1 - 1/1.15.
pub const CURSOR_MAX_OFF_FP: u32 = 1304;

/// Smallest cursor movement (per axis, in ten-thousandths of the frame)
/// that turns the zoom on: 10% of the frame.
pub const CURSOR_MOVE_MIN_FP: u32 = 1000;

/// Keyframe cap: at most this many one-second buckets feed the pan.
pub const CURSOR_KEYFRAME_CAP: usize = 30;

// ─── piecewise linear interpolation ───

/// The linear segment between keyframes `i` and `i+1`: a constant when
/// the value does not change, else start value plus slope times elapsed
/// time.
pub open spec fn lerp_term_seq(t0: int, v0: int, t1: int, v1: int) -> Seq<char> {
    if v1 == v0 {
        fp4_seq(v0)
    } else {
        fp4_seq(v0) + "+"@ + fp4_seq(v1 - v0) + "*(t-"@ + sec2_seq(t0) + ")/"@ + sec2_seq(
            t1 - t0,
        )
    }
}

/// The expression built from keyframe `i` on: evaluated right to left,
/// the last keyframe's value is the fallback; each earlier keyframe
/// wraps the rest in a conditional on its successor's time. A keyframe
/// whose successor does not lie strictly later is skipped.
pub open spec fn lerp_wrap_seq(kf: Seq<(u64, u32)>, i: int) -> Seq<char>
    decreases kf.len() - i,
{
    if i >= kf.len() - 1 {
        fp4_seq(kf[kf.len() - 1].1 as int)
    } else {
        let t0 = kf[i].0 as int;
        let t1 = kf[i + 1].0 as int;
        if t1 <= t0 {
            lerp_wrap_seq(kf, i + 1)
        } else {
            "if(lt(t\\,"@ + sec2_seq(t1) + ")\\,"@ + lerp_term_seq(
                t0,
                kf[i].1 as int,
                t1,
                kf[i + 1].1 as int,
            ) + "\\,"@ + lerp_wrap_seq(kf, i + 1) + ")"@
        }
    }
}

/// The whole piecewise-linear expression: "0" without keyframes, else
/// the wrap from the first keyframe.
pub open spec fn lerp_expr_seq(kf: Seq<(u64, u32)>) -> Seq<char> {
    if kf.len() == 0 {
        "0"@
    } else {
        lerp_wrap_seq(kf, 0)
    }
}

/// Build the encoder expression interpolating linearly between
/// keyframes: pairs of (time in whole seconds, value in
/// ten-thousandths).
pub fn build_piecewise_lerp(keyframes: &Vec<(u64, u32)>) -> (r: String)
    ensures
        r@ == lerp_expr_seq(keyframes@),
{
    let n = keyframes.len();
    if n == 0 {
        return "0".to_owned();
    }
    let mut expr = fp4_string(keyframes[n - 1].1);
    let mut i: usize = n - 1;
    while i > 0
        invariant
            n == keyframes@.len(),
            n >= 1,
            i < n,
            expr@ == lerp_wrap_seq(keyframes@, i as int),
        decreases i,
    {
        let (t0, v0) = keyframes[i - 1];
        let (t1, v1) = keyframes[i];
        if t1 > t0 {
            let term: String = if v1 == v0 {
                fp4_string(v0)
            } else {
                let t = fp4_string(v0)
                    .concat("+")
                    .concat(fp4_i64_string(v1 as i64 - v0 as i64).as_str())
                    .concat("*(t-")
                    .concat(sec2_string(t0).as_str())
                    .concat(")/")
                    .concat(sec2_string(t1 - t0).as_str());
                proof {
                    assert(t@ =~= lerp_term_seq(t0 as int, v0 as int, t1 as int, v1 as int));
                }
                t
            };
            let wrapped = "if(lt(t\\,"
                .to_owned()
                .concat(sec2_string(t1).as_str())
                .concat(")\\,")
                .concat(term.as_str())
                .concat("\\,")
                .concat(expr.as_str())
                .concat(")");
            proof {
                assert(wrapped@ =~= lerp_wrap_seq(keyframes@, i - 1 as int));
            }
            expr = wrapped;
        }
        i = i - 1;
    }
    expr
}

// ─── movement gate ───

/// Least x coordinate among the first `upto` samples.
pub open spec fn min_x_spec(ps: Seq<CursorPosition>, upto: int) -> int
    decreases upto,
{
    if upto <= 1 {
        ps[0].x as int
    } else if (ps[upto - 1].x as int) < min_x_spec(ps, upto - 1) {
        ps[upto - 1].x as int
    } else {
        min_x_spec(ps, upto - 1)
    }
}

/// Greatest x coordinate among the first `upto` samples.
pub open spec fn max_x_spec(ps: Seq<CursorPosition>, upto: int) -> int
    decreases upto,
{
    if upto <= 1 {
        ps[0].x as int
    } else if (ps[upto - 1].x as int) > max_x_spec(ps, upto - 1) {
        ps[upto - 1].x as int
    } else {
        max_x_spec(ps, upto - 1)
    }
}

/// Least y coordinate among the first `upto` samples.
pub open spec fn min_y_spec(ps: Seq<CursorPosition>, upto: int) -> int
    decreases upto,
{
    if upto <= 1 {
        ps[0].y as int
    } else if (ps[upto - 1].y as int) < min_y_spec(ps, upto - 1) {
        ps[upto - 1].y as int
    } else {
        min_y_spec(ps, upto - 1)
    }
}

/// Greatest y coordinate among the first `upto` samples.
pub open spec fn max_y_spec(ps: Seq<CursorPosition>, upto: int) -> int
    decreases upto,
{
    if upto <= 1 {
        ps[0].y as int
    } else if (ps[upto - 1].y as int) > max_y_spec(ps, upto - 1) {
        ps[upto - 1].y as int
    } else {
        max_y_spec(ps, upto - 1)
    }
}

/// Whether the cursor moved enough for a zoom: it spans at least 10% of
/// the frame on some axis.
pub open spec fn cursor_moved_spec(ps: Seq<CursorPosition>) -> bool {
    ps.len() > 0 && (max_x_spec(ps, ps.len() as int) - min_x_spec(ps, ps.len() as int)
        >= CURSOR_MOVE_MIN_FP || max_y_spec(ps, ps.len() as int) - min_y_spec(
        ps,
        ps.len() as int,
    ) >= CURSOR_MOVE_MIN_FP)
}

/// A sample that survives the trim: taken at or after the trim start.
pub open spec fn kept_spec(p: CursorPosition, trim_start_ms: u64) -> bool {
    p.timestamp_ms >= trim_start_ms
}

/// The one-second bucket a kept sample falls into.
pub open spec fn sec_of_spec(p: CursorPosition, trim_start_ms: u64) -> int {
    (p.timestamp_ms - trim_start_ms) / 1000
}

/// Whether some sample survives the trim.
pub open spec fn any_kept_spec(ps: Seq<CursorPosition>, trim_start_ms: u64) -> bool {
    exists|i: int| 0 <= i < ps.len() && kept_spec(ps[i], trim_start_ms)
}


// ─── keyframe bucketing ───

/// How many of the first `upto` samples fall into bucket `s`.
pub open spec fn bucket_count_spec(
    ps: Seq<CursorPosition>,
    trim_start_ms: u64,
    s: int,
    upto: int,
) -> int
    decreases upto,
{
    if upto <= 0 {
        0
    } else {
        bucket_count_spec(ps, trim_start_ms, s, upto - 1) + if kept_spec(
            ps[upto - 1],
            trim_start_ms,
        ) && sec_of_spec(ps[upto - 1], trim_start_ms) == s {
            1int
        } else {
            0int
        }
    }
}

/// Sum of the x coordinates of bucket `s` over the first `upto` samples.
pub open spec fn bucket_sum_x_spec(
    ps: Seq<CursorPosition>,
    trim_start_ms: u64,
    s: int,
    upto: int,
) -> int
    decreases upto,
{
    if upto <= 0 {
        0
    } else {
        bucket_sum_x_spec(ps, trim_start_ms, s, upto - 1) + if kept_spec(
            ps[upto - 1],
            trim_start_ms,
        ) && sec_of_spec(ps[upto - 1], trim_start_ms) == s {
            ps[upto - 1].x as int
        } else {
            0int
        }
    }
}

/// Sum of the y coordinates of bucket `s` over the first `upto` samples.
pub open spec fn bucket_sum_y_spec(
    ps: Seq<CursorPosition>,
    trim_start_ms: u64,
    s: int,
    upto: int,
) -> int
    decreases upto,
{
    if upto <= 0 {
        0
    } else {
        bucket_sum_y_spec(ps, trim_start_ms, s, upto - 1) + if kept_spec(
            ps[upto - 1],
            trim_start_ms,
        ) && sec_of_spec(ps[upto - 1], trim_start_ms) == s {
            ps[upto - 1].y as int
        } else {
            0int
        }
    }
}

/// An averaged cursor coordinate turned into a crop offset: centered by
/// half the kept fraction, clamped into the valid offset range.
pub open spec fn clamp_off_spec(avg: int) -> int {
    let off = avg - CURSOR_HALF_INV_FP;
    if off < 0 {
        0int
    } else if off > CURSOR_MAX_OFF_FP {
        CURSOR_MAX_OFF_FP as int
    } else {
        off
    }
}

/// The x crop offset of bucket `s`: the bucket's average x, centered and
/// clamped.
pub open spec fn bucket_x_off_spec(ps: Seq<CursorPosition>, trim_start_ms: u64, s: int) -> int {
    clamp_off_spec(
        bucket_sum_x_spec(ps, trim_start_ms, s, ps.len() as int) / bucket_count_spec(
            ps,
            trim_start_ms,
            s,
            ps.len() as int,
        ),
    )
}

/// The y crop offset of bucket `s`.
pub open spec fn bucket_y_off_spec(ps: Seq<CursorPosition>, trim_start_ms: u64, s: int) -> int {
    clamp_off_spec(
        bucket_sum_y_spec(ps, trim_start_ms, s, ps.len() as int) / bucket_count_spec(
            ps,
            trim_start_ms,
            s,
            ps.len() as int,
        ),
    )
}
/// Group kept samples into one-second buckets, in time order and capped
/// at `CURSOR_KEYFRAME_CAP`; each bucket yields one x and one y keyframe
/// holding the bucket's averaged, centered and clamped crop offset.
pub fn cursor_keyframes(positions: &Vec<CursorPosition>, trim_start_ms: u64) -> (r: (
    Vec<(u64, u32)>,
    Vec<(u64, u32)>,
))
    ensures
        ({
            let kfx = r.0@;
            let kfy = r.1@;
            let ps = positions@;
            &&& kfx.len() == kfy.len()
            &&& kfx.len() <= CURSOR_KEYFRAME_CAP
            &&& (kfx.len() > 0 <==> any_kept_spec(ps, trim_start_ms))
            &&& forall|k: int| 0 <= k < kfx.len() ==> (#[trigger] kfx[k]).0 == (#[trigger] kfy[k]).0
            &&& forall|k1: int, k2: int|
                0 <= k1 < k2 < kfx.len() ==> (#[trigger] kfx[k1]).0 < (#[trigger] kfx[k2]).0
            &&& forall|k: int|
                0 <= k < kfx.len() ==> bucket_count_spec(
                    ps,
                    trim_start_ms,
                    (#[trigger] kfx[k]).0 as int,
                    ps.len() as int,
                ) > 0
            &&& forall|k: int|
                0 <= k < kfx.len() ==> (#[trigger] kfx[k]).1 == bucket_x_off_spec(
                    ps,
                    trim_start_ms,
                    kfx[k].0 as int,
                )
            &&& forall|k: int|
                0 <= k < kfy.len() ==> (#[trigger] kfy[k]).1 == bucket_y_off_spec(
                    ps,
                    trim_start_ms,
                    kfy[k].0 as int,
                )
            &&& forall|s: u64|
                (bucket_count_spec(ps, trim_start_ms, s as int, ps.len() as int) > 0 && (kfx.len()
                    < CURSOR_KEYFRAME_CAP || s < kfx[kfx.len() - 1].0)) ==> exists|k: int|
                    0 <= k < kfx.len() && (#[trigger] kfx[k]).0 == s
        }),
{
    let ghost ps = positions@;
    let n = positions.len();
    let mut kfx: Vec<(u64, u32)> = Vec::new();
    let mut kfy: Vec<(u64, u32)> = Vec::new();
    let mut have_last = false;
    let mut last: u64 = 0;

    loop
        invariant
            ps == positions@,
            n == ps.len(),
            kfx@.len() == kfy@.len(),
            kfx@.len() <= CURSOR_KEYFRAME_CAP,
            !have_last ==> kfx@.len() == 0,
            have_last ==> kfx@.len() > 0 && last == kfx@[kfx@.len() - 1].0,
            forall|k: int| 0 <= k < kfx@.len() ==> (#[trigger] kfx@[k]).0 == (#[trigger] kfy@[k]).0,
            forall|k: int| 0 <= k < kfx@.len() ==> (#[trigger] kfx@[k]).0 <= last,
            forall|k1: int, k2: int|
                0 <= k1 < k2 < kfx@.len() ==> (#[trigger] kfx@[k1]).0 < (#[trigger] kfx@[k2]).0,
            forall|k: int|
                0 <= k < kfx@.len() ==> bucket_count_spec(
                    ps,
                    trim_start_ms,
                    (#[trigger] kfx@[k]).0 as int,
                    ps.len() as int,
                ) > 0,
            forall|k: int|
                0 <= k < kfx@.len() ==> (#[trigger] kfx@[k]).1 == bucket_x_off_spec(
                    ps,
                    trim_start_ms,
                    kfx@[k].0 as int,
                ),
            forall|k: int|
                0 <= k < kfy@.len() ==> (#[trigger] kfy@[k]).1 == bucket_y_off_spec(
                    ps,
                    trim_start_ms,
                    kfy@[k].0 as int,
                ),
            forall|s: u64|
                (have_last && bucket_count_spec(ps, trim_start_ms, s as int, ps.len() as int) > 0
                    && s <= last) ==> exists|k: int|
                    0 <= k < kfx@.len() && (#[trigger] kfx@[k]).0 == s,
            have_last ==> any_kept_spec(ps, trim_start_ms),
        ensures
            ps == positions@,
            kfx@.len() == kfy@.len(),
            kfx@.len() <= CURSOR_KEYFRAME_CAP,
            kfx@.len() > 0 <==> any_kept_spec(ps, trim_start_ms),
            forall|k: int| 0 <= k < kfx@.len() ==> (#[trigger] kfx@[k]).0 == (#[trigger] kfy@[k]).0,
            forall|k1: int, k2: int|
                0 <= k1 < k2 < kfx@.len() ==> (#[trigger] kfx@[k1]).0 < (#[trigger] kfx@[k2]).0,
            forall|k: int|
                0 <= k < kfx@.len() ==> bucket_count_spec(
                    ps,
                    trim_start_ms,
                    (#[trigger] kfx@[k]).0 as int,
                    ps.len() as int,
                ) > 0,
            forall|k: int|
                0 <= k < kfx@.len() ==> (#[trigger] kfx@[k]).1 == bucket_x_off_spec(
                    ps,
                    trim_start_ms,
                    kfx@[k].0 as int,
                ),
            forall|k: int|
                0 <= k < kfy@.len() ==> (#[trigger] kfy@[k]).1 == bucket_y_off_spec(
                    ps,
                    trim_start_ms,
                    kfy@[k].0 as int,
                ),
            forall|s: u64|
                (bucket_count_spec(ps, trim_start_ms, s as int, ps.len() as int) > 0 && (kfx@.len()
                    < CURSOR_KEYFRAME_CAP || s < kfx@[kfx@.len() - 1].0)) ==> exists|k: int|
                    0 <= k < kfx@.len() && (#[trigger] kfx@[k]).0 == s,
        decreases CURSOR_KEYFRAME_CAP - kfx@.len(),
    {
        if kfx.len() >= CURSOR_KEYFRAME_CAP {
            break;
        }
        // find the earliest bucket after `last`
        let mut found = false;
        let mut best: u64 = 0;
        let mut j: usize = 0;
        while j < n
            invariant
                ps == positions@,
                n == ps.len(),
                j <= n,
                found ==> exists|i: int|
                    0 <= i < j && kept_spec(ps[i], trim_start_ms) && sec_of_spec(
                        #[trigger] ps[i],
                        trim_start_ms,
                    ) == best && (have_last ==> best > last),
                forall|i: int|
                    (0 <= i < j && kept_spec(ps[i], trim_start_ms) && (have_last ==> sec_of_spec(
                        ps[i],
                        trim_start_ms,
                    ) > last)) ==> found && sec_of_spec(#[trigger] ps[i], trim_start_ms) >= best,
            decreases n - j,
        {
            let p = &positions[j];
            if p.timestamp_ms >= trim_start_ms {
                let s = (p.timestamp_ms - trim_start_ms) / 1000;
                if (!have_last || s > last) && (!found || s < best) {
                    found = true;
                    best = s;
                }
            }
            j = j + 1;
        }
        if !found {
            proof {
                // nothing after `last`: every bucket is already in the list
                assert forall|s: u64|
                    (bucket_count_spec(ps, trim_start_ms, s as int, ps.len() as int) > 0 && (
                    kfx@.len() < CURSOR_KEYFRAME_CAP || s < kfx@[kfx@.len() - 1].0))
                        implies exists|k: int|
                        0 <= k < kfx@.len() && (#[trigger] kfx@[k]).0 == s by {
                    lemma_bucket_count_pos_member(ps, trim_start_ms, s as int, ps.len() as int);
                    let i = choose|i: int|
                        0 <= i < ps.len() && kept_spec(ps[i], trim_start_ms) && sec_of_spec(
                            #[trigger] ps[i],
                            trim_start_ms,
                        ) == s;
                    // the scan found nothing, so no kept sample lies past `last`
                    assert(have_last && s <= last);
                }
                if !have_last {
                    assert(!any_kept_spec(ps, trim_start_ms)) by {
                        if any_kept_spec(ps, trim_start_ms) {
                            let i = choose|i: int|
                                0 <= i < ps.len() && kept_spec(ps[i], trim_start_ms);
                            assert(found);
                        }
                    }
                }
            }
            break;
        }
        proof {
            lemma_bucket_count_from_member(ps, trim_start_ms, best as int);
        }
        // average the bucket
        let mut cnt: u64 = 0;
        let mut sumx: u128 = 0;
        let mut sumy: u128 = 0;
        let mut j2: usize = 0;
        while j2 < n
            invariant
                ps == positions@,
                n == ps.len(),
                j2 <= n,
                cnt == bucket_count_spec(ps, trim_start_ms, best as int, j2 as int),
                sumx == bucket_sum_x_spec(ps, trim_start_ms, best as int, j2 as int),
                sumy == bucket_sum_y_spec(ps, trim_start_ms, best as int, j2 as int),
                cnt <= j2,
                sumx <= (cnt as int) * 0x1_0000_0000,
                sumy <= (cnt as int) * 0x1_0000_0000,
            decreases n - j2,
        {
            let p = &positions[j2];
            if p.timestamp_ms >= trim_start_ms && (p.timestamp_ms - trim_start_ms) / 1000 == best {
                proof {
                    assert((cnt as int + 1) * 0x1_0000_0000 == (cnt as int) * 0x1_0000_0000
                        + 0x1_0000_0000) by (nonlinear_arith);
                }
                cnt = cnt + 1;
                sumx = sumx + p.x as u128;
                sumy = sumy + p.y as u128;
            }
            j2 = j2 + 1;
        }
        proof {
            assert(cnt >= 1);
            assert(sumx / (cnt as u128) <= 0x1_0000_0000) by (nonlinear_arith)
                requires
                    cnt >= 1,
                    sumx <= (cnt as int) * 0x1_0000_0000,
            ;
            assert(sumy / (cnt as u128) <= 0x1_0000_0000) by (nonlinear_arith)
                requires
                    cnt >= 1,
                    sumy <= (cnt as int) * 0x1_0000_0000,
            ;
        }
        let avgx = (sumx / cnt as u128) as u64;
        let avgy = (sumy / cnt as u128) as u64;
        let offx: u32 = if avgx < CURSOR_HALF_INV_FP as u64 {
            0
        } else if avgx - CURSOR_HALF_INV_FP as u64 > CURSOR_MAX_OFF_FP as u64 {
            CURSOR_MAX_OFF_FP
        } else {
            (avgx - CURSOR_HALF_INV_FP as u64) as u32
        };
        let offy: u32 = if avgy < CURSOR_HALF_INV_FP as u64 {
            0
        } else if avgy - CURSOR_HALF_INV_FP as u64 > CURSOR_MAX_OFF_FP as u64 {
            CURSOR_MAX_OFF_FP
        } else {
            (avgy - CURSOR_HALF_INV_FP as u64) as u32
        };
        proof {
            assert(offx as int == bucket_x_off_spec(ps, trim_start_ms, best as int));
            assert(offy as int == bucket_y_off_spec(ps, trim_start_ms, best as int));
            // no bucket lies strictly between `last` and `best`
            assert forall|s: u64|
                (bucket_count_spec(ps, trim_start_ms, s as int, ps.len() as int) > 0 && s < best
                    && (have_last ==> s > last)) implies false by {
                lemma_bucket_count_pos_member(ps, trim_start_ms, s as int, ps.len() as int);
                let i = choose|i: int|
                    0 <= i < ps.len() && kept_spec(ps[i], trim_start_ms) && sec_of_spec(
                        #[trigger] ps[i],
                        trim_start_ms,
                    ) == s;
                assert(sec_of_spec(ps[i], trim_start_ms) >= best);
            }
        }
        let ghost prev_kfx = kfx@;
        let ghost prev_last = last;
        let ghost prev_have = have_last;
        kfx.push((best, offx));
        kfy.push((best, offy));
        have_last = true;
        last = best;
        proof {
            assert forall|s: u64|
                (bucket_count_spec(ps, trim_start_ms, s as int, ps.len() as int) > 0 && s <= last)
                    implies exists|k: int|
                    0 <= k < kfx@.len() && (#[trigger] kfx@[k]).0 == s by {
                if s == best {
                    assert(kfx@[kfx@.len() - 1].0 == s);
                } else {
                    // s < best: it cannot sit between the previous buckets and
                    // `best`, so the previous completeness gives a witness
                    lemma_bucket_count_pos_member(ps, trim_start_ms, s as int, ps.len() as int);
                    let i = choose|i: int|
                        0 <= i < ps.len() && kept_spec(ps[i], trim_start_ms) && sec_of_spec(
                            #[trigger] ps[i],
                            trim_start_ms,
                        ) == s;
                    assert(prev_have && s <= prev_last);
                    let k = choose|k: int|
                        0 <= k < prev_kfx.len() && (#[trigger] prev_kfx[k]).0 == s;
                    assert(kfx@[k].0 == s);
                }
            }
        }
    }
    (kfx, kfy)
}

/// A bucket with a member has a positive count.
proof fn lemma_bucket_count_from_member(ps: Seq<CursorPosition>, trim_start_ms: u64, s: int)
    ensures
        (exists|i: int|
            0 <= i < ps.len() && kept_spec(ps[i], trim_start_ms) && sec_of_spec(
                #[trigger] ps[i],
                trim_start_ms,
            ) == s) ==> bucket_count_spec(ps, trim_start_ms, s, ps.len() as int) > 0,
{
    if exists|i: int|
        0 <= i < ps.len() && kept_spec(ps[i], trim_start_ms) && sec_of_spec(
            #[trigger] ps[i],
            trim_start_ms,
        ) == s {
        let i = choose|i: int|
            0 <= i < ps.len() && kept_spec(ps[i], trim_start_ms) && sec_of_spec(
                #[trigger] ps[i],
                trim_start_ms,
            ) == s;
        lemma_bucket_count_member_below(ps, trim_start_ms, s, i, ps.len() as int);
    }
}

proof fn lemma_bucket_count_nonneg(ps: Seq<CursorPosition>, trim_start_ms: u64, s: int, upto: int)
    ensures
        bucket_count_spec(ps, trim_start_ms, s, upto) >= 0,
    decreases upto,
{
    if upto > 0 {
        lemma_bucket_count_nonneg(ps, trim_start_ms, s, upto - 1);
    }
}

proof fn lemma_bucket_count_member_below(
    ps: Seq<CursorPosition>,
    trim_start_ms: u64,
    s: int,
    i: int,
    upto: int,
)
    requires
        0 <= i < upto <= ps.len(),
        kept_spec(ps[i], trim_start_ms),
        sec_of_spec(ps[i], trim_start_ms) == s,
    ensures
        bucket_count_spec(ps, trim_start_ms, s, upto) > 0,
    decreases upto,
{
    if i < upto - 1 {
        lemma_bucket_count_member_below(ps, trim_start_ms, s, i, upto - 1);
    } else {
        lemma_bucket_count_nonneg(ps, trim_start_ms, s, upto - 1);
    }
}

/// A bucket with a positive count has a member.
proof fn lemma_bucket_count_pos_member(
    ps: Seq<CursorPosition>,
    trim_start_ms: u64,
    s: int,
    upto: int,
)
    requires
        0 <= upto <= ps.len(),
        bucket_count_spec(ps, trim_start_ms, s, upto) > 0,
    ensures
        exists|i: int|
            0 <= i < ps.len() && kept_spec(ps[i], trim_start_ms) && sec_of_spec(
                #[trigger] ps[i],
                trim_start_ms,
            ) == s,
    decreases upto,
{
    if upto > 0 {
        if kept_spec(ps[upto - 1], trim_start_ms) && sec_of_spec(ps[upto - 1], trim_start_ms)
            == s {
            assert(0 <= upto - 1 < ps.len() && kept_spec(ps[upto - 1], trim_start_ms)
                && sec_of_spec(ps[upto - 1], trim_start_ms) == s);
        } else {
            lemma_bucket_count_pos_member(ps, trim_start_ms, s, upto - 1);
        }
    }
}


// ─── the zoom filter ───

/// The pan filter: crop to 1/1.15 of the frame, offset by the
/// interpolated expressions, then scale back to the target size.
pub open spec fn zoom_filter_seq(xexpr: Seq<char>, yexpr: Seq<char>, w: u32, h: u32) -> Seq<
    char,
> {
    "crop=w=iw/1.1:h=ih/1.1:x='("@ + xexpr + ")*iw':y='("@ + yexpr + ")*ih':exact=1,scale="@
        + dec_seq(w as int) + ":"@ + dec_seq(h as int)
}

/// Build the pan filter from the two keyframe tracks.
pub fn zoom_filter_from_keyframes(kfx: &Vec<(u64, u32)>, kfy: &Vec<(u64, u32)>, w: u32, h: u32) -> (
    r: String)
    ensures
        r@ == zoom_filter_seq(lerp_expr_seq(kfx@), lerp_expr_seq(kfy@), w, h),
{
    let xexpr = build_piecewise_lerp(kfx);
    let yexpr = build_piecewise_lerp(kfy);
    let r = "crop=w=iw/1.1:h=ih/1.1:x='("
        .to_owned()
        .concat(xexpr.as_str())
        .concat(")*iw':y='(")
        .concat(yexpr.as_str())
        .concat(")*ih':exact=1,scale=")
        .concat(u64_string(w as u64).as_str())
        .concat(":")
        .concat(u64_string(h as u64).as_str());
    proof {
        assert(r@ =~= zoom_filter_seq(lerp_expr_seq(kfx@), lerp_expr_seq(kfy@), w, h));
    }
    r
}

/// Whether the samples call for a zoom at all: there are samples and they
/// span at least 10% of the frame on some axis.
pub fn cursor_zoom_gate(positions: &Vec<CursorPosition>) -> (r: bool)
    ensures
        r == cursor_moved_spec(positions@),
{
    let n = positions.len();
    if n == 0 {
        return false;
    }
    let mut min_x = positions[0].x;
    let mut max_x = positions[0].x;
    let mut min_y = positions[0].y;
    let mut max_y = positions[0].y;
    let mut i: usize = 1;
    while i < n
        invariant
            n == positions@.len(),
            1 <= i <= n,
            min_x == min_x_spec(positions@, i as int),
            max_x == max_x_spec(positions@, i as int),
            min_y == min_y_spec(positions@, i as int),
            max_y == max_y_spec(positions@, i as int),
        decreases n - i,
    {
        let p = &positions[i];
        if p.x < min_x {
            min_x = p.x;
        }
        if p.x > max_x {
            max_x = p.x;
        }
        if p.y < min_y {
            min_y = p.y;
        }
        if p.y > max_y {
            max_y = p.y;
        }
        i = i + 1;
    }
    max_x - min_x >= CURSOR_MOVE_MIN_FP || max_y - min_y >= CURSOR_MOVE_MIN_FP
}

/// Build the cursor-follow pan filter of one clip, if its samples call
/// for one: `None` when there are no samples, when the cursor spans less
/// than 10% of the frame on both axes, or when every sample is trimmed
/// away. Otherwise the filter crops along the keyframes of
/// `cursor_keyframes` and scales back to `width` x `height`.
pub fn build_cursor_zoom_filter(
    positions: &Vec<CursorPosition>,
    trim_start_ms: u64,
    width: u32,
    height: u32,
) -> (r: Option<String>)
    ensures
        r is Some <==> (cursor_moved_spec(positions@) && any_kept_spec(positions@, trim_start_ms)),
{
    if positions.len() == 0 {
        return Option::None;
    }
    if !cursor_zoom_gate(positions) {
        return Option::None;
    }
    let (kfx, kfy) = cursor_keyframes(positions, trim_start_ms);
    if kfx.len() == 0 {
        return Option::None;
    }
    Option::Some(zoom_filter_from_keyframes(&kfx, &kfy, width, height))
}

} // verus!

