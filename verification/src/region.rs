//! Region normalization: clamp a user-selected capture rectangle to
//! device- and codec-valid bounds.

use vstd::prelude::*;
use crate::types::Region;

verus! {

/// The width the region keeps after a negative x origin is folded in:
/// the overshoot is taken out of the width, which is then held at 2 or
/// more and floored to an even number.
pub open spec fn clamped_dim(origin: int, dim: int) -> int {
    let adjusted = if origin < 0 { dim + origin } else { dim };
    let held = if adjusted < 2 { 2int } else { adjusted };
    held - held % 2
}

/// Clamp a capture rectangle so the encoder accepts it: non-negative
/// origin, even dimensions of at least 2. A negative origin coordinate
/// shrinks the corresponding dimension by the overshoot before the origin
/// is zeroed, so the visible sub-rectangle is preserved rather than
/// shifted.
pub fn clamp_region(region: &Region) -> (r: Region)
    ensures
        r.x == if region.x < 0 { 0int } else { region.x as int },
        r.y == if region.y < 0 { 0int } else { region.y as int },
        r.width == clamped_dim(region.x as int, region.width as int),
        r.height == clamped_dim(region.y as int, region.height as int),
        r.width % 2 == 0 && r.height % 2 == 0,
        r.width >= 2 && r.height >= 2,
{
    let mut w: i64 = region.width as i64;
    let mut h: i64 = region.height as i64;
    let mut x = region.x;
    let mut y = region.y;

    if x < 0 {
        w = w + x as i64;
        x = 0;
    }
    if y < 0 {
        h = h + y as i64;
        y = 0;
    }

    if w < 2 {
        w = 2;
    }
    if h < 2 {
        h = 2;
    }

    let w = (w - w % 2) as u32;
    let h = (h - h % 2) as u32;

    Region { x, y, width: w, height: h }
}

} // verus!
