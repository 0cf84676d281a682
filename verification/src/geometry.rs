//! Axis-aligned boxes in pixel space and their overlap.

use vstd::prelude::*;

verus! {

/// An axis-aligned box: the pixels `(px, py)` with `x <= px < x + w` and
/// `y <= py < y + h`.
pub struct Rect {
    pub x: int,
    pub y: int,
    pub w: int,
    pub h: int,
}

/// Whether the intervals `[a1, a2)` and `[b1, b2)` overlap.
pub open spec fn intervals_overlap(a1: int, a2: int, b1: int, b2: int) -> bool {
    a1 < b2 && b1 < a2
}

/// Whether two boxes overlap: their intervals overlap on both axes.
pub open spec fn rects_overlap(a: Rect, b: Rect) -> bool {
    intervals_overlap(a.x, a.x + a.w, b.x, b.x + b.w) && intervals_overlap(
        a.y,
        a.y + a.h,
        b.y,
        b.y + b.h,
    )
}

/// Whether the intervals `[a1, a2)` and `[b1, b2)` overlap.
pub fn spans_overlap(a1: i128, a2: i128, b1: i128, b2: i128) -> (r: bool)
    ensures
        r == intervals_overlap(a1 as int, a2 as int, b1 as int, b2 as int),
{
    a1 < b2 && b1 < a2
}

} // verus!
