//! Axis-aligned rectangle overlap testing. A rectangle is a tuple
//! `(x, y, width, height)` of unsigned coordinates; the overlap test is
//! half-open, so rectangles that merely touch along an edge do not overlap.

use vstd::prelude::*;

verus! {

/// Two rectangles overlap when their half-open coordinate ranges intersect
/// on both axes. Touching edges do not count.
pub open spec fn overlaps(a: (u32, u32, u32, u32), b: (u32, u32, u32, u32)) -> bool {
    &&& (a.0 as int) < b.0 + b.2
    &&& a.0 + a.2 > (b.0 as int)
    &&& (a.1 as int) < b.1 + b.3
    &&& a.1 + a.3 > (b.1 as int)
}

/// Half-open axis-aligned overlap test between two `(x, y, width, height)`
/// rectangles. Total: sums are taken over 64 bits, so no input overflows.
pub fn is_collision(rect1: (u32, u32, u32, u32), rect2: (u32, u32, u32, u32)) -> (r: bool)
    ensures
        r == overlaps(rect1, rect2),
{
    let (x1, y1, w1, h1) = rect1;
    let (x2, y2, w2, h2) = rect2;

    (x1 as u64) < x2 as u64 + w2 as u64 && x1 as u64 + w1 as u64 > x2 as u64
        && (y1 as u64) < y2 as u64 + h2 as u64 && y1 as u64 + h1 as u64 > y2 as u64
}

/// The overlap relation is symmetric: it does not matter which rectangle
/// is tested against which.
pub proof fn lemma_overlaps_symmetric(a: (u32, u32, u32, u32), b: (u32, u32, u32, u32))
    ensures
        overlaps(a, b) == overlaps(b, a),
{
}

/// Every rectangle with positive width and height overlaps itself.
pub proof fn lemma_overlaps_self(a: (u32, u32, u32, u32))
    requires
        a.2 > 0,
        a.3 > 0,
    ensures
        overlaps(a, a),
{
}

} // verus!
