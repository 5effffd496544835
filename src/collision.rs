//! Axis-aligned overlap tests between collision boxes.
use vstd::prelude::*;
use crate::components::CollisionBox;

verus! {

/// Two boxes overlap when they share interior area; touching edges do not
/// count.
pub open spec fn overlaps(a: CollisionBox, b: CollisionBox) -> bool {
    &&& a.origin.x < b.origin.x + b.width
    &&& a.origin.x + a.width > b.origin.x
    &&& a.origin.y < b.origin.y + b.height
    &&& a.origin.y + a.height > b.origin.y
}

/// Exact overlap test; sums are taken in `i128`, where they cannot overflow.
pub fn boxes_overlap(a: &CollisionBox, b: &CollisionBox) -> (r: bool)
    ensures
        r == overlaps(*a, *b),
{
    let (ax, ay, aw, ah) = (a.origin.x as i128, a.origin.y as i128, a.width as i128, a.height as i128);
    let (bx, by, bw, bh) = (b.origin.x as i128, b.origin.y as i128, b.width as i128, b.height as i128);
    ax < bx + bw && ax + aw > bx && ay < by + bh && ay + ah > by
}

/// Overlap does not depend on the order of the boxes, and boxes that only
/// touch along an edge do not overlap.
pub proof fn lemma_overlap_symmetric_and_open(a: CollisionBox, b: CollisionBox)
    ensures
        overlaps(a, b) == overlaps(b, a),
        a.origin.x + a.width == b.origin.x ==> !overlaps(a, b),
        b.origin.x + b.width == a.origin.x ==> !overlaps(a, b),
        a.origin.y + a.height == b.origin.y ==> !overlaps(a, b),
        b.origin.y + b.height == a.origin.y ==> !overlaps(a, b),
{
}

} // verus!
