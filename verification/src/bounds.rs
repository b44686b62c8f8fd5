//! Axis-aligned bounding-box intersection.
//!
//! A `GeoBounds` stores each coordinate as an order key: an integer whose
//! ordering agrees with the ordering of the underlying coordinate values.
//! The intersection test uses comparisons only, so any order-preserving
//! encoding of the coordinates gives the same answer as comparing the
//! coordinates themselves.

use vstd::prelude::*;

verus! {

/// An axis-aligned box, coordinates given as order keys.
#[derive(Clone, Copy, Debug)]
pub struct GeoBounds {
    pub min_x: i64,
    pub min_y: i64,
    pub max_x: i64,
    pub max_y: i64,
}

/// Two boxes intersect unless one lies strictly beyond the other on some
/// axis; boxes that merely touch on an edge count as intersecting.
pub open spec fn spec_intersects(a: GeoBounds, b: GeoBounds) -> bool {
    !(a.max_x < b.min_x || a.min_x > b.max_x || a.max_y < b.min_y || a.min_y > b.max_y)
}

/// Inclusive overlap test for two axis-aligned boxes.
pub fn bounds_intersect(a: &GeoBounds, b: &GeoBounds) -> (r: bool)
    ensures
        r == spec_intersects(*a, *b),
{
    !(a.max_x < b.min_x || a.min_x > b.max_x || a.max_y < b.min_y || a.min_y > b.max_y)
}

/// Boxes that touch along an edge still intersect: the test is inclusive.
pub proof fn lemma_intersect_touching_edge(a: GeoBounds, b: GeoBounds)
    requires
        a.max_x == b.min_x,
        !(a.max_y < b.min_y),
        !(a.min_y > b.max_y),
        a.min_x <= a.max_x,
        b.min_x <= b.max_x,
    ensures
        spec_intersects(a, b),
{
}

/// A box fully contained in another intersects it.
pub proof fn lemma_intersect_contained(a: GeoBounds, b: GeoBounds)
    requires
        a.min_x <= b.min_x,
        b.max_x <= a.max_x,
        a.min_y <= b.min_y,
        b.max_y <= a.max_y,
        b.min_x <= b.max_x,
        b.min_y <= b.max_y,
    ensures
        spec_intersects(a, b),
{
}

/// Boxes separated by a gap on either axis do not intersect.
pub proof fn lemma_no_intersect_disjoint(a: GeoBounds, b: GeoBounds)
    requires
        a.max_x < b.min_x || b.max_x < a.min_x || a.max_y < b.min_y || b.max_y < a.min_y,
    ensures
        !spec_intersects(a, b),
{
}

} // verus!
