//! 2D positions on the game map, in milli-units (one thousandth of a world
//! unit), and the squared distance between them.

use vstd::prelude::*;

verus! {

/// Coordinates are kept within this bound so that squared distances always
/// fit in an `i128`.
pub const POS_BOUND: i64 = 2_000_000_000_000_000_000;

/// A point on the map, in milli-units.
#[derive(Clone, Copy, PartialEq, Eq, Structural, Debug)]
pub struct Pos {
    pub x: i64,
    pub y: i64,
}

/// Whether both coordinates lie within `bound` in absolute value.
pub open spec fn in_bounds(p: Pos, bound: int) -> bool {
    -bound <= p.x <= bound && -bound <= p.y <= bound
}

/// The squared Euclidean distance between two points, as exact integers.
pub open spec fn spec_dist_squared(p1: Pos, p2: Pos) -> int {
    (p2.x - p1.x) * (p2.x - p1.x) + (p2.y - p1.y) * (p2.y - p1.y)
}

/// Squared distance between two points. Exact: no rounding is involved.
pub fn distance_squared(p1: &Pos, p2: &Pos) -> (r: i128)
    requires
        in_bounds(*p1, POS_BOUND as int),
        in_bounds(*p2, POS_BOUND as int),
    ensures
        r == spec_dist_squared(*p1, *p2),
{
    let dx: i128 = p2.x as i128 - p1.x as i128;
    let dy: i128 = p2.y as i128 - p1.y as i128;
    proof {
        assert(dx * dx <= 16_000_000_000_000_000_000_000_000_000_000_000_000int && dx * dx >= 0)
            by (nonlinear_arith)
            requires -4_000_000_000_000_000_000 <= dx <= 4_000_000_000_000_000_000;
        assert(dy * dy <= 16_000_000_000_000_000_000_000_000_000_000_000_000int && dy * dy >= 0)
            by (nonlinear_arith)
            requires -4_000_000_000_000_000_000 <= dy <= 4_000_000_000_000_000_000;
    }
    dx * dx + dy * dy
}

} // verus!
