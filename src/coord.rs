//! Coordinates and polylines.
use vstd::prelude::*;

verus! {

/// Number of fixed-point units in one user-space unit: coordinates keep
/// nine decimal places.
pub const UNITS_PER_WHOLE: i64 = 1_000_000_000;

/// A point, each coordinate in units of `1 / UNITS_PER_WHOLE`.
#[derive(Debug, Clone, Copy, PartialEq, Eq, Structural)]
pub struct CoordinatePair {
    pub x: i64,
    pub y: i64,
}

impl CoordinatePair {
    pub fn new(x: i64, y: i64) -> (r: CoordinatePair)
        ensures
            r.x == x,
            r.y == y,
    {
        CoordinatePair { x, y }
    }
}

/// An ordered list of points; drawn in this order.
pub type Polyline = Vec<CoordinatePair>;

/// The points of each polyline of a list.
pub open spec fn all_points(ps: Seq<Polyline>) -> Seq<Seq<CoordinatePair>> {
    ps.map_values(|p: Polyline| p@)
}

/// Whether `v` fits in an `i64`.
pub open spec fn fits_i64(v: int) -> bool {
    i64::MIN <= v <= i64::MAX
}

} // verus!
