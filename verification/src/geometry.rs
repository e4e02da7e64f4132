//! Pixel-space points and the squared Euclidean distance between them.
//!
//! The influence formula divides a source's strength by a power of the
//! Euclidean distance; that power is taken over the reals by the driver.
//! The integer part — the squared distance, of which the Euclidean distance
//! is the square root — is exact and lives here.

use vstd::prelude::*;

verus! {

/// A location on the raster, in pixel coordinates.
#[derive(Copy, Clone, PartialEq, Eq, Structural, Debug)]
pub struct Point {
    pub x: u32,
    pub y: u32,
}

/// The squared Euclidean distance between two points.
pub open spec fn dist_sq(a: Point, b: Point) -> int {
    (a.x - b.x) * (a.x - b.x) + (a.y - b.y) * (a.y - b.y)
}

impl Point {
    /// The squared Euclidean distance to `other`, exact in integers.
    pub fn distance_squared(&self, other: &Point) -> (d: u128)
        ensures
            d == dist_sq(*self, *other),
    {
        let dx: u64 = if self.x >= other.x {
            (self.x - other.x) as u64
        } else {
            (other.x - self.x) as u64
        };
        let dy: u64 = if self.y >= other.y {
            (self.y - other.y) as u64
        } else {
            (other.y - self.y) as u64
        };
        proof {
            assert((self.x - other.x) * (self.x - other.x) == dx * dx) by (nonlinear_arith)
                requires
                    dx == self.x - other.x || dx == other.x - self.x,
            ;
            assert((self.y - other.y) * (self.y - other.y) == dy * dy) by (nonlinear_arith)
                requires
                    dy == self.y - other.y || dy == other.y - self.y,
            ;
            assert(dx * dx + dy * dy <= u128::MAX) by (nonlinear_arith)
                requires
                    dx <= u32::MAX && dy <= u32::MAX,
            ;
        }
        (dx as u128) * (dx as u128) + (dy as u128) * (dy as u128)
    }
}

/// The squared distance from a point to itself is zero; since the Euclidean
/// distance is its square root, that distance is zero as well.
pub proof fn lemma_distance_squared_self_is_zero(p: Point)
    ensures
        dist_sq(p, p) == 0,
{
}

/// The squared distance is symmetric in its two points, and therefore so is
/// the Euclidean distance, its square root.
pub proof fn lemma_distance_squared_symmetric(a: Point, b: Point)
    ensures
        dist_sq(a, b) == dist_sq(b, a),
{
    assert((a.x - b.x) * (a.x - b.x) == (b.x - a.x) * (b.x - a.x)) by (nonlinear_arith);
    assert((a.y - b.y) * (a.y - b.y) == (b.y - a.y) * (b.y - a.y)) by (nonlinear_arith);
}

} // verus!
