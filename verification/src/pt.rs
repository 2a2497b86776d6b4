//! Fixed-point plane geometry: points at centimeter resolution. Keeping
//! coordinates as integers makes every geometric computation an exact
//! function of its inputs, so distances and intersections are reproducible
//! bit for bit across runs.

use vstd::prelude::*;

use crate::math::{clamp_i32, is_rounded_sqrt, rounded_sqrt_u64, spec_rounded_sqrt};
use crate::units::Distance;

verus! {

/// Coordinates live within this many centimeters of the origin (ten
/// thousand kilometers), comfortably more than any street map needs while
/// keeping every squared distance inside `u64`.
pub const COORD_LIMIT_CM: i64 = 1_000_000_000;

/// A point at centimeter resolution.
#[derive(Clone, Copy, Debug, PartialEq, Eq, Structural, Hash)]
pub struct Pt2D {
    pub x: i64,
    pub y: i64,
}

impl Pt2D {
    /// The point is within the supported coordinate range.
    pub open spec fn wf(self) -> bool {
        &&& -COORD_LIMIT_CM <= self.x <= COORD_LIMIT_CM
        &&& -COORD_LIMIT_CM <= self.y <= COORD_LIMIT_CM
    }

    pub fn new(x: i64, y: i64) -> (p: Pt2D)
        requires
            -COORD_LIMIT_CM <= x <= COORD_LIMIT_CM,
            -COORD_LIMIT_CM <= y <= COORD_LIMIT_CM,
        ensures
            p.x == x,
            p.y == y,
            p.wf(),
    {
        Pt2D { x, y }
    }

    /// Distance to another point, rounded to the nearest centimeter and
    /// saturated at the `i32` range.
    pub fn dist_to(self, other: Pt2D) -> (d: Distance)
        requires
            self.wf(),
            other.wf(),
        ensures
            d@ == clamp_i32(spec_rounded_sqrt(spec_sq_dist(self, other))),
    {
        let r: i64 = dist_cm(self, other);
        if r > 0x7fff_ffffi64 {
            Distance::max()
        } else {
            Distance::const_cm(r as i32)
        }
    }
}

/// The exact squared distance between two points, in square centimeters.
pub open spec fn spec_sq_dist(a: Pt2D, b: Pt2D) -> int {
    (b.x - a.x) * (b.x - a.x) + (b.y - a.y) * (b.y - a.y)
}

/// Distance between two points in whole centimeters, unclamped.
pub fn dist_cm(a: Pt2D, b: Pt2D) -> (r: i64)
    requires
        a.wf(),
        b.wf(),
    ensures
        r == spec_rounded_sqrt(spec_sq_dist(a, b)),
        0 <= r <= 3_000_000_000i64,
        a == b <==> r == 0,
{
    let dx: i64 = b.x - a.x;
    let dy: i64 = b.y - a.y;
    proof {
        assert(0 <= (dx as i128) * (dx as i128) <= 4_000_000_000_000_000_000i128)
            by (nonlinear_arith)
            requires
                -2_000_000_000i128 <= dx as i128 <= 2_000_000_000i128,
        ;
        assert(0 <= (dy as i128) * (dy as i128) <= 4_000_000_000_000_000_000i128)
            by (nonlinear_arith)
            requires
                -2_000_000_000i128 <= dy as i128 <= 2_000_000_000i128,
        ;
    }
    let sq: i128 = (dx as i128) * (dx as i128) + (dy as i128) * (dy as i128);
    let root: u64 = rounded_sqrt_u64(sq as u64);
    proof {
        if root > 3_000_000_000u64 {
            assert((2 * (root as int) - 1) * (2 * (root as int) - 1)
                > 4 * 8_000_000_000_000_000_000i128) by (nonlinear_arith)
                requires
                    root >= 3_000_000_001u64,
            ;
            assert(false);
        }
        if a == b {
            assert(sq == 0) by (nonlinear_arith)
                requires
                    dx == 0i64,
                    dy == 0i64,
                    sq == (dx as i128) * (dx as i128) + (dy as i128) * (dy as i128),
            ;
            assert(is_rounded_sqrt(0, 0)) by (nonlinear_arith);
            crate::math::lemma_rounded_sqrt_unique(0, 0);
        }
        if root == 0 {
            // 4 * sq < 1 forces both deltas to zero.
            assert(sq == 0) by (nonlinear_arith)
                requires
                    4 * (sq as int) < (2 * (root as int) + 1) * (2 * (root as int) + 1),
                    root == 0u64,
                    sq >= 0,
            ;
            assert(dx == 0 && dy == 0) by (nonlinear_arith)
                requires
                    (dx as i128) * (dx as i128) + (dy as i128) * (dy as i128) == 0,
            ;
        }
    }
    root as i64
}

/// An axis-aligned bounding rectangle, in centimeter coordinates.
#[derive(Clone, Copy, Debug, PartialEq, Eq, Structural)]
pub struct Bounds {
    pub min_x: i64,
    pub min_y: i64,
    pub max_x: i64,
    pub max_y: i64,
}

impl Bounds {
    /// Does the rectangle contain this point (inclusive)?
    pub fn contains(&self, pt: Pt2D) -> (b: bool)
        ensures
            b == (self.min_x <= pt.x <= self.max_x && self.min_y <= pt.y <= self.max_y),
    {
        self.min_x <= pt.x && pt.x <= self.max_x && self.min_y <= pt.y && pt.y <= self.max_y
    }

    /// Grow the rectangle to cover this point.
    pub fn update(&mut self, pt: Pt2D)
        ensures
            final(self).min_x == if pt.x < old(self).min_x {
                pt.x
            } else {
                old(self).min_x
            },
            final(self).max_x == if pt.x > old(self).max_x {
                pt.x
            } else {
                old(self).max_x
            },
            final(self).min_y == if pt.y < old(self).min_y {
                pt.y
            } else {
                old(self).min_y
            },
            final(self).max_y == if pt.y > old(self).max_y {
                pt.y
            } else {
                old(self).max_y
            },
    {
        if pt.x < self.min_x {
            self.min_x = pt.x;
        }
        if pt.x > self.max_x {
            self.max_x = pt.x;
        }
        if pt.y < self.min_y {
            self.min_y = pt.y;
        }
        if pt.y > self.max_y {
            self.max_y = pt.y;
        }
    }
}

} // verus!
