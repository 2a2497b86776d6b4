//! Circles over fixed-point points. Containment is decided exactly by
//! comparing squared integer distances, with no square root involved.

use vstd::prelude::*;

use crate::pt::{spec_sq_dist, Bounds, Pt2D};
use crate::units::Distance;

verus! {

/// A circle given by its center and radius.
#[derive(Clone, Copy, Debug, PartialEq, Eq, Structural)]
pub struct Circle {
    pub center: Pt2D,
    pub radius: Distance,
}

/// Strict containment: the point is closer to the center than the radius.
pub open spec fn spec_circle_contains(c: Circle, pt: Pt2D) -> bool {
    spec_sq_dist(c.center, pt) < c.radius@ * c.radius@
}

impl Circle {
    pub fn new(center: Pt2D, radius: Distance) -> (c: Circle)
        ensures
            c.center == center,
            c.radius == radius,
    {
        Circle { center, radius }
    }

    /// Is the point strictly inside the circle? Exact: compares squared
    /// distances, avoiding any square root.
    pub fn contains_pt(&self, pt: Pt2D) -> (b: bool)
        requires
            self.center.wf(),
            pt.wf(),
        ensures
            b == spec_circle_contains(*self, pt),
    {
        let dx: i64 = pt.x - self.center.x;
        let dy: i64 = pt.y - self.center.y;
        proof {
            crate::math::lemma_mul_bound(dx as int, dx as int, 2_000_000_000, 2_000_000_000);
            crate::math::lemma_mul_bound(dy as int, dy as int, 2_000_000_000, 2_000_000_000);
            crate::math::lemma_mul_bound(
                self.radius.cm as int,
                self.radius.cm as int,
                0x8000_0000,
                0x8000_0000,
            );
        }
        let sq: i128 = (dx as i128) * (dx as i128) + (dy as i128) * (dy as i128);
        let rsq: i128 = (self.radius.cm as i128) * (self.radius.cm as i128);
        sq < rsq
    }

    /// The axis-aligned bounding rectangle of the circle.
    pub fn get_bounds(&self) -> (b: Bounds)
        requires
            self.center.wf(),
        ensures
            b.min_x == self.center.x - self.radius@,
            b.max_x == self.center.x + self.radius@,
            b.min_y == self.center.y - self.radius@,
            b.max_y == self.center.y + self.radius@,
    {
        Bounds {
            min_x: self.center.x - (self.radius.cm as i64),
            max_x: self.center.x + (self.radius.cm as i64),
            min_y: self.center.y - (self.radius.cm as i64),
            max_y: self.center.y + (self.radius.cm as i64),
        }
    }
}

} // verus!
