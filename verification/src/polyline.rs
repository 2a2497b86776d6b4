//! A polyline: an ordered list of points, walked segment by segment.

use vstd::prelude::*;

use crate::math::{clamp_i32, spec_rounded_sqrt};
use crate::pt::{dist_cm, spec_sq_dist, Pt2D};
use crate::units::Distance;

verus! {

/// The exact total length of the polyline through `pts`, in centimeters,
/// each segment rounded to the nearest centimeter.
pub open spec fn spec_polyline_len(pts: Seq<Pt2D>) -> int
    decreases pts.len(),
{
    if pts.len() < 2 {
        0
    } else {
        spec_rounded_sqrt(spec_sq_dist(pts[0], pts[1])) + spec_polyline_len(pts.drop_first())
    }
}

/// An ordered list of points; a path along the segments between
/// consecutive ones.
#[derive(Clone, Debug, PartialEq, Eq)]
pub struct PolyLine {
    pub pts: Vec<Pt2D>,
}

impl PolyLine {
    /// All points in range, and at least one segment.
    pub open spec fn wf(self) -> bool {
        &&& self.pts@.len() >= 2
        &&& forall|i: int| 0 <= i < self.pts@.len() ==> (#[trigger] self.pts@[i]).wf()
    }

    pub fn new(pts: Vec<Pt2D>) -> (r: PolyLine)
        ensures
            r.pts == pts,
    {
        PolyLine { pts }
    }

    /// Total length of the path, saturated at the `i32` centimeter range.
    pub fn length(&self) -> (d: Distance)
        requires
            self.wf(),
        ensures
            d@ == clamp_i32(spec_polyline_len(self.pts@)),
    {
        let n: usize = self.pts.len();
        let mut acc: i128 = 0;
        let mut i: usize = 0;
        proof {
            assert(self.pts@.skip(0) =~= self.pts@);
        }
        while i + 1 < n
            invariant
                n == self.pts@.len(),
                self.wf(),
                i + 1 <= n,
                0 <= acc <= 3_000_000_000i128 * (i as int),
                acc + spec_polyline_len(self.pts@.skip(i as int)) == spec_polyline_len(self.pts@),
            decreases n - i,
        {
            let d: i64 = dist_cm(self.pts[i], self.pts[i + 1]);
            proof {
                let suffix = self.pts@.skip(i as int);
                assert(suffix.drop_first() =~= self.pts@.skip(i + 1));
                assert(suffix[0] == self.pts@[i as int]);
                assert(suffix[1] == self.pts@[i + 1]);
            }
            acc = acc + (d as i128);
            i += 1;
        }
        proof {
            assert(spec_polyline_len(self.pts@.skip(i as int)) == 0);
        }
        if acc > 0x7fff_ffffi128 {
            Distance::max()
        } else {
            Distance::const_cm(acc as i32)
        }
    }
}

} // verus!
