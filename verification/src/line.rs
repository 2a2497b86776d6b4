//! Line segments and infinite lines over fixed-point points. Every
//! computed point is rounded to the nearest centimeter, and each operation's
//! contract gives the exact integer formula for its result, so the geometry
//! is deterministic down to the last centimeter.
//!
//! Operations that can produce a point outside the supported coordinate
//! range report that as a typed error rather than returning a value other
//! code cannot safely use.

use vstd::prelude::*;

use crate::math::{clamp_i32, lemma_mul_bound, round_rat, round_rat_exact, spec_rounded_sqrt};
use crate::pt::{dist_cm, spec_sq_dist, Pt2D, COORD_LIMIT_CM};
use crate::units::Distance;

verus! {

/// A contract violation or domain limit inside the geometry: callers that
/// trip one of these asked for something the segment cannot answer.
#[derive(Clone, Copy, Debug, PartialEq, Eq, Structural)]
pub enum GeomError {
    /// A segment's endpoints must be distinct.
    ZeroLengthLine { pt: Pt2D },
    /// Walking farther along a segment than its length.
    DistanceBeyondLength { dist: Distance, len: Distance },
    /// Shifting a segment sideways by a negative width.
    NegativeWidth { width: Distance },
    /// A computed point left the supported coordinate range.
    OutOfBounds { x: i128, y: i128 },
    /// The crossing-test said two segments intersect, but the computed
    /// intersection point does not lie on the first segment.
    InconsistentIntersection { x: i64, y: i64 },
}

/// Is `(x, y)` inside the supported coordinate range?
pub open spec fn in_coord_range(x: int, y: int) -> bool {
    &&& -COORD_LIMIT_CM <= x <= COORD_LIMIT_CM
    &&& -COORD_LIMIT_CM <= y <= COORD_LIMIT_CM
}

/// The length of the segment from `p1` to `p2`, in whole centimeters.
pub open spec fn spec_line_len(p1: Pt2D, p2: Pt2D) -> int {
    spec_rounded_sqrt(spec_sq_dist(p1, p2))
}

/// Does the triangle `pt1 pt2 pt3` turn counter-clockwise? Exact, since
/// coordinates are integers.
pub open spec fn spec_ccw(pt1: Pt2D, pt2: Pt2D, pt3: Pt2D) -> bool {
    (pt3.y - pt1.y) * (pt2.x - pt1.x) > (pt2.y - pt1.y) * (pt3.x - pt1.x)
}

/// A segment between two distinct points.
#[derive(Clone, Copy, Debug, PartialEq, Eq, Structural)]
pub struct Line(pub Pt2D, pub Pt2D);

/// A line through two distinct points, extended infinitely.
#[derive(Clone, Copy, Debug, PartialEq, Eq, Structural)]
pub struct InfiniteLine(pub Pt2D, pub Pt2D);

/// Does `pt` lie on the segment, up to a centimeter of rounding slack? The
/// test compares the two partial distances against the segment length, as
/// rounded integers, so a point within about half a centimeter of the
/// segment passes.
pub open spec fn spec_on_segment(l: Line, pt: Pt2D) -> bool {
    let d1 = spec_rounded_sqrt(spec_sq_dist(l.0, pt));
    let d2 = spec_rounded_sqrt(spec_sq_dist(pt, l.1));
    let len = spec_line_len(l.0, l.1);
    -1 <= d1 + d2 - len <= 1
}

/// What walking `dist` centimeters from `l.0` toward `l.1` reaches,
/// ignoring the segment's end.
pub open spec fn spec_unbounded_dist_along(l: Line, dist: Distance) -> Result<Pt2D, GeomError> {
    let len = spec_line_len(l.0, l.1);
    let x = l.0.x + round_rat(dist@ * (l.1.x - l.0.x), len);
    let y = l.0.y + round_rat(dist@ * (l.1.y - l.0.y), len);
    if in_coord_range(x, y) {
        Ok(Pt2D { x: x as i64, y: y as i64 })
    } else {
        Err(GeomError::OutOfBounds { x: x as i128, y: y as i128 })
    }
}

/// What `dist_along` returns: as above, but walking past the end of the
/// segment is a contract violation.
pub open spec fn spec_dist_along(l: Line, dist: Distance) -> Result<Pt2D, GeomError> {
    let len = spec_line_len(l.0, l.1);
    if dist@ > len {
        Err(GeomError::DistanceBeyondLength { dist, len: Distance { cm: clamp_i32(len) as i32 } })
    } else {
        spec_unbounded_dist_along(l, dist)
    }
}

/// What shifting the segment sideways by `w` centimeters returns: both
/// endpoints move by the same perpendicular offset (to the right of the
/// direction of travel when `right`, else to the left), so the shifted
/// segment is parallel to and as long as the original.
pub open spec fn spec_shift(l: Line, w: int, right: bool) -> Result<Line, GeomError> {
    let len = spec_line_len(l.0, l.1);
    let dx = l.1.x - l.0.x;
    let dy = l.1.y - l.0.y;
    let ox = if right {
        round_rat(w * -dy, len)
    } else {
        round_rat(w * dy, len)
    };
    let oy = if right {
        round_rat(w * dx, len)
    } else {
        round_rat(w * -dx, len)
    };
    let ax = l.0.x + ox;
    let ay = l.0.y + oy;
    let bx = l.1.x + ox;
    let by = l.1.y + oy;
    if !in_coord_range(ax, ay) {
        Err(GeomError::OutOfBounds { x: ax as i128, y: ay as i128 })
    } else if !in_coord_range(bx, by) {
        Err(GeomError::OutOfBounds { x: bx as i128, y: by as i128 })
    } else {
        Ok(Line(Pt2D { x: ax as i64, y: ay as i64 }, Pt2D { x: bx as i64, y: by as i64 }))
    }
}

/// The cross product of the two direction vectors: zero exactly when the
/// lines through `p1 p2` and `q1 q2` are parallel.
pub open spec fn spec_rcs(p1: Pt2D, p2: Pt2D, q1: Pt2D, q2: Pt2D) -> int {
    (p2.x - p1.x) * (q2.y - q1.y) - (p2.y - p1.y) * (q2.x - q1.x)
}

/// The numerator of the intersection parameter along `p1 p2`.
pub open spec fn spec_tnum(p1: Pt2D, p2: Pt2D, q1: Pt2D, q2: Pt2D) -> int {
    (q1.x - p1.x) * (q2.y - q1.y) - (q1.y - p1.y) * (q2.x - q1.x)
}

/// What intersecting the two infinite lines returns: `None` for parallel
/// lines, the rounded intersection point otherwise, or an error if that
/// point leaves the supported coordinate range.
pub open spec fn spec_infinite_hit(p1: Pt2D, p2: Pt2D, q1: Pt2D, q2: Pt2D) -> Result<
    Option<Pt2D>,
    GeomError,
> {
    let rcs = spec_rcs(p1, p2, q1, q2);
    if rcs == 0 {
        Ok(None)
    } else {
        let t = spec_tnum(p1, p2, q1, q2);
        let x = p1.x + round_rat(t * (p2.x - p1.x), rcs);
        let y = p1.y + round_rat(t * (p2.y - p1.y), rcs);
        if in_coord_range(x, y) {
            Ok(Some(Pt2D { x: x as i64, y: y as i64 }))
        } else {
            Err(GeomError::OutOfBounds { x: x as i128, y: y as i128 })
        }
    }
}

/// Do the crossing tests rule out an intersection of the two segments?
pub open spec fn spec_no_crossing(a: Line, b: Line) -> bool {
    ||| spec_ccw(a.0, b.0, b.1) == spec_ccw(a.1, b.0, b.1)
    ||| spec_ccw(a.0, a.1, b.0) == spec_ccw(a.0, a.1, b.1)
}

impl Line {
    /// Both endpoints are in range and distinct.
    pub open spec fn wf(self) -> bool {
        &&& self.0.wf()
        &&& self.1.wf()
        &&& self.0 != self.1
    }

    /// A segment between two points; coinciding endpoints are a fatal
    /// contract violation.
    pub fn new(pt1: Pt2D, pt2: Pt2D) -> (r: Result<Line, GeomError>)
        requires
            pt1.wf(),
            pt2.wf(),
        ensures
            pt1 == pt2 ==> r == Err::<Line, GeomError>(GeomError::ZeroLengthLine { pt: pt1 }),
            pt1 != pt2 ==> r == Ok::<Line, GeomError>(Line(pt1, pt2)),
            r matches Ok(l) ==> l.wf(),
    {
        let d: i64 = dist_cm(pt1, pt2);
        if d == 0 {
            Err(GeomError::ZeroLengthLine { pt: pt1 })
        } else {
            Ok(Line(pt1, pt2))
        }
    }

    /// This segment's supporting line, extended infinitely.
    pub fn infinite(&self) -> (r: InfiniteLine)
        ensures
            r == InfiniteLine(self.0, self.1),
    {
        InfiniteLine(self.0, self.1)
    }

    pub fn pt1(&self) -> (p: Pt2D)
        ensures
            p == self.0,
    {
        self.0
    }

    pub fn pt2(&self) -> (p: Pt2D)
        ensures
            p == self.1,
    {
        self.1
    }

    /// Both endpoints, in order.
    pub fn points(&self) -> (r: Vec<Pt2D>)
        ensures
            r@ == seq![self.0, self.1],
    {
        let mut v: Vec<Pt2D> = Vec::new();
        v.push(self.0);
        v.push(self.1);
        proof {
            assert(v@ =~= seq![self.0, self.1]);
        }
        v
    }

    /// This segment as a two-point polyline.
    pub fn to_polyline(&self) -> (r: crate::polyline::PolyLine)
        ensures
            r.pts@ == seq![self.0, self.1],
    {
        crate::polyline::PolyLine::new(self.points())
    }

    /// The same segment walked the other way.
    pub fn reverse(&self) -> (r: Line)
        ensures
            r == Line(self.1, self.0),
            self.wf() ==> r.wf(),
    {
        Line(self.1, self.0)
    }

    /// The segment's length, rounded to the nearest centimeter.
    pub fn length(&self) -> (d: Distance)
        requires
            self.wf(),
        ensures
            d@ == clamp_i32(spec_line_len(self.0, self.1)),
            d@ > 0,
    {
        let r: i64 = dist_cm(self.0, self.1);
        if r > 0x7fff_ffffi64 {
            Distance::max()
        } else {
            Distance::const_cm(r as i32)
        }
    }

    /// The point `dist` centimeters along the segment from its start;
    /// walking past the end is a fatal contract violation.
    pub fn dist_along(&self, dist: Distance) -> (r: Result<Pt2D, GeomError>)
        requires
            self.wf(),
        ensures
            r == spec_dist_along(*self, dist),
            r matches Ok(p) ==> p.wf(),
    {
        let len: i64 = dist_cm(self.0, self.1);
        if (dist.cm as i64) > len {
            let len_d: Distance = if len > 0x7fff_ffffi64 {
                Distance::max()
            } else {
                Distance::const_cm(len as i32)
            };
            return Err(GeomError::DistanceBeyondLength { dist, len: len_d });
        }
        self.project_along(dist, len)
    }

    /// The point `dist` centimeters along the segment's supporting line
    /// from its start, allowing `dist` beyond the segment's length.
    pub fn unbounded_dist_along(&self, dist: Distance) -> (r: Result<Pt2D, GeomError>)
        requires
            self.wf(),
        ensures
            r == spec_unbounded_dist_along(*self, dist),
            r matches Ok(p) ==> p.wf(),
    {
        let len: i64 = dist_cm(self.0, self.1);
        self.project_along(dist, len)
    }

    /// Shared body of the two walks along the segment.
    fn project_along(&self, dist: Distance, len: i64) -> (r: Result<Pt2D, GeomError>)
        requires
            self.wf(),
            len == spec_line_len(self.0, self.1),
            0 < len <= 3_000_000_000i64,
        ensures
            r == spec_unbounded_dist_along(*self, dist),
            r matches Ok(p) ==> p.wf(),
    {
        let dx: i64 = self.1.x - self.0.x;
        let dy: i64 = self.1.y - self.0.y;
        proof {
            lemma_mul_bound(dist.cm as int, dx as int, 0x8000_0000, 2_000_000_000);
            lemma_mul_bound(dist.cm as int, dy as int, 0x8000_0000, 2_000_000_000);
        }
        let ox: i128 = round_rat_exact((dist.cm as i128) * (dx as i128), len as i128);
        let oy: i128 = round_rat_exact((dist.cm as i128) * (dy as i128), len as i128);
        let x: i128 = (self.0.x as i128) + ox;
        let y: i128 = (self.0.y as i128) + oy;
        if -(COORD_LIMIT_CM as i128) <= x && x <= COORD_LIMIT_CM as i128
            && -(COORD_LIMIT_CM as i128) <= y && y <= COORD_LIMIT_CM as i128 {
            Ok(Pt2D { x: x as i64, y: y as i64 })
        } else {
            Err(GeomError::OutOfBounds { x, y })
        }
    }

    /// Is this point on the segment, within rounding?
    pub fn contains_pt(&self, pt: Pt2D) -> (b: bool)
        requires
            self.wf(),
            pt.wf(),
        ensures
            b == spec_on_segment(*self, pt),
    {
        let d1: i64 = dist_cm(self.0, pt);
        let d2: i64 = dist_cm(pt, self.1);
        let len: i64 = dist_cm(self.0, self.1);
        let diff: i64 = d1 + d2 - len;
        -1 <= diff && diff <= 1
    }

    /// Where along the segment this point lies, if it lies on it within
    /// rounding: the distance from the segment's start.
    pub fn dist_along_of_point(&self, pt: Pt2D) -> (r: Option<Distance>)
        requires
            self.wf(),
            pt.wf(),
        ensures
            spec_on_segment(*self, pt) ==> r == Some(
                Distance { cm: clamp_i32(spec_rounded_sqrt(spec_sq_dist(self.0, pt))) as i32 },
            ),
            !spec_on_segment(*self, pt) ==> r is None,
    {
        let d1: i64 = dist_cm(self.0, pt);
        let d2: i64 = dist_cm(pt, self.1);
        let len: i64 = dist_cm(self.0, self.1);
        let diff: i64 = d1 + d2 - len;
        if -1 <= diff && diff <= 1 {
            if d1 > 0x7fff_ffffi64 {
                Some(Distance::max())
            } else {
                Some(Distance::const_cm(d1 as i32))
            }
        } else {
            None
        }
    }

    /// Where this segment crosses another, if it does. The crossing test
    /// is exact; the returned point is rounded to the nearest centimeter.
    /// If rounding pushes the computed point off this segment, that is
    /// reported as a contract violation rather than answered wrongly.
    pub fn intersection(&self, other: &Line) -> (r: Result<Option<Pt2D>, GeomError>)
        requires
            self.wf(),
            other.wf(),
        ensures
            spec_no_crossing(*self, *other) ==> r == Ok::<Option<Pt2D>, GeomError>(None),
            !spec_no_crossing(*self, *other) ==> r == (match spec_infinite_hit(
                self.0,
                self.1,
                other.0,
                other.1,
            ) {
                Ok(None) => Ok(None),
                Err(e) => Err(e),
                Ok(Some(hit)) => if spec_on_segment(*self, hit) {
                    Ok(Some(hit))
                } else {
                    Err(GeomError::InconsistentIntersection { x: hit.x, y: hit.y })
                },
            }),
    {
        if is_counter_clockwise(self.0, other.0, other.1) == is_counter_clockwise(
            self.1,
            other.0,
            other.1,
        ) || is_counter_clockwise(self.0, self.1, other.0) == is_counter_clockwise(
            self.0,
            self.1,
            other.1,
        ) {
            return Ok(None);
        }
        match self.infinite().intersection(&other.infinite()) {
            Err(e) => Err(e),
            Ok(None) => Ok(None),
            Ok(Some(hit)) => {
                if self.contains_pt(hit) {
                    Ok(Some(hit))
                } else {
                    Err(GeomError::InconsistentIntersection { x: hit.x, y: hit.y })
                }
            },
        }
    }

    /// Where this segment crosses an infinite line, if it does.
    pub fn intersection_infinite(&self, other: &InfiniteLine) -> (r: Result<
        Option<Pt2D>,
        GeomError,
    >)
        requires
            self.wf(),
            other.wf(),
        ensures
            r == (match spec_infinite_hit(self.0, self.1, other.0, other.1) {
                Ok(None) => Ok(None),
                Err(e) => Err(e),
                Ok(Some(hit)) => if spec_on_segment(*self, hit) {
                    Ok(Some(hit))
                } else {
                    Ok(None)
                },
            }),
    {
        match self.infinite().intersection(other) {
            Err(e) => Err(e),
            Ok(None) => Ok(None),
            Ok(Some(hit)) => {
                if self.contains_pt(hit) {
                    Ok(Some(hit))
                } else {
                    Ok(None)
                }
            },
        }
    }

    /// Shift the segment sideways, to the right of its direction of
    /// travel. A negative width is a fatal contract violation.
    pub fn shift_right(&self, width: Distance) -> (r: Result<Line, GeomError>)
        requires
            self.wf(),
        ensures
            width@ < 0 ==> r == Err::<Line, GeomError>(GeomError::NegativeWidth { width }),
            width@ >= 0 ==> r == spec_shift(*self, width@, true),
            r matches Ok(l) ==> l.wf(),
    {
        if width.cm < 0 {
            return Err(GeomError::NegativeWidth { width });
        }
        self.shift_impl(width, true)
    }

    /// Shift the segment sideways, to the left of its direction of travel.
    /// A negative width is a fatal contract violation.
    pub fn shift_left(&self, width: Distance) -> (r: Result<Line, GeomError>)
        requires
            self.wf(),
        ensures
            width@ < 0 ==> r == Err::<Line, GeomError>(GeomError::NegativeWidth { width }),
            width@ >= 0 ==> r == spec_shift(*self, width@, false),
            r matches Ok(l) ==> l.wf(),
    {
        if width.cm < 0 {
            return Err(GeomError::NegativeWidth { width });
        }
        self.shift_impl(width, false)
    }

    /// Shift right for a non-negative width, left by the magnitude for a
    /// negative one.
    pub fn shift_either_direction(&self, width: Distance) -> (r: Result<Line, GeomError>)
        requires
            self.wf(),
            width@ != i32::MIN,
        ensures
            width@ >= 0 ==> r == spec_shift(*self, width@, true),
            width@ < 0 ==> r == spec_shift(*self, -width@, false),
            r matches Ok(l) ==> l.wf(),
    {
        if width.cm >= 0 {
            self.shift_impl(width, true)
        } else {
            self.shift_impl(width.neg(), false)
        }
    }

    /// Shared body of the sideways shifts.
    fn shift_impl(&self, width: Distance, right: bool) -> (r: Result<Line, GeomError>)
        requires
            self.wf(),
            width@ >= 0,
        ensures
            r == spec_shift(*self, width@, right),
            r matches Ok(l) ==> l.wf(),
    {
        let len: i64 = dist_cm(self.0, self.1);
        let dx: i64 = self.1.x - self.0.x;
        let dy: i64 = self.1.y - self.0.y;
        proof {
            lemma_mul_bound(width.cm as int, dx as int, 0x8000_0000, 2_000_000_000);
            lemma_mul_bound(width.cm as int, dy as int, 0x8000_0000, 2_000_000_000);
        }
        let ndx: i64 = -dx;
        let ndy: i64 = -dy;
        proof {
            lemma_mul_bound(width.cm as int, ndx as int, 0x8000_0000, 2_000_000_000);
            lemma_mul_bound(width.cm as int, ndy as int, 0x8000_0000, 2_000_000_000);
        }
        let (ox, oy): (i128, i128) = if right {
            (
                round_rat_exact((width.cm as i128) * (ndy as i128), len as i128),
                round_rat_exact((width.cm as i128) * (dx as i128), len as i128),
            )
        } else {
            (
                round_rat_exact((width.cm as i128) * (dy as i128), len as i128),
                round_rat_exact((width.cm as i128) * (ndx as i128), len as i128),
            )
        };
        let ax: i128 = (self.0.x as i128) + ox;
        let ay: i128 = (self.0.y as i128) + oy;
        let bx: i128 = (self.1.x as i128) + ox;
        let by: i128 = (self.1.y as i128) + oy;
        let limit: i128 = COORD_LIMIT_CM as i128;
        if !(-limit <= ax && ax <= limit && -limit <= ay && ay <= limit) {
            Err(GeomError::OutOfBounds { x: ax, y: ay })
        } else if !(-limit <= bx && bx <= limit && -limit <= by && by <= limit) {
            Err(GeomError::OutOfBounds { x: bx, y: by })
        } else {
            Ok(Line(Pt2D { x: ax as i64, y: ay as i64 }, Pt2D { x: bx as i64, y: by as i64 }))
        }
    }
}

/// Exact counter-clockwise test on integer coordinates.
pub fn is_counter_clockwise(pt1: Pt2D, pt2: Pt2D, pt3: Pt2D) -> (r: bool)
    requires
        pt1.wf(),
        pt2.wf(),
        pt3.wf(),
    ensures
        r == spec_ccw(pt1, pt2, pt3),
{
    proof {
        lemma_mul_bound(
            pt3.y - pt1.y,
            pt2.x - pt1.x,
            2_000_000_000,
            2_000_000_000,
        );
        lemma_mul_bound(
            pt2.y - pt1.y,
            pt3.x - pt1.x,
            2_000_000_000,
            2_000_000_000,
        );
    }
    let lhs: i128 = ((pt3.y - pt1.y) as i128) * ((pt2.x - pt1.x) as i128);
    let rhs: i128 = ((pt2.y - pt1.y) as i128) * ((pt3.x - pt1.x) as i128);
    lhs > rhs
}

impl InfiniteLine {
    /// Both defining points are in range and distinct.
    pub open spec fn wf(self) -> bool {
        &&& self.0.wf()
        &&& self.1.wf()
        &&& self.0 != self.1
    }

    /// Where this line crosses another, rounded to the nearest centimeter;
    /// `None` for parallel lines.
    pub fn intersection(&self, other: &InfiniteLine) -> (r: Result<Option<Pt2D>, GeomError>)
        requires
            self.wf(),
            other.wf(),
        ensures
            r == spec_infinite_hit(self.0, self.1, other.0, other.1),
    {
        let rx: i64 = self.1.x - self.0.x;
        let ry: i64 = self.1.y - self.0.y;
        let sx: i64 = other.1.x - other.0.x;
        let sy: i64 = other.1.y - other.0.y;
        let qpx: i64 = other.0.x - self.0.x;
        let qpy: i64 = other.0.y - self.0.y;
        proof {
            lemma_mul_bound(rx as int, sy as int, 2_000_000_000, 2_000_000_000);
            lemma_mul_bound(ry as int, sx as int, 2_000_000_000, 2_000_000_000);
            lemma_mul_bound(qpx as int, sy as int, 2_000_000_000, 2_000_000_000);
            lemma_mul_bound(qpy as int, sx as int, 2_000_000_000, 2_000_000_000);
        }
        let rcs: i128 = (rx as i128) * (sy as i128) - (ry as i128) * (sx as i128);
        if rcs == 0 {
            return Ok(None);
        }
        let tnum: i128 = (qpx as i128) * (sy as i128) - (qpy as i128) * (sx as i128);
        proof {
            lemma_mul_bound(
                tnum as int,
                rx as int,
                8_000_000_000_000_000_000,
                2_000_000_000,
            );
            lemma_mul_bound(
                tnum as int,
                ry as int,
                8_000_000_000_000_000_000,
                2_000_000_000,
            );
        }
        let ox: i128 = round_rat_exact(tnum * (rx as i128), rcs);
        let oy: i128 = round_rat_exact(tnum * (ry as i128), rcs);
        let x: i128 = (self.0.x as i128) + ox;
        let y: i128 = (self.0.y as i128) + oy;
        let limit: i128 = COORD_LIMIT_CM as i128;
        if -limit <= x && x <= limit && -limit <= y && y <= limit {
            Ok(Some(Pt2D { x: x as i64, y: y as i64 }))
        } else {
            Err(GeomError::OutOfBounds { x, y })
        }
    }
}

} // verus!
