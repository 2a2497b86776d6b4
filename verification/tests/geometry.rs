//! Fixed-point geometry: distances, walking along segments, shifting,
//! intersections, circles and polylines, with exact expected values.

use tripsim::circle::Circle;
use tripsim::line::{is_counter_clockwise, GeomError, InfiniteLine, Line};
use tripsim::polyline::PolyLine;
use tripsim::pt::{Bounds, Pt2D};
use tripsim::units::Distance;

#[test]
fn dist_to_pythagorean() {
    // A 3-4-5 triangle in meters: 300 and 400 cm legs, 500 cm hypotenuse.
    let a = Pt2D::new(0, 0);
    let b = Pt2D::new(300, 400);
    assert_eq!(a.dist_to(b), Distance::const_cm(500));
    // Rounding to the nearest centimeter: sqrt(2) m = 141.4.. cm.
    assert_eq!(Pt2D::new(0, 0).dist_to(Pt2D::new(100, 100)), Distance::const_cm(141));
    assert_eq!(a.dist_to(a), Distance::zero());
}

#[test]
fn line_new_rejects_coinciding_points() {
    let p = Pt2D::new(5, 5);
    assert_eq!(Line::new(p, p), Err(GeomError::ZeroLengthLine { pt: p }));
    let l = Line::new(p, Pt2D::new(5, 6)).unwrap();
    assert_eq!(l.pt1(), p);
    assert_eq!(l.pt2(), Pt2D::new(5, 6));
}

#[test]
fn line_length_and_reverse() {
    let l = Line::new(Pt2D::new(0, 0), Pt2D::new(300, 400)).unwrap();
    assert_eq!(l.length(), Distance::const_cm(500));
    let r = l.reverse();
    assert_eq!(r.pt1(), Pt2D::new(300, 400));
    assert_eq!(r.pt2(), Pt2D::new(0, 0));
    assert_eq!(r.length(), Distance::const_cm(500));
    assert_eq!(l.points(), vec![Pt2D::new(0, 0), Pt2D::new(300, 400)]);
}

#[test]
fn dist_along_interpolates() {
    let l = Line::new(Pt2D::new(0, 0), Pt2D::new(300, 400)).unwrap();
    // 100 cm along a 500 cm segment: a fifth of each delta.
    assert_eq!(l.dist_along(Distance::const_cm(100)), Ok(Pt2D::new(60, 80)));
    assert_eq!(l.dist_along(Distance::const_cm(500)), Ok(Pt2D::new(300, 400)));
    assert_eq!(l.dist_along(Distance::zero()), Ok(Pt2D::new(0, 0)));
}

#[test]
fn dist_along_beyond_length_is_fatal() {
    let l = Line::new(Pt2D::new(0, 0), Pt2D::new(0, 100)).unwrap();
    assert_eq!(
        l.dist_along(Distance::const_cm(101)),
        Err(GeomError::DistanceBeyondLength {
            dist: Distance::const_cm(101),
            len: Distance::const_cm(100),
        })
    );
    // The unbounded walk extrapolates instead.
    assert_eq!(
        l.unbounded_dist_along(Distance::const_cm(250)),
        Ok(Pt2D::new(0, 250))
    );
}

#[test]
fn unbounded_walk_can_leave_the_map() {
    // Extrapolating a one-centimeter segment by the largest distance walks
    // far outside the supported coordinate range.
    let l = Line::new(Pt2D::new(0, 0), Pt2D::new(0, 1)).unwrap();
    assert!(matches!(
        l.unbounded_dist_along(Distance::max()),
        Err(GeomError::OutOfBounds { .. })
    ));
}

#[test]
fn contains_pt_tolerates_a_centimeter() {
    let l = Line::new(Pt2D::new(0, 0), Pt2D::new(0, 100)).unwrap();
    assert!(l.contains_pt(Pt2D::new(0, 40)));
    assert!(!l.contains_pt(Pt2D::new(50, 50)));
    assert_eq!(
        l.dist_along_of_point(Pt2D::new(0, 40)),
        Some(Distance::const_cm(40))
    );
    assert_eq!(l.dist_along_of_point(Pt2D::new(50, 50)), None);
}

#[test]
fn counter_clockwise_is_exact() {
    let o = Pt2D::new(0, 0);
    let x = Pt2D::new(100, 0);
    let y = Pt2D::new(0, 100);
    assert!(is_counter_clockwise(o, x, y));
    assert!(!is_counter_clockwise(o, y, x));
    // Collinear points never count as a turn.
    assert!(!is_counter_clockwise(o, x, Pt2D::new(200, 0)));
}

#[test]
fn crossing_segments_intersect() {
    let v = Line::new(Pt2D::new(0, -100), Pt2D::new(0, 100)).unwrap();
    let h = Line::new(Pt2D::new(-100, 0), Pt2D::new(100, 0)).unwrap();
    assert_eq!(v.intersection(&h), Ok(Some(Pt2D::new(0, 0))));
    // Parallel vertical segments never cross.
    let v2 = Line::new(Pt2D::new(50, -100), Pt2D::new(50, 100)).unwrap();
    assert_eq!(v.intersection(&v2), Ok(None));
    // Segments whose supporting lines cross beyond their ends do not.
    let short = Line::new(Pt2D::new(10, 10), Pt2D::new(20, 20)).unwrap();
    assert_eq!(v.intersection(&short), Ok(None));
}

#[test]
fn infinite_lines_intersect_beyond_segment_ends() {
    let v = Line::new(Pt2D::new(0, -100), Pt2D::new(0, 100)).unwrap();
    let diag = InfiniteLine(Pt2D::new(-10, 40), Pt2D::new(-5, 40));
    // The horizontal line through y = 40 crosses the vertical segment.
    assert_eq!(v.intersection_infinite(&diag), Ok(Some(Pt2D::new(0, 40))));
    // It crosses the segment's supporting line even where the segment
    // ends; the segment answer is then nothing.
    let far = Line::new(Pt2D::new(0, 300), Pt2D::new(0, 400)).unwrap();
    assert_eq!(far.intersection_infinite(&diag), Ok(None));
    // Two parallel infinite lines never meet.
    let a = InfiniteLine(Pt2D::new(0, 0), Pt2D::new(10, 0));
    let b = InfiniteLine(Pt2D::new(0, 5), Pt2D::new(10, 5));
    assert_eq!(a.intersection(&b), Ok(None));
}

#[test]
fn shifting_moves_perpendicular() {
    // A segment pointing in +y, shifted right, moves toward -x.
    let l = Line::new(Pt2D::new(0, 0), Pt2D::new(0, 100)).unwrap();
    let right = l.shift_right(Distance::const_cm(10)).unwrap();
    assert_eq!(right.pt1(), Pt2D::new(-10, 0));
    assert_eq!(right.pt2(), Pt2D::new(-10, 100));
    let left = l.shift_left(Distance::const_cm(10)).unwrap();
    assert_eq!(left.pt1(), Pt2D::new(10, 0));
    assert_eq!(left.pt2(), Pt2D::new(10, 100));
    // Either-direction shifting folds a negative width to the left.
    let either = l.shift_either_direction(Distance::const_cm(-10)).unwrap();
    assert_eq!(either.pt1(), Pt2D::new(10, 0));
    assert_eq!(either.pt2(), Pt2D::new(10, 100));
}

#[test]
fn shifting_by_negative_width_is_fatal() {
    let l = Line::new(Pt2D::new(0, 0), Pt2D::new(0, 100)).unwrap();
    assert_eq!(
        l.shift_right(Distance::const_cm(-1)),
        Err(GeomError::NegativeWidth { width: Distance::const_cm(-1) })
    );
    assert_eq!(
        l.shift_left(Distance::const_cm(-1)),
        Err(GeomError::NegativeWidth { width: Distance::const_cm(-1) })
    );
}

#[test]
fn circle_contains_strictly() {
    let c = Circle::new(Pt2D::new(0, 0), Distance::const_cm(100));
    assert!(c.contains_pt(Pt2D::new(0, 99)));
    assert!(!c.contains_pt(Pt2D::new(0, 100)));
    assert!(c.contains_pt(Pt2D::new(70, 70)));
    assert!(!c.contains_pt(Pt2D::new(71, 71)));
}

#[test]
fn circle_bounds() {
    let c = Circle::new(Pt2D::new(10, -20), Distance::const_cm(100));
    let b = c.get_bounds();
    assert_eq!(b.min_x, -90);
    assert_eq!(b.max_x, 110);
    assert_eq!(b.min_y, -120);
    assert_eq!(b.max_y, 80);
    assert!(b.contains(Pt2D::new(0, 0)));
    assert!(!b.contains(Pt2D::new(111, 0)));
}

#[test]
fn bounds_update_grows() {
    let mut b = Bounds { min_x: 0, min_y: 0, max_x: 10, max_y: 10 };
    b.update(Pt2D::new(-5, 20));
    assert_eq!(b.min_x, -5);
    assert_eq!(b.max_y, 20);
    assert_eq!(b.max_x, 10);
    assert_eq!(b.min_y, 0);
}

#[test]
fn polyline_length_sums_segments() {
    let l = Line::new(Pt2D::new(0, 0), Pt2D::new(300, 400)).unwrap();
    let pl = l.to_polyline();
    assert_eq!(pl.pts, vec![Pt2D::new(0, 0), Pt2D::new(300, 400)]);
    assert_eq!(pl.length(), Distance::const_cm(500));
    let three = PolyLine::new(vec![
        Pt2D::new(0, 0),
        Pt2D::new(300, 400),
        Pt2D::new(300, 500),
    ]);
    assert_eq!(three.length(), Distance::const_cm(600));
}
