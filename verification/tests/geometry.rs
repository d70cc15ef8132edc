use raycaster::fixed::{cell_index, isqrt};
use raycaster::geometry::{ccw, get_intersection, get_intersection_point, intersects, Point, Wall};

fn pt(x: i64, y: i64) -> Point {
    Point { x, y }
}

#[test]
fn ccw_counter_clockwise_turn() {
    assert!(ccw(pt(0, 0), pt(1000, 0), pt(0, 1000)));
}

#[test]
fn ccw_clockwise_turn() {
    assert!(!ccw(pt(0, 0), pt(0, 1000), pt(1000, 0)));
}

#[test]
fn ccw_collinear_is_not_ccw() {
    assert!(!ccw(pt(0, 0), pt(1000, 1000), pt(2000, 2000)));
}

#[test]
fn intersects_proper_crossing() {
    assert!(intersects(pt(0, 0), pt(1000, 1000), pt(1000, 0), pt(0, 1000)));
}

#[test]
fn intersects_symmetric_under_segment_swap() {
    let (a, b, c, d) = (pt(0, 0), pt(1000, 1000), pt(1000, 0), pt(0, 1000));
    assert_eq!(intersects(a, b, c, d), intersects(c, d, a, b));
    let (a, b, c, d) = (pt(0, 0), pt(1000, 0), pt(2000, 100), pt(3000, 100));
    assert_eq!(intersects(a, b, c, d), intersects(c, d, a, b));
}

#[test]
fn intersects_disjoint_segments() {
    assert!(!intersects(pt(0, 0), pt(1000, 0), pt(0, 1000), pt(1000, 1000)));
}

#[test]
fn intersects_shared_endpoint_reports_none() {
    // Known limitation: two segments forming an L at a shared endpoint are
    // not a proper crossing.
    assert!(!intersects(pt(0, 0), pt(1000, 0), pt(0, 0), pt(0, 1000)));
}

#[test]
fn intersects_collinear_overlap_reports_none() {
    // Known limitation: collinear overlap is not a proper crossing.
    assert!(!intersects(pt(0, 0), pt(2000, 0), pt(1000, 0), pt(3000, 0)));
}

#[test]
fn intersection_point_of_crossing_diagonals() {
    let r = get_intersection(pt(0, 0), pt(1000, 1000), pt(1000, 0), pt(0, 1000));
    assert_eq!(r, Some(pt(500, 500)));
}

#[test]
fn intersection_point_lies_in_both_bounding_boxes() {
    let (a, b) = (pt(-400, -300), pt(700, 600));
    let (c, d) = (pt(-100, 500), pt(300, -700));
    assert!(intersects(a, b, c, d));
    let p = get_intersection(a, b, c, d).unwrap();
    assert!(a.x.min(b.x) <= p.x && p.x <= a.x.max(b.x));
    assert!(a.y.min(b.y) <= p.y && p.y <= a.y.max(b.y));
    assert!(c.x.min(d.x) <= p.x && p.x <= c.x.max(d.x));
    assert!(c.y.min(d.y) <= p.y && p.y <= c.y.max(d.y));
}

#[test]
fn parallel_lines_have_no_intersection_point() {
    // Identical direction vectors: determinant is exactly zero.
    assert_eq!(get_intersection(pt(0, 0), pt(1000, 500), pt(0, 1000), pt(1000, 1500)), None);
}

#[test]
fn coincident_lines_have_no_intersection_point() {
    assert_eq!(get_intersection(pt(0, 0), pt(1000, 0), pt(2000, 0), pt(3000, 0)), None);
}

#[test]
fn candidate_requires_proper_crossing() {
    let wall = Wall { start: pt(5000, -1000), end: pt(5000, 1000) };
    assert_eq!(get_intersection_point(pt(0, 0), pt(10000, 0), &wall), Some(pt(5000, 0)));
    // The probe stops short of the wall: no candidate.
    assert_eq!(get_intersection_point(pt(0, 0), pt(4000, 0), &wall), None);
}

#[test]
fn isqrt_exact_values() {
    assert_eq!(isqrt(0), 0);
    assert_eq!(isqrt(24), 4);
    assert_eq!(isqrt(25), 5);
    assert_eq!(isqrt(1_000_000), 1_000);
    assert_eq!(isqrt(999_999), 999);
}

#[test]
fn cell_index_floors_toward_negative_infinity() {
    assert_eq!(cell_index(0), 0);
    assert_eq!(cell_index(999), 0);
    assert_eq!(cell_index(1000), 1);
    assert_eq!(cell_index(-1), -1);
    assert_eq!(cell_index(-1000), -1);
    assert_eq!(cell_index(-1001), -2);
}
