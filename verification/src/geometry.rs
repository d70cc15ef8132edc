//! Geometry kernel: orientation predicate, proper segment intersection,
//! and the determinant-form line intersection point.
//!
//! Known limitations inherited from the design: the intersection test is
//! the proper-crossing test only (collinear overlap reports no
//! intersection, and touching endpoints are not special-cased), and the
//! parallel test is exact equality of the determinant with zero, with no
//! epsilon tolerance.

use vstd::prelude::*;

verus! {

use crate::coord_in_bounds;
use crate::fixed::{tdiv, lemma_mul_in_bounds, lemma_tdiv_between};

/// A point in fixed-point world coordinates.
#[derive(Clone, Copy, PartialEq, Eq, Structural, Debug)]
pub struct Point {
    pub x: i64,
    pub y: i64,
}

impl Point {
    /// Both coordinates are within the range the geometry kernel accepts.
    pub open spec fn in_bounds(self) -> bool {
        coord_in_bounds(self.x as int) && coord_in_bounds(self.y as int)
    }
}

/// A wall segment between two points in world space, immutable once created.
#[derive(Clone, Copy, PartialEq, Eq, Structural, Debug)]
pub struct Wall {
    pub start: Point,
    pub end: Point,
}

impl Wall {
    pub open spec fn in_bounds(self) -> bool {
        self.start.in_bounds() && self.end.in_bounds()
    }
}

pub open spec fn min_i(a: int, b: int) -> int {
    if a <= b {
        a
    } else {
        b
    }
}

pub open spec fn max_i(a: int, b: int) -> int {
    if a <= b {
        b
    } else {
        a
    }
}

/// Twice the signed area of the triangle `a b c`: positive exactly when the
/// turn a -> b -> c is counter-clockwise.
pub open spec fn cross_area(a: Point, b: Point, c: Point) -> int {
    (c.y - a.y) * (b.x - a.x) - (b.y - a.y) * (c.x - a.x)
}

/// The turn a -> b -> c is counter-clockwise; exact collinearity counts as
/// "not counter-clockwise".
pub open spec fn spec_ccw(a: Point, b: Point, c: Point) -> bool {
    cross_area(a, b, c) > 0
}

/// Two segments `(a, b)` and `(c, d)` cross properly.
pub open spec fn spec_intersects(a: Point, b: Point, c: Point, d: Point) -> bool {
    (spec_ccw(a, c, d) != spec_ccw(b, c, d)) && (spec_ccw(a, b, c) != spec_ccw(a, b, d))
}

/// Coefficients of the line through `p` and `q` in the form
/// `la * x + lb * y == lc`.
pub open spec fn line_a(p: Point, q: Point) -> int {
    q.y - p.y
}

pub open spec fn line_b(p: Point, q: Point) -> int {
    p.x - q.x
}

pub open spec fn line_c(p: Point, q: Point) -> int {
    line_a(p, q) * p.x + line_b(p, q) * p.y
}

/// Determinant of the two-line system for segments `(a, b)` and `(c, d)`.
pub open spec fn det_of(a: Point, b: Point, c: Point, d: Point) -> int {
    line_a(a, b) * line_b(c, d) - line_a(c, d) * line_b(a, b)
}

pub open spec fn x_numerator(a: Point, b: Point, c: Point, d: Point) -> int {
    line_b(c, d) * line_c(a, b) - line_b(a, b) * line_c(c, d)
}

pub open spec fn y_numerator(a: Point, b: Point, c: Point, d: Point) -> int {
    line_a(a, b) * line_c(c, d) - line_a(c, d) * line_c(a, b)
}

/// Truncating quotient with the divisor normalized to be positive.
pub open spec fn ndiv(num: int, dt: int) -> int {
    if dt > 0 {
        tdiv(num, dt)
    } else {
        tdiv(-num, -dt)
    }
}

/// The intersection point of the two lines carrying `(a, b)` and `(c, d)`:
/// the determinant solution with each coordinate truncated toward zero, or
/// nothing when the determinant is exactly zero (parallel or coincident
/// lines).
pub open spec fn spec_intersection(a: Point, b: Point, c: Point, d: Point) -> Option<Point> {
    let dt = det_of(a, b, c, d);
    if dt == 0 {
        None
    } else {
        Some(
            Point {
                x: ndiv(x_numerator(a, b, c, d), dt) as i64,
                y: ndiv(y_numerator(a, b, c, d), dt) as i64,
            },
        )
    }
}

/// The candidate hit of a probe segment `(s, e)` against a wall: the line
/// intersection point when the segments properly cross, nothing otherwise.
/// A crossing pair whose line intersection reports no point is treated
/// defensively as "no candidate".
pub open spec fn spec_candidate(s: Point, e: Point, w: Wall) -> Option<Point> {
    if spec_intersects(s, e, w.start, w.end) {
        spec_intersection(s, e, w.start, w.end)
    } else {
        None
    }
}

/// `p` lies within the axis-aligned bounding box of the segment `(s, e)`.
pub open spec fn within_box(p: Point, s: Point, e: Point) -> bool {
    min_i(s.x as int, e.x as int) <= p.x <= max_i(s.x as int, e.x as int)
        && min_i(s.y as int, e.y as int) <= p.y <= max_i(s.y as int, e.y as int)
}

/// The cross product is invariant under a cyclic rotation of its three
/// points.
proof fn lemma_cross_cyclic(a: Point, b: Point, c: Point)
    by (nonlinear_arith)
    ensures
        cross_area(a, b, c) == cross_area(b, c, a),
{
}

/// The proper-intersection test is symmetric under swapping the segment
/// `(a, b)` with the segment `(c, d)`.
pub proof fn lemma_intersects_symmetric(a: Point, b: Point, c: Point, d: Point)
    ensures
        spec_intersects(a, b, c, d) == spec_intersects(c, d, a, b),
{
    lemma_cross_cyclic(c, a, b);
    lemma_cross_cyclic(d, a, b);
    lemma_cross_cyclic(a, c, d);
    lemma_cross_cyclic(b, c, d);
}

/// Segments with identical direction vectors have a zero determinant, so
/// they always yield "no intersection point".
pub proof fn lemma_parallel_no_intersection(a: Point, b: Point, c: Point, d: Point)
    requires
        b.x - a.x == d.x - c.x,
        b.y - a.y == d.y - c.y,
    ensures
        spec_intersection(a, b, c, d) is None,
{
    assert(det_of(a, b, c, d) == 0) by (nonlinear_arith)
        requires
            b.x - a.x == d.x - c.x,
            b.y - a.y == d.y - c.y,
    ;
}

/// The determinant equals the difference of the cross products of the two
/// probe endpoints against the wall line.
proof fn lemma_det_is_g_difference(a: Point, b: Point, c: Point, d: Point)
    by (nonlinear_arith)
    ensures
        det_of(a, b, c, d) == cross_area(c, d, a) - cross_area(c, d, b),
{
}

/// The determinant, seen from the other segment's side.
proof fn lemma_det_is_h_difference(a: Point, b: Point, c: Point, d: Point)
    by (nonlinear_arith)
    ensures
        det_of(a, b, c, d) == cross_area(a, b, d) - cross_area(a, b, c),
{
}

/// The x numerator expanded over raw coordinates and rewritten as a point
/// on the segment `(a, b)`: the start coordinate scaled by the determinant,
/// plus the segment extent scaled by the cross product of `a` against the
/// other line. A pure polynomial identity.
proof fn lemma_raw_x_ab(ax: int, ay: int, bx: int, by: int, cx: int, cy: int, dx: int, dy: int)
    ensures
        (cx - dx) * ((by - ay) * ax + (ax - bx) * ay) - (ax - bx) * ((dy - cy) * cx + (cx - dx)
            * cy) == ax * ((by - ay) * (cx - dx) - (dy - cy) * (ax - bx)) + (bx - ax) * ((ay - cy)
            * (dx - cx) - (dy - cy) * (ax - cx)),
{
    let c1 = (by - ay) * ax + (ax - bx) * ay;
    let c2 = (dy - cy) * cx + (cx - dx) * cy;
    let p = (by - ay) * (cx - dx);
    let q = (dy - cy) * (ax - bx);
    let t = (ax - bx) * (cx - dx);
    let g = (ay - cy) * (dx - cx) - (dy - cy) * (ax - cx);
    assert((cx - dx) * c1 == ax * p + ay * t) by (nonlinear_arith)
        requires
            c1 == (by - ay) * ax + (ax - bx) * ay,
            p == (by - ay) * (cx - dx),
            t == (ax - bx) * (cx - dx),
    ;
    assert((ax - bx) * c2 == cx * q + cy * t) by (nonlinear_arith)
        requires
            c2 == (dy - cy) * cx + (cx - dx) * cy,
            q == (dy - cy) * (ax - bx),
            t == (ax - bx) * (cx - dx),
    ;
    assert((bx - ax) * g == (bx - ax) * ((ay - cy) * (dx - cx)) - (bx - ax) * ((dy - cy) * (ax
        - cx))) by (nonlinear_arith)
        requires
            g == (ay - cy) * (dx - cx) - (dy - cy) * (ax - cx),
    ;
    assert((bx - ax) * ((ay - cy) * (dx - cx)) == ay * t - cy * t) by (nonlinear_arith)
        requires
            t == (ax - bx) * (cx - dx),
    ;
    assert((bx - ax) * ((dy - cy) * (ax - cx)) == cx * q - ax * q) by (nonlinear_arith)
        requires
            q == (dy - cy) * (ax - bx),
    ;
    assert(ax * (p - q) == ax * p - ax * q) by (nonlinear_arith)
        requires
            p == (by - ay) * (cx - dx),
            q == (dy - cy) * (ax - bx),
    ;
}

proof fn lemma_raw_y_ab(ax: int, ay: int, bx: int, by: int, cx: int, cy: int, dx: int, dy: int)
    ensures
        (by - ay) * ((dy - cy) * cx + (cx - dx) * cy) - (dy - cy) * ((by - ay) * ax + (ax - bx)
            * ay) == ay * ((by - ay) * (cx - dx) - (dy - cy) * (ax - bx)) + (by - ay) * ((ay - cy)
            * (dx - cx) - (dy - cy) * (ax - cx)),
{
    let c1 = (by - ay) * ax + (ax - bx) * ay;
    let c2 = (dy - cy) * cx + (cx - dx) * cy;
    let p = (by - ay) * (cx - dx);
    let q = (dy - cy) * (ax - bx);
    let r = (dy - cy) * (by - ay);
    let g = (ay - cy) * (dx - cx) - (dy - cy) * (ax - cx);
    assert((by - ay) * c2 == cx * r + cy * p) by (nonlinear_arith)
        requires
            c2 == (dy - cy) * cx + (cx - dx) * cy,
            r == (dy - cy) * (by - ay),
            p == (by - ay) * (cx - dx),
    ;
    assert((dy - cy) * c1 == ax * r + ay * q) by (nonlinear_arith)
        requires
            c1 == (by - ay) * ax + (ax - bx) * ay,
            r == (dy - cy) * (by - ay),
            q == (dy - cy) * (ax - bx),
    ;
    assert((by - ay) * g == cy * p - ay * p + cx * r - ax * r) by (nonlinear_arith)
        requires
            g == (ay - cy) * (dx - cx) - (dy - cy) * (ax - cx),
            r == (dy - cy) * (by - ay),
            p == (by - ay) * (cx - dx),
    ;
    assert(ay * (p - q) == ay * p - ay * q) by (nonlinear_arith)
        requires
            p == (by - ay) * (cx - dx),
            q == (dy - cy) * (ax - bx),
    ;
}

/// The numerators rewritten as a point on the segment `(c, d)`.
proof fn lemma_raw_x_cd(ax: int, ay: int, bx: int, by: int, cx: int, cy: int, dx: int, dy: int)
    ensures
        (cx - dx) * ((by - ay) * ax + (ax - bx) * ay) - (ax - bx) * ((dy - cy) * cx + (cx - dx)
            * cy) == cx * ((by - ay) * (cx - dx) - (dy - cy) * (ax - bx)) + (dx - cx) * (-((cy
            - ay) * (bx - ax) - (by - ay) * (cx - ax))),
{
    let c1 = (by - ay) * ax + (ax - bx) * ay;
    let c2 = (dy - cy) * cx + (cx - dx) * cy;
    let p = (by - ay) * (cx - dx);
    let q = (dy - cy) * (ax - bx);
    let t = (ax - bx) * (cx - dx);
    let h = (cy - ay) * (bx - ax) - (by - ay) * (cx - ax);
    assert((cx - dx) * c1 == ax * p + ay * t) by (nonlinear_arith)
        requires
            c1 == (by - ay) * ax + (ax - bx) * ay,
            p == (by - ay) * (cx - dx),
            t == (ax - bx) * (cx - dx),
    ;
    assert((ax - bx) * c2 == cx * q + cy * t) by (nonlinear_arith)
        requires
            c2 == (dy - cy) * cx + (cx - dx) * cy,
            q == (dy - cy) * (ax - bx),
            t == (ax - bx) * (cx - dx),
    ;
    assert((dx - cx) * (-h) == (dx - cx) * ((by - ay) * (cx - ax)) - (dx - cx) * ((cy - ay) * (bx
        - ax))) by (nonlinear_arith)
        requires
            h == (cy - ay) * (bx - ax) - (by - ay) * (cx - ax),
    ;
    assert((dx - cx) * ((by - ay) * (cx - ax)) == ax * p - cx * p) by (nonlinear_arith)
        requires
            p == (by - ay) * (cx - dx),
    ;
    assert((dx - cx) * ((cy - ay) * (bx - ax)) == cy * t - ay * t) by (nonlinear_arith)
        requires
            t == (ax - bx) * (cx - dx),
    ;
    assert(cx * (p - q) == cx * p - cx * q) by (nonlinear_arith)
        requires
            p == (by - ay) * (cx - dx),
            q == (dy - cy) * (ax - bx),
    ;
}

proof fn lemma_raw_y_cd(ax: int, ay: int, bx: int, by: int, cx: int, cy: int, dx: int, dy: int)
    ensures
        (by - ay) * ((dy - cy) * cx + (cx - dx) * cy) - (dy - cy) * ((by - ay) * ax + (ax - bx)
            * ay) == cy * ((by - ay) * (cx - dx) - (dy - cy) * (ax - bx)) + (dy - cy) * (-((cy
            - ay) * (bx - ax) - (by - ay) * (cx - ax))),
{
    let c1 = (by - ay) * ax + (ax - bx) * ay;
    let c2 = (dy - cy) * cx + (cx - dx) * cy;
    let p = (by - ay) * (cx - dx);
    let q = (dy - cy) * (ax - bx);
    let r = (dy - cy) * (by - ay);
    let h = (cy - ay) * (bx - ax) - (by - ay) * (cx - ax);
    assert((by - ay) * c2 == cx * r + cy * p) by (nonlinear_arith)
        requires
            c2 == (dy - cy) * cx + (cx - dx) * cy,
            r == (dy - cy) * (by - ay),
            p == (by - ay) * (cx - dx),
    ;
    assert((dy - cy) * c1 == ax * r + ay * q) by (nonlinear_arith)
        requires
            c1 == (by - ay) * ax + (ax - bx) * ay,
            r == (dy - cy) * (by - ay),
            q == (dy - cy) * (ax - bx),
    ;
    assert((dy - cy) * (-h) == (dy - cy) * ((by - ay) * (cx - ax)) - (dy - cy) * ((cy - ay) * (bx
        - ax))) by (nonlinear_arith)
        requires
            h == (cy - ay) * (bx - ax) - (by - ay) * (cx - ax),
    ;
    assert((dy - cy) * ((by - ay) * (cx - ax)) == cx * r - ax * r) by (nonlinear_arith)
        requires
            r == (dy - cy) * (by - ay),
    ;
    assert((dy - cy) * ((cy - ay) * (bx - ax)) == ay * q - cy * q) by (nonlinear_arith)
        requires
            q == (dy - cy) * (ax - bx),
    ;
    assert(cy * (p - q) == cy * p - cy * q) by (nonlinear_arith)
        requires
            p == (by - ay) * (cx - dx),
            q == (dy - cy) * (ax - bx),
    ;
}

proof fn lemma_x_num_on_ab(a: Point, b: Point, c: Point, d: Point)
    ensures
        x_numerator(a, b, c, d) == a.x * det_of(a, b, c, d) + (b.x - a.x) * cross_area(c, d, a),
{
    lemma_raw_x_ab(
        a.x as int,
        a.y as int,
        b.x as int,
        b.y as int,
        c.x as int,
        c.y as int,
        d.x as int,
        d.y as int,
    );
}

proof fn lemma_y_num_on_ab(a: Point, b: Point, c: Point, d: Point)
    ensures
        y_numerator(a, b, c, d) == a.y * det_of(a, b, c, d) + (b.y - a.y) * cross_area(c, d, a),
{
    lemma_raw_y_ab(
        a.x as int,
        a.y as int,
        b.x as int,
        b.y as int,
        c.x as int,
        c.y as int,
        d.x as int,
        d.y as int,
    );
}

proof fn lemma_x_num_on_cd(a: Point, b: Point, c: Point, d: Point)
    ensures
        x_numerator(a, b, c, d) == c.x * det_of(a, b, c, d) + (d.x - c.x) * (-cross_area(
            a,
            b,
            c,
        )),
{
    lemma_raw_x_cd(
        a.x as int,
        a.y as int,
        b.x as int,
        b.y as int,
        c.x as int,
        c.y as int,
        d.x as int,
        d.y as int,
    );
}

proof fn lemma_y_num_on_cd(a: Point, b: Point, c: Point, d: Point)
    ensures
        y_numerator(a, b, c, d) == c.y * det_of(a, b, c, d) + (d.y - c.y) * (-cross_area(
            a,
            b,
            c,
        )),
{
    lemma_raw_y_cd(
        a.x as int,
        a.y as int,
        b.x as int,
        b.y as int,
        c.x as int,
        c.y as int,
        d.x as int,
        d.y as int,
    );
}

/// If `num == u * dt + (v - u) * g` with `g / dt` between zero and one,
/// the normalized truncating quotient lies between `u` and `v`: the line
/// solution parameter is inside the segment, so the solved coordinate is
/// inside the segment's extent.
proof fn lemma_coord_between(num: int, dt: int, u: int, v: int, g: int)
    requires
        dt != 0,
        num == u * dt + (v - u) * g,
        dt > 0 ==> 0 <= g <= dt,
        dt < 0 ==> dt <= g <= 0,
    ensures
        min_i(u, v) <= ndiv(num, dt) <= max_i(u, v),
{
    if dt > 0 {
        if u <= v {
            assert(u * dt <= num && num <= v * dt) by (nonlinear_arith)
                requires
                    num == u * dt + (v - u) * g,
                    0 <= g <= dt,
                    u <= v,
            ;
            lemma_tdiv_between(num, dt, u, v);
        } else {
            assert(v * dt <= num && num <= u * dt) by (nonlinear_arith)
                requires
                    num == u * dt + (v - u) * g,
                    0 <= g <= dt,
                    v < u,
            ;
            lemma_tdiv_between(num, dt, v, u);
        }
    } else {
        let nn = -num;
        let dd = -dt;
        assert(nn == u * dd + (v - u) * (-g)) by (nonlinear_arith)
            requires
                num == u * dt + (v - u) * g,
                nn == -num,
                dd == -dt,
        ;
        if u <= v {
            assert(u * dd <= nn && nn <= v * dd) by (nonlinear_arith)
                requires
                    nn == u * dd + (v - u) * (-g),
                    dd > 0,
                    dt <= g <= 0,
                    dd == -dt,
                    u <= v,
            ;
            lemma_tdiv_between(nn, dd, u, v);
        } else {
            assert(v * dd <= nn && nn <= u * dd) by (nonlinear_arith)
                requires
                    nn == u * dd + (v - u) * (-g),
                    dd > 0,
                    dt <= g <= 0,
                    dd == -dt,
                    v < u,
            ;
            lemma_tdiv_between(nn, dd, v, u);
        }
    }
}

/// For every properly crossing pair of segments, the determinant is not
/// zero and the reported intersection point lies within the bounding box of
/// each segment.
pub proof fn lemma_crossing_point_in_boxes(a: Point, b: Point, c: Point, d: Point)
    requires
        spec_intersects(a, b, c, d),
    ensures
        det_of(a, b, c, d) != 0,
        spec_intersection(a, b, c, d) matches Some(p) && within_box(p, a, b) && within_box(
            p,
            c,
            d,
        ),
{
    let dt = det_of(a, b, c, d);
    let g1 = cross_area(c, d, a);
    let g2 = cross_area(c, d, b);
    let h1 = cross_area(a, b, c);
    let h2 = cross_area(a, b, d);

    // Rewrite the orientation tests of `spec_intersects` over g1, g2, h1, h2.
    lemma_cross_cyclic(a, c, d);
    lemma_cross_cyclic(b, c, d);
    assert((g1 > 0) != (g2 > 0));
    assert((h1 > 0) != (h2 > 0));

    lemma_det_is_g_difference(a, b, c, d);
    lemma_det_is_h_difference(a, b, c, d);
    assert(dt == g1 - g2);
    assert(dt == h2 - h1);
    assert(dt != 0);

    // The crossing conditions place g1 / dt and (-h1) / dt inside [0, 1].
    assert(dt > 0 ==> 0 <= g1 <= dt && 0 <= -h1 <= dt);
    assert(dt < 0 ==> dt <= g1 <= 0 && dt <= -h1 <= 0);

    let nx = x_numerator(a, b, c, d);
    let ny = y_numerator(a, b, c, d);
    lemma_x_num_on_ab(a, b, c, d);
    lemma_coord_between(nx, dt, a.x as int, b.x as int, g1);
    lemma_y_num_on_ab(a, b, c, d);
    lemma_coord_between(ny, dt, a.y as int, b.y as int, g1);
    lemma_x_num_on_cd(a, b, c, d);
    lemma_coord_between(nx, dt, c.x as int, d.x as int, -h1);
    lemma_y_num_on_cd(a, b, c, d);
    lemma_coord_between(ny, dt, c.y as int, d.y as int, -h1);
}

/// A candidate hit against an in-bounds wall from an in-bounds probe is
/// itself in bounds, and lies within both bounding boxes.
pub proof fn lemma_candidate_in_boxes(s: Point, e: Point, w: Wall)
    requires
        s.in_bounds(),
        e.in_bounds(),
        w.in_bounds(),
    ensures
        spec_candidate(s, e, w) matches Some(p) ==> p.in_bounds() && within_box(p, s, e)
            && within_box(p, w.start, w.end),
{
    if spec_intersects(s, e, w.start, w.end) {
        lemma_crossing_point_in_boxes(s, e, w.start, w.end);
    }
}

/// True if the turn from a -> b -> c is counter-clockwise, by the sign of
/// the cross product.
pub fn ccw(a: Point, b: Point, c: Point) -> (r: bool)
    requires
        a.in_bounds(),
        b.in_bounds(),
        c.in_bounds(),
    ensures
        r == spec_ccw(a, b, c),
{
    proof {
        lemma_mul_in_bounds(c.y - a.y, b.x - a.x, 1_600_000, 1_600_000);
        lemma_mul_in_bounds(b.y - a.y, c.x - a.x, 1_600_000, 1_600_000);
    }
    (c.y - a.y) * (b.x - a.x) > (b.y - a.y) * (c.x - a.x)
}

/// Proper-intersection test for the segments `(a, b)` and `(c, d)`.
/// Collinear overlap reports no intersection; touching endpoints are not
/// special-cased.
pub fn intersects(a: Point, b: Point, c: Point, d: Point) -> (r: bool)
    requires
        a.in_bounds(),
        b.in_bounds(),
        c.in_bounds(),
        d.in_bounds(),
    ensures
        r == spec_intersects(a, b, c, d),
{
    ccw(a, c, d) != ccw(b, c, d) && ccw(a, b, c) != ccw(a, b, d)
}

/// The intersection point of the two lines through `(a, b)` and `(c, d)`,
/// or nothing when the lines are parallel or coincident (determinant
/// exactly zero).
pub fn get_intersection(a: Point, b: Point, c: Point, d: Point) -> (r: Option<Point>)
    requires
        a.in_bounds(),
        b.in_bounds(),
        c.in_bounds(),
        d.in_bounds(),
    ensures
        r == spec_intersection(a, b, c, d),
{
    let a1: i64 = b.y - a.y;
    let b1: i64 = a.x - b.x;
    proof {
        lemma_mul_in_bounds(a1 as int, a.x as int, 1_600_000, 800_000);
        lemma_mul_in_bounds(b1 as int, a.y as int, 1_600_000, 800_000);
    }
    let c1: i64 = a1 * a.x + b1 * a.y;

    let a2: i64 = d.y - c.y;
    let b2: i64 = c.x - d.x;
    proof {
        lemma_mul_in_bounds(a2 as int, c.x as int, 1_600_000, 800_000);
        lemma_mul_in_bounds(b2 as int, c.y as int, 1_600_000, 800_000);
    }
    let c2: i64 = a2 * c.x + b2 * c.y;

    proof {
        lemma_mul_in_bounds(a1 as int, b2 as int, 1_600_000, 1_600_000);
        lemma_mul_in_bounds(a2 as int, b1 as int, 1_600_000, 1_600_000);
    }
    let det: i64 = a1 * b2 - a2 * b1;
    if det == 0 {
        None
    } else {
        proof {
            lemma_mul_in_bounds(b2 as int, c1 as int, 1_600_000, 2_560_000_000_000);
            lemma_mul_in_bounds(b1 as int, c2 as int, 1_600_000, 2_560_000_000_000);
            lemma_mul_in_bounds(a1 as int, c2 as int, 1_600_000, 2_560_000_000_000);
            lemma_mul_in_bounds(a2 as int, c1 as int, 1_600_000, 2_560_000_000_000);
        }
        let nx: i64 = b2 * c1 - b1 * c2;
        let ny: i64 = a1 * c2 - a2 * c1;
        if det > 0 {
            Some(Point { x: nx / det, y: ny / det })
        } else {
            Some(Point { x: (-nx) / (-det), y: (-ny) / (-det) })
        }
    }
}

/// The candidate hit of the probe segment `(s, e)` against `wall`: the line
/// intersection point when the segments properly cross, nothing otherwise.
pub fn get_intersection_point(s: Point, e: Point, wall: &Wall) -> (r: Option<Point>)
    requires
        s.in_bounds(),
        e.in_bounds(),
        wall.in_bounds(),
    ensures
        r == spec_candidate(s, e, *wall),
{
    if intersects(s, e, wall.start, wall.end) {
        get_intersection(s, e, wall.start, wall.end)
    } else {
        None
    }
}

} // verus!
