//! Nearest-intersection resolver and the segment-based line-of-sight
//! visualizer: probes a ray against a collection of wall segments, selects
//! the closest hit (stable input order breaks exact ties, first seen wins),
//! and emits the draw commands for the shortened ray and its hit marker.

use vstd::prelude::*;

verus! {

use crate::UNIT;
use crate::draw::{Color, LineCmd, CircleCmd};
use crate::fixed::{tdiv, sqrt_floor, isqrt, lemma_mul_in_bounds, lemma_tdiv_between};
use crate::geometry::{Point, Wall, spec_candidate, get_intersection_point, lemma_candidate_in_boxes};

/// How far a sight ray travels when it hits nothing, in subunits.
pub const SIGHT_RANGE: i64 = 150_000;

/// Radius of the hit marker circle, in subunits.
pub const MARKER_RADIUS: i64 = 10_000;

/// Squared Euclidean distance between two points.
pub open spec fn dist_sq(o: Point, p: Point) -> int {
    (p.x - o.x) * (p.x - o.x) + (p.y - o.y) * (p.y - o.y)
}

/// Componentwise sum of two points.
pub open spec fn pt_plus(p: Point, q: Point) -> Point {
    Point { x: (p.x + q.x) as i64, y: (p.y + q.y) as i64 }
}

/// A direction vector (components in `[-UNIT, UNIT]`, standing for a unit
/// vector) scaled to length `s` subunits.
pub open spec fn spec_scaled(dir: Point, s: int) -> Point {
    Point { x: tdiv(dir.x * s, UNIT as int) as i64, y: tdiv(dir.y * s, UNIT as int) as i64 }
}

/// The running fold of the resolver over `walls[i..]` starting from the
/// best candidate `acc`: a later candidate replaces the best only when it
/// is strictly closer to `o`, so on an exact distance tie the first-seen
/// candidate wins.
pub open spec fn nearest_from(
    o: Point,
    e: Point,
    walls: Seq<Wall>,
    i: int,
    acc: Option<Point>,
) -> Option<Point>
    decreases walls.len() - i,
{
    if i < 0 || i >= walls.len() {
        acc
    } else {
        let c = spec_candidate(o, e, walls[i]);
        let acc2 = match (acc, c) {
            (Some(p), Some(q)) => if dist_sq(o, q) < dist_sq(o, p) {
                Some(q)
            } else {
                Some(p)
            },
            (None, _) => c,
            (Some(p), None) => Some(p),
        };
        nearest_from(o, e, walls, i + 1, acc2)
    }
}

/// The closest candidate hit of the probe segment `(o, e)` over all walls,
/// in stable input order.
pub open spec fn spec_nearest(o: Point, e: Point, walls: Seq<Wall>) -> Option<Point> {
    nearest_from(o, e, walls, 0, None)
}

/// The resolver fold meets the selection rule it stands for, from any
/// starting index and accumulator: the fold returns nothing exactly when
/// the accumulator is empty and no remaining wall yields a candidate; and
/// when it returns a point, that point is either the accumulator itself
/// (still no closer candidate among the rest) or a candidate of some
/// remaining wall that beats the accumulator, is minimal over all remaining
/// candidates, and strictly beats every candidate before it.
proof fn lemma_nearest_from_props(o: Point, e: Point, walls: Seq<Wall>, k: int, acc: Option<Point>)
    requires
        0 <= k <= walls.len(),
    ensures
        (nearest_from(o, e, walls, k, acc) is None) <==> (acc is None && forall|i: int|
            k <= i < walls.len() ==> spec_candidate(o, e, #[trigger] walls[i]) is None),
        nearest_from(o, e, walls, k, acc) matches Some(p) ==> (
        (acc == Some(p) && forall|j: int|
            k <= j < walls.len() && spec_candidate(o, e, #[trigger] walls[j]) is Some ==> dist_sq(
                o,
                p,
            ) <= dist_sq(o, spec_candidate(o, e, walls[j])->Some_0)) || (exists|i: int|
            #![trigger walls[i]]
            k <= i < walls.len() && spec_candidate(o, e, walls[i]) == Some(p) && (forall|j: int|
                k <= j < walls.len() && spec_candidate(o, e, #[trigger] walls[j]) is Some
                    ==> dist_sq(o, p) <= dist_sq(o, spec_candidate(o, e, walls[j])->Some_0)) && (
            forall|j: int|
                k <= j < i && spec_candidate(o, e, #[trigger] walls[j]) is Some ==> dist_sq(
                    o,
                    spec_candidate(o, e, walls[j])->Some_0,
                ) > dist_sq(o, p)) && (acc matches Some(a) ==> dist_sq(o, p) < dist_sq(o, a)))),
    decreases walls.len() - k,
{
    if k == walls.len() {
        // The fold is just the accumulator; both ranges are empty.
    } else {
        let c = spec_candidate(o, e, walls[k]);
        let acc2 = match (acc, c) {
            (Some(p), Some(q)) => if dist_sq(o, q) < dist_sq(o, p) {
                Some(q)
            } else {
                Some(p)
            },
            (None, _) => c,
            (Some(p), None) => Some(p),
        };
        lemma_nearest_from_props(o, e, walls, k + 1, acc2);
        let r = nearest_from(o, e, walls, k, acc);
        assert(r == nearest_from(o, e, walls, k + 1, acc2));
        match r {
            Some(p) => {
                if acc2 == Some(p) && (forall|j: int|
                    k + 1 <= j < walls.len() && spec_candidate(o, e, #[trigger] walls[j]) is Some
                        ==> dist_sq(o, p) <= dist_sq(o, spec_candidate(o, e, walls[j])->Some_0)) {
                    if acc == Some(p) {
                        // The accumulator survived wall k too.
                    } else {
                        // Wall k's candidate replaced (or seeded) the
                        // accumulator: it is the witness.
                        assert(c == Some(p));
                        assert(k <= k < walls.len() && spec_candidate(o, e, walls[k]) == Some(p));
                    }
                }
            },
            None => {},
        }
    }
}

/// The resolver's selection rule, as stated of its result: it returns
/// nothing exactly when no wall yields a candidate hit; and a returned
/// point is the candidate of some wall, has minimal distance to the origin
/// among all candidates, and strictly beats every earlier wall's candidate
/// (on an exact distance tie the first-seen candidate wins).
pub proof fn lemma_nearest_selects_minimum(o: Point, e: Point, walls: Seq<Wall>)
    ensures
        (spec_nearest(o, e, walls) is None) <==> (forall|i: int|
            0 <= i < walls.len() ==> spec_candidate(o, e, #[trigger] walls[i]) is None),
        spec_nearest(o, e, walls) matches Some(p) ==> (exists|i: int|
            #![trigger walls[i]]
            0 <= i < walls.len() && spec_candidate(o, e, walls[i]) == Some(p) && (forall|j: int|
                0 <= j < walls.len() && spec_candidate(o, e, #[trigger] walls[j]) is Some
                    ==> dist_sq(o, p) <= dist_sq(o, spec_candidate(o, e, walls[j])->Some_0)) && (
            forall|j: int|
                0 <= j < i && spec_candidate(o, e, #[trigger] walls[j]) is Some ==> dist_sq(
                    o,
                    spec_candidate(o, e, walls[j])->Some_0,
                ) > dist_sq(o, p))),
{
    lemma_nearest_from_props(o, e, walls, 0, None);
}

/// Squared distance between two in-bounds points.
pub fn distance_sq(o: Point, p: Point) -> (r: i64)
    requires
        o.in_bounds(),
        p.in_bounds(),
    ensures
        r == dist_sq(o, p),
        0 <= r <= 5_120_000_000_000,
{
    let dx: i64 = p.x - o.x;
    let dy: i64 = p.y - o.y;
    proof {
        lemma_mul_in_bounds(dx as int, dx as int, 1_600_000, 1_600_000);
        lemma_mul_in_bounds(dy as int, dy as int, 1_600_000, 1_600_000);
        assert(dx as int * dx as int >= 0) by (nonlinear_arith);
        assert(dy as int * dy as int >= 0) by (nonlinear_arith);
    }
    dx * dx + dy * dy
}

/// Finds the candidate hit closest to `origin` among all walls crossed by
/// the probe segment `(origin, end)`; an exact distance tie keeps the
/// first-seen hit. Returns nothing when no wall yields a hit.
pub fn nearest_intersection(origin: Point, end: Point, walls: &Vec<Wall>) -> (r: Option<Point>)
    requires
        origin.in_bounds(),
        end.in_bounds(),
        forall|i: int| 0 <= i < walls@.len() ==> (#[trigger] walls@[i]).in_bounds(),
    ensures
        r == spec_nearest(origin, end, walls@),
        r matches Some(p) ==> p.in_bounds(),
        (r is None) <==> (forall|i: int|
            0 <= i < walls@.len() ==> spec_candidate(origin, end, #[trigger] walls@[i]) is None),
        r matches Some(p) ==> forall|j: int|
            0 <= j < walls@.len() && spec_candidate(origin, end, #[trigger] walls@[j]) is Some
                ==> dist_sq(origin, p) <= dist_sq(
                origin,
                spec_candidate(origin, end, walls@[j])->Some_0,
            ),
{
    proof {
        lemma_nearest_selects_minimum(origin, end, walls@);
    }
    let mut best: Option<Point> = None;
    let mut i: usize = 0;
    while i < walls.len()
        invariant
            0 <= i <= walls@.len(),
            origin.in_bounds(),
            end.in_bounds(),
            forall|k: int| 0 <= k < walls@.len() ==> (#[trigger] walls@[k]).in_bounds(),
            best matches Some(p) ==> p.in_bounds(),
            spec_nearest(origin, end, walls@) == nearest_from(origin, end, walls@, i as int, best),
        decreases walls@.len() - i,
    {
        let c: Option<Point> = get_intersection_point(origin, end, &walls[i]);
        proof {
            lemma_candidate_in_boxes(origin, end, walls@[i as int]);
        }
        match c {
            Some(q) => {
                match best {
                    None => {
                        best = Some(q);
                    },
                    Some(p) => {
                        if distance_sq(origin, q) < distance_sq(origin, p) {
                            best = Some(q);
                        }
                    },
                }
            },
            None => {},
        }
        i = i + 1;
    }
    best
}

/// Scales a direction vector (a unit vector in subunits) to length `s`.
pub fn scale_dir(dir: Point, s: i64) -> (r: Point)
    requires
        -UNIT <= dir.x <= UNIT,
        -UNIT <= dir.y <= UNIT,
        0 <= s <= 4_000_000,
    ensures
        r == spec_scaled(dir, s as int),
        -s <= r.x <= s,
        -s <= r.y <= s,
{
    proof {
        lemma_mul_in_bounds(dir.x as int, s as int, 1_000, 4_000_000);
        lemma_mul_in_bounds(dir.y as int, s as int, 1_000, 4_000_000);
        assert(-(s as int) * 1_000 <= dir.x * s <= s as int * 1_000) by (nonlinear_arith)
            requires
                -1_000 <= dir.x <= 1_000,
                0 <= s,
        ;
        assert(-(s as int) * 1_000 <= dir.y * s <= s as int * 1_000) by (nonlinear_arith)
            requires
                -1_000 <= dir.y <= 1_000,
                0 <= s,
        ;
        lemma_tdiv_between(dir.x as int * s as int, 1_000, -(s as int), s as int);
        lemma_tdiv_between(dir.y as int * s as int, 1_000, -(s as int), s as int);
    }
    Point { x: (dir.x * s) / UNIT, y: (dir.y * s) / UNIT }
}

/// One frame of the line-of-sight visualizer for a single viewpoint: the
/// ray from `origin` along `dir` is probed to [`SIGHT_RANGE`]; when it
/// crosses a wall it is shortened to the nearest hit. Yields the white ray
/// line and the blue hit/endpoint marker.
pub fn line_of_sight(origin: Point, dir: Point, walls: &Vec<Wall>) -> (r: (LineCmd, CircleCmd))
    requires
        -650_000 <= origin.x <= 650_000,
        -650_000 <= origin.y <= 650_000,
        -UNIT <= dir.x <= UNIT,
        -UNIT <= dir.y <= UNIT,
        forall|i: int| 0 <= i < walls@.len() ==> (#[trigger] walls@[i]).in_bounds(),
    ensures
        ({
            let probe_end = pt_plus(origin, spec_scaled(dir, SIGHT_RANGE as int));
            let travel = match spec_nearest(origin, probe_end, walls@) {
                None => SIGHT_RANGE as int,
                Some(p) => sqrt_floor(dist_sq(origin, p) as nat) as int,
            };
            let ray_end = pt_plus(origin, spec_scaled(dir, travel));
            r.0 == (LineCmd {
                start: origin,
                end: ray_end,
                color: Color { r: 255, g: 255, b: 255 },
            }) && r.1 == (CircleCmd {
                center: ray_end,
                radius: MARKER_RADIUS,
                color: Color { r: 0, g: 0, b: 255 },
            })
        }),
{
    let probe_step: Point = scale_dir(dir, SIGHT_RANGE);
    let probe_end: Point = Point { x: origin.x + probe_step.x, y: origin.y + probe_step.y };
    let hit: Option<Point> = nearest_intersection(origin, probe_end, walls);
    let travel: i64 = match hit {
        None => SIGHT_RANGE,
        Some(p) => {
            let d2: i64 = distance_sq(origin, p);
            let root: u64 = isqrt(d2 as u64);
            proof {
                assert(root <= 2_400_000) by (nonlinear_arith)
                    requires
                        (root as int) * (root as int) <= 5_120_000_000_000,
                        root >= 0,
                ;
            }
            root as i64
        },
    };
    let ray_step: Point = scale_dir(dir, travel);
    let ray_end: Point = Point { x: origin.x + ray_step.x, y: origin.y + ray_step.y };
    (
        LineCmd { start: origin, end: ray_end, color: Color { r: 255, g: 255, b: 255 } },
        CircleCmd { center: ray_end, radius: MARKER_RADIUS, color: Color { r: 0, g: 0, b: 255 } },
    )
}

/// One white line per wall, for the wall layer of the visualizer.
pub fn wall_lines(walls: &Vec<Wall>) -> (r: Vec<LineCmd>)
    ensures
        r@.len() == walls@.len(),
        forall|k: int|
            0 <= k < walls@.len() ==> r@[k] == (LineCmd {
                start: (#[trigger] walls@[k]).start,
                end: walls@[k].end,
                color: Color { r: 255, g: 255, b: 255 },
            }),
{
    let mut out: Vec<LineCmd> = Vec::new();
    let mut i: usize = 0;
    while i < walls.len()
        invariant
            0 <= i <= walls@.len(),
            out@.len() == i,
            forall|k: int|
                0 <= k < i ==> out@[k] == (LineCmd {
                    start: (#[trigger] walls@[k]).start,
                    end: walls@[k].end,
                    color: Color { r: 255, g: 255, b: 255 },
                }),
        decreases walls@.len() - i,
    {
        let w: Wall = walls[i];
        out.push(LineCmd { start: w.start, end: w.end, color: Color { r: 255, g: 255, b: 255 } });
        i = i + 1;
    }
    out
}

/// The two demo walls for a viewport of the given size: a vertical wall
/// through the center, and a horizontal wall two sevenths of the way below
/// it. The coordinates live in the halved viewport, as the visualizer's
/// world is centered on the screen.
pub fn initial_walls(width: i64, height: i64) -> (r: Vec<Wall>)
    requires
        0 <= width <= 1_600_000,
        0 <= height <= 1_600_000,
    ensures
        ({
            let w = width as int / 2;
            let h = height as int / 2;
            let shelf = -((2 * h) / 7);
            r@.len() == 2 && r@[0] == (Wall {
                start: (Point { x: 0, y: (-h) as i64 }),
                end: (Point { x: 0, y: h as i64 }),
            }) && r@[1] == (Wall {
                start: (Point { x: (-w) as i64, y: shelf as i64 }),
                end: (Point { x: w as i64, y: shelf as i64 }),
            })
        }),
{
    let w: i64 = width / 2;
    let h: i64 = height / 2;
    let shelf: i64 = -((2 * h) / 7);
    let mut out: Vec<Wall> = Vec::new();
    out.push(Wall { start: Point { x: 0, y: -h }, end: Point { x: 0, y: h } });
    out.push(Wall { start: Point { x: -w, y: shelf }, end: Point { x: w, y: shelf } });
    out
}

} // verus!
