//! DDA ray marcher: steps a ray through continuous space at a fixed
//! increment until it lands in a blocked cell or exhausts a hard step
//! ceiling, then derives the projected wall height from the distance
//! traveled.

use vstd::prelude::*;

verus! {

use crate::geometry::Point;
use crate::grid::GridMap;
use crate::fixed::{sqrt_floor, isqrt, lemma_mul_in_bounds};

/// Hard ceiling on marching steps: guarantees termination even when the ray
/// never reaches a blocked cell (for example when it exits the map).
pub const MAX_STEPS: u64 = 100;

/// Largest step-vector component magnitude the marcher accepts.
pub const STEP_LIMIT: i64 = 10_000;

/// Numerator of the inverse-distance perspective approximation: a wall at
/// distance `d` subunits projects to `PROJECTION_SCALE / d` screen rows.
pub const PROJECTION_SCALE: i64 = 300_000;

/// Result of marching one ray: distance traveled in subunits, and the
/// projected wall height derived from it.
#[derive(Clone, Copy, PartialEq, Eq, Structural, Debug)]
pub struct RayResult {
    pub distance: i64,
    pub wall_height: i64,
}

/// The number of steps the marcher takes from `(ox, oy)` along `(sx, sy)`
/// with `fuel` steps left: it stops on the first position whose cell is
/// blocked, or when the fuel runs out.
pub open spec fn march_count(m: GridMap, ox: int, oy: int, sx: int, sy: int, fuel: nat) -> nat
    decreases fuel,
{
    if m.blocked_at_world(ox, oy) || fuel == 0 {
        0
    } else {
        1 + march_count(m, ox + sx, oy + sy, sx, sy, (fuel - 1) as nat)
    }
}

/// The squared displacement after the march stops.
pub open spec fn ray_travel_sq(m: GridMap, origin: Point, step: Point) -> int {
    let n = march_count(m, origin.x as int, origin.y as int, step.x as int, step.y as int,
        MAX_STEPS as nat);
    (n * step.x) * (n * step.x) + (n * step.y) * (n * step.y)
}

/// The distance the ray travels: the flooring square root of the squared
/// displacement.
pub open spec fn ray_distance(m: GridMap, origin: Point, step: Point) -> int {
    sqrt_floor(ray_travel_sq(m, origin, step) as nat) as int
}

/// The projected wall height for a travel distance, with the distance
/// clamped to a minimum of one subunit so that a zero distance yields the
/// largest height the projection can produce instead of a division fault.
pub open spec fn projected_height(distance: int) -> int {
    let clamped = if distance < 1 {
        1int
    } else {
        distance
    };
    PROJECTION_SCALE as int / clamped
}

/// The step ceiling is respected exactly: when no position along the ray
/// within the budget lies in a blocked cell, the marcher reports a result
/// after exactly the ceiling's worth of steps instead of looping on.
pub proof fn lemma_march_exhausts_budget(
    m: GridMap,
    ox: int,
    oy: int,
    sx: int,
    sy: int,
    fuel: nat,
)
    requires
        forall|k: int| 0 <= k < fuel ==> !m.blocked_at_world(ox + #[trigger] (k * sx), oy + k * sy),
    ensures
        march_count(m, ox, oy, sx, sy, fuel) == fuel,
    decreases fuel,
{
    if fuel > 0 {
        assert(!m.blocked_at_world(ox + 0 * sx, oy + 0 * sy));
        assert(!m.blocked_at_world(ox, oy));
        assert forall|k: int| 0 <= k < fuel - 1 implies !m.blocked_at_world(
            (ox + sx) + #[trigger] (k * sx),
            (oy + sy) + k * sy,
        ) by {
            assert((k + 1) * sx == k * sx + sx) by (nonlinear_arith);
            assert((k + 1) * sy == k * sy + sy) by (nonlinear_arith);
            assert(!m.blocked_at_world(ox + (k + 1) * sx, oy + (k + 1) * sy));
        }
        lemma_march_exhausts_budget(m, ox + sx, oy + sy, sx, sy, (fuel - 1) as nat);
    }
}

/// Marches a ray from `origin` along the fixed step vector `step` until the
/// cell under the current position is blocked or the step ceiling is
/// reached; reports the Euclidean distance traveled and the projected wall
/// height.
pub fn cast_ray(origin: Point, step: Point, map: &GridMap) -> (r: RayResult)
    requires
        map.wf(),
        origin.in_bounds(),
        -STEP_LIMIT <= step.x <= STEP_LIMIT,
        -STEP_LIMIT <= step.y <= STEP_LIMIT,
    ensures
        r.distance == ray_distance(*map, origin, step),
        r.wall_height == projected_height(r.distance as int),
        0 <= r.distance <= 1_500_000,
        0 <= r.wall_height <= PROJECTION_SCALE,
{
    let mut x: i64 = origin.x;
    let mut y: i64 = origin.y;
    let mut i: u64 = 0;
    while i < MAX_STEPS
        invariant_except_break
            i <= MAX_STEPS,
            map.wf(),
            origin.in_bounds(),
            -STEP_LIMIT <= step.x <= STEP_LIMIT,
            -STEP_LIMIT <= step.y <= STEP_LIMIT,
            x == origin.x + i * step.x,
            y == origin.y + i * step.y,
            -1_800_000 <= x <= 1_800_000,
            -1_800_000 <= y <= 1_800_000,
            march_count(*map, origin.x as int, origin.y as int, step.x as int, step.y as int,
                MAX_STEPS as nat) == i + march_count(*map, x as int, y as int, step.x as int,
                step.y as int, (MAX_STEPS - i) as nat),
        ensures
            i <= MAX_STEPS,
            x == origin.x + i * step.x,
            y == origin.y + i * step.y,
            -1_800_000 <= x <= 1_800_000,
            -1_800_000 <= y <= 1_800_000,
            i == march_count(*map, origin.x as int, origin.y as int, step.x as int, step.y as int,
                MAX_STEPS as nat),
        decreases MAX_STEPS - i,
    {
        if map.is_blocked_world(x, y) {
            break ;
        }
        proof {
            assert(-1_800_000 <= origin.x + (i + 1) * step.x <= 1_800_000) by (nonlinear_arith)
                requires
                    -800_000 <= origin.x <= 800_000,
                    -10_000 <= step.x <= 10_000,
                    0 <= i + 1 <= 100,
            ;
            assert(-1_800_000 <= origin.y + (i + 1) * step.y <= 1_800_000) by (nonlinear_arith)
                requires
                    -800_000 <= origin.y <= 800_000,
                    -10_000 <= step.y <= 10_000,
                    0 <= i + 1 <= 100,
            ;
            assert((i + 1) * step.x == i * step.x + step.x) by (nonlinear_arith);
            assert((i + 1) * step.y == i * step.y + step.y) by (nonlinear_arith);
        }
        x = x + step.x;
        y = y + step.y;
        i = i + 1;
    }
    let dx: i64 = x - origin.x;
    let dy: i64 = y - origin.y;
    proof {
        assert(-1_000_000 <= (i as int) * step.x <= 1_000_000) by (nonlinear_arith)
            requires
                0 <= i <= 100,
                -10_000 <= step.x <= 10_000,
        ;
        assert(-1_000_000 <= (i as int) * step.y <= 1_000_000) by (nonlinear_arith)
            requires
                0 <= i <= 100,
                -10_000 <= step.y <= 10_000,
        ;
        lemma_mul_in_bounds(dx as int, dx as int, 1_000_000, 1_000_000);
        lemma_mul_in_bounds(dy as int, dy as int, 1_000_000, 1_000_000);
        assert(dx as int * dx as int >= 0) by (nonlinear_arith);
        assert(dy as int * dy as int >= 0) by (nonlinear_arith);
    }
    let d2: u64 = (dx * dx + dy * dy) as u64;
    let root: u64 = isqrt(d2);
    proof {
        assert(root <= 1_500_000) by (nonlinear_arith)
            requires
                (root as nat) * (root as nat) <= 2_000_000_000_000,
        ;
        let n = march_count(*map, origin.x as int, origin.y as int, step.x as int, step.y as int,
            MAX_STEPS as nat);
        assert(dx == n * step.x && dy == n * step.y);
        assert(d2 as nat == ray_travel_sq(*map, origin, step) as nat);
    }
    let distance: i64 = root as i64;
    let height: i64 = wall_height(distance);
    RayResult { distance, wall_height: height }
}

/// The projected wall height for a travel distance in subunits: the
/// inverse-distance perspective approximation, with the distance clamped to
/// a minimum of one subunit. A distance of zero therefore yields
/// [`PROJECTION_SCALE`], the largest representable projected height, never
/// a division fault.
pub fn wall_height(distance: i64) -> (h: i64)
    requires
        0 <= distance,
    ensures
        h == projected_height(distance as int),
        distance == 0 ==> h == PROJECTION_SCALE,
        0 <= h <= PROJECTION_SCALE,
{
    let clamped: i64 = if distance < 1 {
        1
    } else {
        distance
    };
    let h: i64 = PROJECTION_SCALE / clamped;
    proof {
        assert(PROJECTION_SCALE as int / clamped as int <= PROJECTION_SCALE) by (nonlinear_arith)
            requires
                1 <= clamped,
        ;
        assert(PROJECTION_SCALE as int / clamped as int >= 0) by (nonlinear_arith)
            requires
                1 <= clamped,
        ;
    }
    h
}

} // verus!
