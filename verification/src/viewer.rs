//! Viewer motion and collision: integrates heading and position from the
//! per-tick key state, rejecting moves whose destination cell is blocked.
//! Every translation is collision-checked; heading updates are never
//! blocked.

use vstd::prelude::*;

verus! {

use vstd::arithmetic::div_mod::{lemma_fundamental_div_mod_converse, lemma_small_mod};

use crate::geometry::Point;
use crate::grid::GridMap;

/// One full turn, in microradians (2 * pi * 10^6, rounded down).
pub const TURN_FULL: i64 = 6_283_185;

/// Largest displacement magnitude a single move may have, in subunits.
pub const MOVE_LIMIT: i64 = 100_000;

/// The per-tick snapshot of the four directional controls.
#[derive(Clone, Copy, PartialEq, Eq, Structural, Debug)]
pub struct KeyState {
    pub up: bool,
    pub down: bool,
    pub left: bool,
    pub right: bool,
}

/// The viewpoint: a continuous world position, a heading angle in
/// microradians within `[0, TURN_FULL)`, and a fixed field-of-view width.
#[derive(Clone, Copy, PartialEq, Eq, Structural, Debug)]
pub struct Viewer {
    pub pos: Point,
    pub heading: i64,
    pub fov: i64,
}

/// An angle folded into `[0, TURN_FULL)`.
pub open spec fn wrap_angle(h: int) -> int {
    h % (TURN_FULL as int)
}

/// Where a collision-checked move from `p` by `(dx, dy)` ends: the
/// candidate position when its cell is free, the old position unchanged
/// when the candidate's cell is blocked (hard collision, no sliding).
pub open spec fn spec_moved(m: GridMap, p: Point, dx: int, dy: int) -> Point {
    let cand = Point { x: (p.x + dx) as i64, y: (p.y + dy) as i64 };
    if m.blocked_at_world(cand.x as int, cand.y as int) {
        p
    } else {
        cand
    }
}

impl Viewer {
    /// Well-formed: position within the coordinate range, heading folded,
    /// field of view positive and at most a full turn.
    pub open spec fn wf(self) -> bool {
        &&& self.pos.in_bounds()
        &&& 0 <= self.heading < TURN_FULL
        &&& 0 < self.fov <= TURN_FULL
    }

    pub fn new(pos: Point, heading: i64, fov: i64) -> (r: Viewer)
        requires
            pos.in_bounds(),
            0 <= heading < TURN_FULL,
            0 < fov <= TURN_FULL,
        ensures
            r == (Viewer { pos, heading, fov }),
            r.wf(),
    {
        Viewer { pos, heading, fov }
    }

    /// Attempts to translate the viewer by `(dx, dy)`: the move commits
    /// exactly when the destination cell is free, and otherwise leaves the
    /// position unchanged. Heading and field of view are untouched.
    pub fn try_move(&mut self, dx: i64, dy: i64, map: &GridMap)
        requires
            old(self).wf(),
            map.wf(),
            -MOVE_LIMIT <= dx <= MOVE_LIMIT,
            -MOVE_LIMIT <= dy <= MOVE_LIMIT,
        ensures
            final(self).pos == spec_moved(*map, old(self).pos, dx as int, dy as int),
            final(self).heading == old(self).heading,
            final(self).fov == old(self).fov,
            final(self).wf(),
    {
        let nx: i64 = self.pos.x + dx;
        let ny: i64 = self.pos.y + dy;
        if !map.is_blocked_world(nx, ny) {
            proof {
                lemma_free_cell_in_bounds(*map, nx as int, ny as int);
            }
            self.pos = Point { x: nx, y: ny };
        }
    }

    /// Turns the viewer by `delta` microradians (negative is one way,
    /// positive the other), folding the heading back into
    /// `[0, TURN_FULL)`. Turning is never blocked by collision.
    pub fn turn(&mut self, delta: i64)
        requires
            old(self).wf(),
            -TURN_FULL <= delta <= TURN_FULL,
        ensures
            final(self).heading == wrap_angle(old(self).heading + delta),
            final(self).pos == old(self).pos,
            final(self).fov == old(self).fov,
            final(self).wf(),
    {
        let s: i64 = self.heading + delta;
        let h: i64 = if s < 0 {
            s + TURN_FULL
        } else if s >= TURN_FULL {
            s - TURN_FULL
        } else {
            s
        };
        proof {
            if s < 0 {
                lemma_fundamental_div_mod_converse(s as int, TURN_FULL as int, -1, h as int);
            } else if s >= TURN_FULL {
                lemma_fundamental_div_mod_converse(s as int, TURN_FULL as int, 1, h as int);
            } else {
                lemma_small_mod(s as nat, TURN_FULL as nat);
            }
        }
        self.heading = h;
    }

    /// Applies one tick of input: forward and backward moves along the
    /// caller-supplied displacement vector (each collision-checked), then
    /// the two turn keys, in that order.
    pub fn apply_input(&mut self, keys: KeyState, disp: Point, turn_delta: i64, map: &GridMap)
        requires
            old(self).wf(),
            map.wf(),
            -MOVE_LIMIT <= disp.x <= MOVE_LIMIT,
            -MOVE_LIMIT <= disp.y <= MOVE_LIMIT,
            0 <= turn_delta <= TURN_FULL,
        ensures
            ({
                let p1 = if keys.up {
                    spec_moved(*map, old(self).pos, disp.x as int, disp.y as int)
                } else {
                    old(self).pos
                };
                let p2 = if keys.down {
                    spec_moved(*map, p1, -disp.x as int, -disp.y as int)
                } else {
                    p1
                };
                final(self).pos == p2
            }),
            ({
                let h1 = if keys.left {
                    wrap_angle(old(self).heading - turn_delta)
                } else {
                    old(self).heading as int
                };
                let h2 = if keys.right {
                    wrap_angle(h1 + turn_delta)
                } else {
                    h1
                };
                final(self).heading == h2
            }),
            final(self).fov == old(self).fov,
            final(self).wf(),
    {
        if keys.up {
            self.try_move(disp.x, disp.y, map);
        }
        if keys.down {
            self.try_move(-disp.x, -disp.y, map);
        }
        if keys.left {
            self.turn(-turn_delta);
        }
        if keys.right {
            self.turn(turn_delta);
        }
    }
}

/// A position whose cell is free lies inside the map, hence within the
/// coordinate range: every cell outside the map counts as blocked.
pub proof fn lemma_free_cell_in_bounds(m: GridMap, x: int, y: int)
    requires
        m.wf(),
        !m.blocked_at_world(x, y),
    ensures
        0 <= x < 800_000,
        0 <= y < 800_000,
{
    let row = y / (crate::UNIT as int);
    let col = x / (crate::UNIT as int);
    assert(0 <= row < m.spec_rows() && 0 <= col < m.spec_cols());
    if x < 0 {
        vstd::arithmetic::div_mod::lemma_div_is_ordered(x, -1, crate::UNIT as int);
        assert((-1) / (crate::UNIT as int) == -1) by {
            lemma_fundamental_div_mod_converse(-1, crate::UNIT as int, -1, crate::UNIT - 1);
        }
    }
    if x >= 800_000 {
        vstd::arithmetic::div_mod::lemma_div_is_ordered(800_000, x, crate::UNIT as int);
        assert(800_000int / (crate::UNIT as int) == 800) by {
            lemma_fundamental_div_mod_converse(800_000, crate::UNIT as int, 800, 0);
        }
    }
    if y < 0 {
        vstd::arithmetic::div_mod::lemma_div_is_ordered(y, -1, crate::UNIT as int);
        assert((-1) / (crate::UNIT as int) == -1) by {
            lemma_fundamental_div_mod_converse(-1, crate::UNIT as int, -1, crate::UNIT - 1);
        }
    }
    if y >= 800_000 {
        vstd::arithmetic::div_mod::lemma_div_is_ordered(800_000, y, crate::UNIT as int);
        assert(800_000int / (crate::UNIT as int) == 800) by {
            lemma_fundamental_div_mod_converse(800_000, crate::UNIT as int, 800, 0);
        }
    }
}

} // verus!
