//! A 2D / pseudo-3D raycasting core over a grid-based occupancy map.
//!
//! World coordinates are fixed-point integers: [`UNIT`] subunits make one
//! world unit (one grid cell). All geometry, ray marching, projection and
//! viewer motion are exact integer computations with verified contracts;
//! the host application converts to and from its own floating-point or
//! screen representation at the boundary.

use vstd::prelude::*;

pub mod draw;
pub mod fixed;
pub mod geometry;
pub mod grid;
pub mod march;
pub mod shade;
pub mod sight;
pub mod viewer;

verus! {

/// Fixed-point subunits per world unit (one occupancy-map cell).
pub const UNIT: i64 = 1000;

/// Largest coordinate magnitude the geometry kernel accepts.
///
/// This bound keeps every intermediate product of the segment-intersection
/// determinant arithmetic inside `i64`.
pub const COORD_LIMIT: i64 = 800_000;

/// A point is representable when both coordinates are within [`COORD_LIMIT`].
pub open spec fn coord_in_bounds(v: int) -> bool {
    -COORD_LIMIT <= v <= COORD_LIMIT
}

} // verus!
