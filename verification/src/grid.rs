//! Occupancy map: a fixed-dimension grid of passable/blocked cells, indexed
//! by integer row and column derived from floor division of world
//! coordinates. Out-of-range lookups are treated as blocked, a safe default
//! rather than a fault.

use vstd::prelude::*;

verus! {

use crate::UNIT;
use crate::fixed::{floor_div, cell_index};

/// Largest number of rows or columns an occupancy map may have; keeps every
/// in-map world coordinate within the geometry kernel's coordinate range.
pub const MAX_DIM: usize = 800;

/// A grid of cells, each holding a binary state: zero is free, anything
/// else is blocked. Immutable during play; the only writer is the
/// constructor.
pub struct GridMap {
    pub cells: Vec<Vec<i32>>,
}

impl GridMap {
    pub open spec fn spec_rows(self) -> int {
        self.cells@.len() as int
    }

    pub open spec fn spec_cols(self) -> int {
        if self.cells@.len() == 0 {
            0
        } else {
            self.cells@[0]@.len() as int
        }
    }

    /// Well-formed: rectangular, with both dimensions within [`MAX_DIM`].
    pub open spec fn wf(self) -> bool {
        &&& self.spec_rows() <= MAX_DIM
        &&& self.spec_cols() <= MAX_DIM
        &&& forall|i: int|
            0 <= i < self.cells@.len() ==> (#[trigger] self.cells@[i])@.len() == self.spec_cols()
    }

    /// The cell at `(row, col)` is blocked; any out-of-range index counts
    /// as blocked.
    pub open spec fn blocked_at(self, row: int, col: int) -> bool {
        if 0 <= row < self.spec_rows() && 0 <= col < self.spec_cols() {
            self.cells@[row]@[col] != 0
        } else {
            true
        }
    }

    /// The cell under the fixed-point world position `(x, y)` is blocked:
    /// the row comes from the y coordinate and the column from the x
    /// coordinate, each floored to a cell index.
    pub open spec fn blocked_at_world(self, x: int, y: int) -> bool {
        self.blocked_at(floor_div(y, UNIT as int), floor_div(x, UNIT as int))
    }

    /// Builds a map from rows of cell values (zero free, nonzero blocked).
    /// Returns nothing when the rows are ragged or a dimension exceeds
    /// [`MAX_DIM`].
    pub fn from_rows(rows: Vec<Vec<i32>>) -> (r: Option<GridMap>)
        ensures
            r is Some <==> (rows@.len() <= MAX_DIM && (rows@.len() == 0 || (
            rows@[0]@.len() <= MAX_DIM && forall|i: int|
                0 <= i < rows@.len() ==> (#[trigger] rows@[i])@.len() == rows@[0]@.len()))),
            r matches Some(m) ==> m.cells@ == rows@ && m.wf(),
    {
        if rows.len() > MAX_DIM {
            return None;
        }
        if rows.len() == 0 {
            return Some(GridMap { cells: rows });
        }
        let cols: usize = rows[0].len();
        if cols > MAX_DIM {
            return None;
        }
        let mut i: usize = 1;
        while i < rows.len()
            invariant
                1 <= i <= rows@.len(),
                cols == rows@[0]@.len(),
                forall|k: int| 0 <= k < i ==> (#[trigger] rows@[k])@.len() == cols,
            decreases rows@.len() - i,
        {
            if rows[i].len() != cols {
                return None;
            }
            i = i + 1;
        }
        Some(GridMap { cells: rows })
    }

    /// The number of rows and columns.
    pub fn dimensions(&self) -> (r: (usize, usize))
        requires
            self.wf(),
        ensures
            r.0 == self.spec_rows(),
            r.1 == self.spec_cols(),
    {
        if self.cells.len() == 0 {
            (0, 0)
        } else {
            (self.cells.len(), self.cells[0].len())
        }
    }

    /// Whether the cell at `(row, col)` is blocked; out-of-range indices
    /// report blocked rather than faulting.
    pub fn is_blocked(&self, row: i64, col: i64) -> (r: bool)
        requires
            self.wf(),
        ensures
            r == self.blocked_at(row as int, col as int),
    {
        if row < 0 || col < 0 {
            return true;
        }
        let (nrows, ncols) = self.dimensions();
        if row >= nrows as i64 || col >= ncols as i64 {
            return true;
        }
        self.cells[row as usize][col as usize] != 0
    }

    /// Whether the cell under the fixed-point world position `(x, y)` is
    /// blocked.
    pub fn is_blocked_world(&self, x: i64, y: i64) -> (r: bool)
        requires
            self.wf(),
            -4_000_000 <= x <= 4_000_000,
            -4_000_000 <= y <= 4_000_000,
        ensures
            r == self.blocked_at_world(x as int, y as int),
    {
        let row: i64 = cell_index(y);
        let col: i64 = cell_index(x);
        self.is_blocked(row, col)
    }
}

} // verus!
