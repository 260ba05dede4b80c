//! The grid model.
//!
//! A `Room` owns a dense rectangular grid of tiles, stored row-major, and a
//! world-space origin added to every computed placement. Cells are addressed
//! by zero-based (column, row) coordinates; lookups beyond an edge are absent
//! rather than wrapping. The room also carries the grid-to-world geometry:
//! each cell is `CELL_Q` quarter units on a side, so cell `(x, y)` sits at
//! `origin + (x * CELL_Q, 0, y * CELL_Q)`.

use vstd::prelude::*;

use crate::geometry::WorldVec;
use crate::geometry::CELL_Q;
use crate::tile::GridDirection;
use crate::tile::TileCross;
use crate::tile::TileType;

verus! {

/// The largest accepted grid width or height, in cells. The bound keeps every
/// derived index and world coordinate comfortably inside machine integers.
pub const MAX_DIM: usize = 32768;

/// The largest accepted magnitude of an origin coordinate, in quarter units.
/// The bound keeps every placement coordinate inside a 64-bit integer.
pub const ORIGIN_LIMIT: i64 = 0x1000_0000_0000;

/// Whether every coordinate of `v` is small enough to serve as a room origin.
pub open spec fn origin_in_range(v: WorldVec) -> bool {
    -ORIGIN_LIMIT <= v.x <= ORIGIN_LIMIT && -ORIGIN_LIMIT <= v.y <= ORIGIN_LIMIT && -ORIGIN_LIMIT
        <= v.z <= ORIGIN_LIMIT
}

/// A cell's zero-based (column, row) coordinates.
#[derive(Clone, Copy, PartialEq, Eq, Structural, Debug)]
pub struct Location {
    pub x: usize,
    pub y: usize,
}

/// A rectangular grid of tiles with a world-space origin.
#[derive(Debug)]
pub struct Room {
    /// The tiles, row-major: cell `(x, y)` is `map[y * width + x]`. A cell
    /// holds `None` only when tooling has erased it; parsing fills every
    /// cell.
    pub map: Vec<Option<TileType>>,
    /// The grid's width in cells.
    pub width: usize,
    /// The grid's height in cells.
    pub height: usize,
    /// The world-space offset added to every computed placement, in quarter
    /// units.
    pub origin: WorldVec,
    /// The locations of all empty tiles, in row-major scan order, as
    /// collected when the room was parsed. Tooling that later mutates tiles
    /// through `set` leaves this list untouched.
    pub empty_locations: Vec<Location>,
}

impl Room {
    /// The grid's width in cells.
    pub open spec fn spec_width(&self) -> int {
        self.width as int
    }

    /// The grid's height in cells.
    pub open spec fn spec_height(&self) -> int {
        self.height as int
    }

    /// Well-formedness: the tile array is exactly width by height, both
    /// dimensions are positive and within `MAX_DIM`, and the origin is in
    /// range.
    pub open spec fn wf(&self) -> bool {
        &&& self.map@.len() == self.spec_width() * self.spec_height()
        &&& 1 <= self.spec_width() <= MAX_DIM
        &&& 1 <= self.spec_height() <= MAX_DIM
        &&& origin_in_range(self.origin)
    }

    /// Whether `(x, y)` lies inside the grid.
    pub open spec fn in_bounds(&self, x: int, y: int) -> bool {
        0 <= x < self.spec_width() && 0 <= y < self.spec_height()
    }

    /// The tile at `(x, y)`, absent outside the grid.
    pub open spec fn tile_at(&self, x: int, y: int) -> Option<TileType> {
        if self.in_bounds(x, y) {
            self.map@[y * self.spec_width() + x]
        } else {
            None
        }
    }

    /// The four cardinal neighbors of `(x, y)`.
    pub open spec fn cross_at(&self, x: int, y: int) -> TileCross {
        TileCross {
            north: self.tile_at(x, y - 1),
            south: self.tile_at(x, y + 1),
            west: self.tile_at(x - 1, y),
            east: self.tile_at(x + 1, y),
        }
    }

    /// The world-space position of cell `(x, y)`, in quarter units.
    pub open spec fn spec_translation(&self, x: int, y: int) -> WorldVec {
        WorldVec {
            x: (self.origin.x + x * CELL_Q) as i64,
            y: self.origin.y,
            z: (self.origin.z + y * CELL_Q) as i64,
        }
    }

    /// Constructs a room directly from its parts. Parsing through `from_str`
    /// is the usual way to obtain a room; this constructor serves tests and
    /// tooling that already hold a tile array.
    pub fn new(
        map: Vec<Option<TileType>>,
        width: usize,
        height: usize,
        origin: WorldVec,
        empty_locations: Vec<Location>,
    ) -> (room: Room)
        requires
            map@.len() == width * height,
            1 <= width <= MAX_DIM,
            1 <= height <= MAX_DIM,
            origin_in_range(origin),
        ensures
            room.wf(),
            room.map == map,
            room.spec_width() == width,
            room.spec_height() == height,
            room.origin == origin,
            room.empty_locations == empty_locations,
    {
        Room { map, width, height, origin, empty_locations }
    }

    /// The grid's width in cells.
    pub fn width(&self) -> (w: usize)
        ensures
            w == self.spec_width(),
    {
        self.width
    }

    /// The grid's height in cells.
    pub fn height(&self) -> (h: usize)
        ensures
            h == self.spec_height(),
    {
        self.height
    }

    /// The number of cells in the grid.
    pub fn total_tiles(&self) -> (n: usize)
        requires
            self.wf(),
        ensures
            n == self.spec_width() * self.spec_height(),
    {
        proof {
            lemma_row_major_index_bounds(
                self.spec_width(),
                self.spec_height(),
                self.spec_width() - 1,
                self.spec_height() - 1,
            );
        }
        self.width * self.height
    }

    /// The tile at `(x, y)`. Bounds are the caller's obligation: an
    /// out-of-range access is a programming error, not a recoverable
    /// condition.
    pub fn get(&self, x: usize, y: usize) -> (t: Option<TileType>)
        requires
            self.wf(),
            x < self.spec_width(),
            y < self.spec_height(),
        ensures
            t == self.tile_at(x as int, y as int),
    {
        proof {
            lemma_row_major_index_bounds(
                self.spec_width(),
                self.spec_height(),
                x as int,
                y as int,
            );
        }
        self.map[y * self.width + x]
    }

    /// Replaces the tile at `(x, y)`; a tooling mutator, unused by the
    /// compiler itself. The tile array changes at that one cell and every
    /// other field keeps its value (in particular `empty_locations`, which
    /// may go stale).
    pub fn set(&mut self, x: usize, y: usize, tile: Option<TileType>)
        requires
            old(self).wf(),
            x < old(self).spec_width(),
            y < old(self).spec_height(),
        ensures
            final(self).wf(),
            final(self).map@ == old(self).map@.update(
                y * old(self).spec_width() + x,
                tile,
            ),
            final(self).spec_width() == old(self).spec_width(),
            final(self).spec_height() == old(self).spec_height(),
            final(self).origin == old(self).origin,
            final(self).empty_locations == old(self).empty_locations,
            final(self).tile_at(x as int, y as int) == tile,
    {
        proof {
            lemma_row_major_index_bounds(
                self.spec_width(),
                self.spec_height(),
                x as int,
                y as int,
            );
        }
        let idx = y * self.width + x;
        self.map.set(idx, tile);
    }

    /// The neighbor of `(x, y)` one step in `direction`, absent when that
    /// step leaves the grid. No wraparound.
    pub fn get_adjacent(&self, x: usize, y: usize, direction: GridDirection) -> (t: Option<
        TileType,
    >)
        requires
            self.wf(),
            x < self.spec_width(),
            y < self.spec_height(),
        ensures
            direction == GridDirection::North ==> t == self.tile_at(x as int, y as int - 1),
            direction == GridDirection::South ==> t == self.tile_at(x as int, y as int + 1),
            direction == GridDirection::West ==> t == self.tile_at(x as int - 1, y as int),
            direction == GridDirection::East ==> t == self.tile_at(x as int + 1, y as int),
    {
        match direction {
            GridDirection::North => {
                if y == 0 {
                    None
                } else {
                    self.get(x, y - 1)
                }
            },
            GridDirection::South => {
                if y >= self.height - 1 {
                    None
                } else {
                    self.get(x, y + 1)
                }
            },
            GridDirection::East => {
                if x >= self.width - 1 {
                    None
                } else {
                    self.get(x + 1, y)
                }
            },
            GridDirection::West => {
                if x == 0 {
                    None
                } else {
                    self.get(x - 1, y)
                }
            },
        }
    }

    /// The four cardinal neighbors of `(x, y)`.
    pub fn get_surrounding(&self, x: usize, y: usize) -> (c: TileCross)
        requires
            self.wf(),
            x < self.spec_width(),
            y < self.spec_height(),
        ensures
            c == self.cross_at(x as int, y as int),
    {
        TileCross {
            north: self.get_adjacent(x, y, GridDirection::North),
            south: self.get_adjacent(x, y, GridDirection::South),
            west: self.get_adjacent(x, y, GridDirection::West),
            east: self.get_adjacent(x, y, GridDirection::East),
        }
    }

    /// The world-space position of cell `(x, y)`, in quarter units: the
    /// origin plus `CELL_Q` per cell along each axis.
    pub fn get_translation(&self, x: usize, y: usize) -> (v: WorldVec)
        requires
            self.wf(),
            x < self.spec_width(),
            y < self.spec_height(),
        ensures
            v == self.spec_translation(x as int, y as int),
    {
        WorldVec {
            x: self.origin.x + (x as i64) * CELL_Q,
            y: self.origin.y,
            z: self.origin.z + (y as i64) * CELL_Q,
        }
    }

    /// The grid's physical extent in quarter units: `CELL_Q` per cell along
    /// each axis, flat in y.
    pub fn get_physical_size(&self) -> (v: WorldVec)
        requires
            self.wf(),
        ensures
            v == (WorldVec {
                x: (self.spec_width() * CELL_Q) as i64,
                y: 0,
                z: (self.spec_height() * CELL_Q) as i64,
            }),
    {
        WorldVec { x: (self.width as i64) * CELL_Q, y: 0, z: (self.height as i64) * CELL_Q }
    }

    /// The center of the grid's cell positions in world space: the origin
    /// plus half the physical extent, pulled back by half a cell so that it
    /// sits midway between the first and last cell centers.
    pub fn get_center(&self) -> (v: WorldVec)
        requires
            self.wf(),
        ensures
            v == (WorldVec {
                x: (self.origin.x + self.spec_width() * (CELL_Q / 2) - CELL_Q / 2) as i64,
                y: self.origin.y,
                z: (self.origin.z + self.spec_height() * (CELL_Q / 2) - CELL_Q / 2) as i64,
            }),
    {
        WorldVec {
            x: self.origin.x + (self.width as i64) * (CELL_Q / 2) - CELL_Q / 2,
            y: self.origin.y,
            z: self.origin.z + (self.height as i64) * (CELL_Q / 2) - CELL_Q / 2,
        }
    }

    /// The half-extent, in quarter units, of a box that spans the cell
    /// centers of the whole grid: half of `(width - 1)` cells along x and of
    /// `(height - 1)` cells along z, flat in y.
    pub fn get_collider_size(&self) -> (v: WorldVec)
        requires
            self.wf(),
        ensures
            v == (WorldVec {
                x: ((self.spec_width() - 1) * (CELL_Q / 2)) as i64,
                y: 0,
                z: ((self.spec_height() - 1) * (CELL_Q / 2)) as i64,
            }),
    {
        WorldVec {
            x: ((self.width - 1) as i64) * (CELL_Q / 2),
            y: 0,
            z: ((self.height - 1) as i64) * (CELL_Q / 2),
        }
    }

    /// The tiles of one row, west to east.
    pub fn row_iter(&self, row: usize) -> (tiles: Vec<Option<TileType>>)
        requires
            self.wf(),
            row < self.spec_height(),
        ensures
            tiles@.len() == self.spec_width(),
            forall|i: int|
                0 <= i < self.spec_width() ==> tiles@[i] == self.tile_at(i, row as int),
    {
        let mut tiles: Vec<Option<TileType>> = Vec::new();
        let mut i: usize = 0;
        while i < self.width
            invariant
                self.wf(),
                row < self.spec_height(),
                i <= self.spec_width(),
                tiles@.len() == i,
                forall|j: int| 0 <= j < i ==> tiles@[j] == self.tile_at(j, row as int),
            decreases self.spec_width() - i,
        {
            tiles.push(self.get(i, row));
            i += 1;
        }
        tiles
    }

    /// The tiles of one column, north to south.
    pub fn column_iter(&self, column: usize) -> (tiles: Vec<Option<TileType>>)
        requires
            self.wf(),
            column < self.spec_width(),
        ensures
            tiles@.len() == self.spec_height(),
            forall|i: int|
                0 <= i < self.spec_height() ==> tiles@[i] == self.tile_at(column as int, i),
    {
        let mut tiles: Vec<Option<TileType>> = Vec::new();
        let mut i: usize = 0;
        while i < self.height
            invariant
                self.wf(),
                column < self.spec_width(),
                i <= self.spec_height(),
                tiles@.len() == i,
                forall|j: int| 0 <= j < i ==> tiles@[j] == self.tile_at(column as int, j),
            decreases self.spec_height() - i,
        {
            tiles.push(self.get(column, i));
            i += 1;
        }
        tiles
    }
}

/// A row-major index stays below the array length: for `x < w` and `y < h`,
/// `y * w + x < w * h`.
#[verifier::nonlinear]
pub proof fn lemma_row_major_index_bounds(w: int, h: int, x: int, y: int)
    requires
        0 <= x < w <= MAX_DIM,
        0 <= y < h <= MAX_DIM,
    ensures
        0 <= y * w + x < w * h <= MAX_DIM * MAX_DIM,
{
}

} // verus!
