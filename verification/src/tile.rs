//! Tiles and four-neighborhoods.
//!
//! A grid cell holds a `TileType` (wall, door, or empty floor); a cell outside
//! the grid is absent, written `None`. Walls and doors are the wall-like
//! tiles: they connect to neighboring walls when parts are classified.

use vstd::prelude::*;

verus! {

/// One grid cell's classification.
#[derive(Clone, Copy, PartialEq, Eq, Structural, Debug)]
pub enum TileType {
    /// A solid wall tile, written `x` in a map.
    Wall,
    /// A doorway tile, written `d` in a map.
    Door,
    /// An open floor tile, written as any other character.
    Empty,
}

impl TileType {
    /// Whether this tile connects to neighboring walls: true of walls and
    /// doors, false of empty floor.
    pub open spec fn spec_is_wall_like(self) -> bool {
        self == TileType::Wall || self == TileType::Door
    }

    /// Whether this tile connects to neighboring walls: true of walls and
    /// doors, false of empty floor.
    pub fn is_wall_like(self) -> (r: bool)
        ensures
            r == self.spec_is_wall_like(),
    {
        match self {
            TileType::Wall => true,
            TileType::Door => true,
            TileType::Empty => false,
        }
    }
}

/// Whether a possibly absent tile is wall-like: absent tiles are not.
pub open spec fn wall_like(t: Option<TileType>) -> bool {
    t == Some(TileType::Wall) || t == Some(TileType::Door)
}

/// Whether a possibly absent tile leaves the side open: true of empty floor
/// and of absent tiles (beyond the grid edge); the negation of `wall_like`.
pub open spec fn open_side(t: Option<TileType>) -> bool {
    !wall_like(t)
}

/// Whether a possibly absent tile is wall-like.
pub fn tile_wall_like(t: Option<TileType>) -> (r: bool)
    ensures
        r == wall_like(t),
{
    match t {
        Some(tile) => tile.is_wall_like(),
        None => false,
    }
}

/// One of the four cardinal directions on the grid. North is toward smaller
/// row numbers, west toward smaller column numbers.
#[derive(Clone, Copy, PartialEq, Eq, Structural, Debug)]
pub enum GridDirection {
    North,
    South,
    West,
    East,
}

/// The four cardinal neighbors of a cell, each absent when the cell sits on
/// the corresponding grid edge.
#[derive(Clone, Copy, Debug)]
pub struct TileCross {
    pub north: Option<TileType>,
    pub south: Option<TileType>,
    pub west: Option<TileType>,
    pub east: Option<TileType>,
}

} // verus!
