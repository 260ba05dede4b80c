//! The part classifier.
//!
//! Every wall or door tile resolves, by its four cardinal neighbors alone, to
//! exactly one renderable part category. The rules are an ordered list and
//! the first match wins; the order is load-bearing, since several rules can
//! structurally match one neighborhood. Corner names follow the open
//! diagonal, not the walled side: a tile whose north and east neighbors are
//! wall-like opens toward the south-west and is the `SWestCorner`.

use vstd::prelude::*;

use crate::tile::open_side;
use crate::tile::tile_wall_like;
use crate::tile::wall_like;
use crate::tile::TileCross;
use crate::tile::TileType;

verus! {

/// The structural category a tile resolves to: a straight wall or a door by
/// the side it faces, a corner by its open diagonal, a T-junction by the side
/// its stem points away from, a four-way junction, or no part at all.
#[derive(Clone, Copy, PartialEq, Eq, Structural, Debug)]
pub enum RenderableParts {
    NorthWall,
    SouthWall,
    EastWall,
    WestWall,
    NorthDoor,
    SouthDoor,
    EastDoor,
    WestDoor,
    NWestCorner,
    NEastCorner,
    SWestCorner,
    SEastCorner,
    NorthT,
    SouthT,
    EastT,
    WestT,
    MultiCorner,
    NoPart,
}

/// The part a wall tile with neighborhood `c` resolves to. The rules are
/// tried in order and the first match wins: the four-way junction, then the
/// four T-junctions, then the four corners (named for the open diagonal),
/// then the straight walls, whose facing is the open side.
pub open spec fn classify_wall(c: TileCross) -> RenderableParts {
    if wall_like(c.north) && wall_like(c.south) && wall_like(c.east) && wall_like(c.west) {
        RenderableParts::MultiCorner
    } else if wall_like(c.south) && wall_like(c.east) && wall_like(c.west) {
        RenderableParts::NorthT
    } else if wall_like(c.north) && wall_like(c.east) && wall_like(c.west) {
        RenderableParts::SouthT
    } else if wall_like(c.south) && wall_like(c.north) && wall_like(c.west) {
        RenderableParts::EastT
    } else if wall_like(c.south) && wall_like(c.east) && wall_like(c.north) {
        RenderableParts::WestT
    } else if wall_like(c.north) && wall_like(c.east) {
        RenderableParts::SWestCorner
    } else if wall_like(c.north) && wall_like(c.west) {
        RenderableParts::SEastCorner
    } else if wall_like(c.south) && wall_like(c.east) {
        RenderableParts::NWestCorner
    } else if wall_like(c.south) && wall_like(c.west) {
        RenderableParts::NEastCorner
    } else if wall_like(c.east) && wall_like(c.west) {
        if open_side(c.south) {
            RenderableParts::SouthWall
        } else if open_side(c.north) {
            RenderableParts::NorthWall
        } else {
            RenderableParts::NoPart
        }
    } else if wall_like(c.north) && wall_like(c.south) {
        if open_side(c.west) {
            RenderableParts::WestWall
        } else if open_side(c.east) {
            RenderableParts::EastWall
        } else {
            RenderableParts::NoPart
        }
    } else {
        RenderableParts::NoPart
    }
}

/// The part a door tile with neighborhood `c` resolves to: a door facing the
/// open side of a straight east-west or north-south wall run, and no part
/// when neither axis holds a wall-like pair (an invalid door placement).
pub open spec fn classify_door(c: TileCross) -> RenderableParts {
    if wall_like(c.east) && wall_like(c.west) {
        if open_side(c.south) {
            RenderableParts::SouthDoor
        } else if open_side(c.north) {
            RenderableParts::NorthDoor
        } else {
            RenderableParts::NoPart
        }
    } else if wall_like(c.north) && wall_like(c.south) {
        if open_side(c.west) {
            RenderableParts::WestDoor
        } else if open_side(c.east) {
            RenderableParts::EastDoor
        } else {
            RenderableParts::NoPart
        }
    } else {
        RenderableParts::NoPart
    }
}

/// The part any (possibly absent) tile with neighborhood `c` resolves to:
/// wall tiles through the wall rules, door tiles through the door rules,
/// empty or absent tiles to no part.
pub open spec fn classify(tile: Option<TileType>, c: TileCross) -> RenderableParts {
    match tile {
        Some(TileType::Wall) => classify_wall(c),
        Some(TileType::Door) => classify_door(c),
        Some(TileType::Empty) => RenderableParts::NoPart,
        None => RenderableParts::NoPart,
    }
}

/// Whether the neighborhood holds a straight wall-like pair on some axis with
/// an open side to face: exactly the neighborhoods on which a door resolves
/// to a part.
pub open spec fn door_axis_valid(c: TileCross) -> bool {
    (wall_like(c.east) && wall_like(c.west) && (open_side(c.south) || open_side(c.north)))
        || (wall_like(c.north) && wall_like(c.south) && (open_side(c.west) || open_side(c.east)))
}

impl TileCross {
    /// Resolves a wall tile with this neighborhood to its part.
    pub fn wall_from_surrounding(self) -> (p: RenderableParts)
        ensures
            p == classify_wall(self),
    {
        if tile_wall_like(self.north) && tile_wall_like(self.south) && tile_wall_like(self.east)
            && tile_wall_like(self.west) {
            RenderableParts::MultiCorner
        } else if tile_wall_like(self.south) && tile_wall_like(self.east) && tile_wall_like(
            self.west,
        ) {
            RenderableParts::NorthT
        } else if tile_wall_like(self.north) && tile_wall_like(self.east) && tile_wall_like(
            self.west,
        ) {
            RenderableParts::SouthT
        } else if tile_wall_like(self.south) && tile_wall_like(self.north) && tile_wall_like(
            self.west,
        ) {
            RenderableParts::EastT
        } else if tile_wall_like(self.south) && tile_wall_like(self.east) && tile_wall_like(
            self.north,
        ) {
            RenderableParts::WestT
        } else if tile_wall_like(self.north) && tile_wall_like(self.east) {
            RenderableParts::SWestCorner
        } else if tile_wall_like(self.north) && tile_wall_like(self.west) {
            RenderableParts::SEastCorner
        } else if tile_wall_like(self.south) && tile_wall_like(self.east) {
            RenderableParts::NWestCorner
        } else if tile_wall_like(self.south) && tile_wall_like(self.west) {
            RenderableParts::NEastCorner
        } else if tile_wall_like(self.east) && tile_wall_like(self.west) {
            if !tile_wall_like(self.south) {
                RenderableParts::SouthWall
            } else if !tile_wall_like(self.north) {
                RenderableParts::NorthWall
            } else {
                RenderableParts::NoPart
            }
        } else if tile_wall_like(self.north) && tile_wall_like(self.south) {
            if !tile_wall_like(self.west) {
                RenderableParts::WestWall
            } else if !tile_wall_like(self.east) {
                RenderableParts::EastWall
            } else {
                RenderableParts::NoPart
            }
        } else {
            RenderableParts::NoPart
        }
    }

    /// Resolves a door tile with this neighborhood to its part; `NoPart`
    /// marks an invalid door placement.
    pub fn door_from_surrounding(self) -> (p: RenderableParts)
        ensures
            p == classify_door(self),
    {
        if tile_wall_like(self.east) && tile_wall_like(self.west) {
            if !tile_wall_like(self.south) {
                RenderableParts::SouthDoor
            } else if !tile_wall_like(self.north) {
                RenderableParts::NorthDoor
            } else {
                RenderableParts::NoPart
            }
        } else if tile_wall_like(self.north) && tile_wall_like(self.south) {
            if !tile_wall_like(self.west) {
                RenderableParts::WestDoor
            } else if !tile_wall_like(self.east) {
                RenderableParts::EastDoor
            } else {
                RenderableParts::NoPart
            }
        } else {
            RenderableParts::NoPart
        }
    }
}

/// Resolves a (possibly absent) tile with neighborhood `c` to its part.
pub fn classify_tile(tile: Option<TileType>, c: TileCross) -> (p: RenderableParts)
    ensures
        p == classify(tile, c),
{
    match tile {
        Some(TileType::Wall) => c.wall_from_surrounding(),
        Some(TileType::Door) => c.door_from_surrounding(),
        Some(TileType::Empty) => RenderableParts::NoPart,
        None => RenderableParts::NoPart,
    }
}

/// Classification is a pure function of the tile type and the neighborhood:
/// any two classifications of identical inputs agree.
pub proof fn lemma_classification_deterministic(
    tile: Option<TileType>,
    c: TileCross,
    p1: RenderableParts,
    p2: RenderableParts,
)
    requires
        p1 == classify(tile, c),
        p2 == classify(tile, c),
    ensures
        p1 == p2,
{
}

/// The wall rules resolve each neighborhood by the exact set of wall-like
/// neighbors: every junction, corner, and straight wall variant is produced
/// precisely when the neighbors its name implies are wall-like and the
/// remaining neighbors are not. In particular the rule order collapses to a
/// function of that set: north-facing and east-facing straight walls are
/// never produced (their neighborhoods resolve to a junction first), and no
/// part is produced exactly when fewer than two neighbors are wall-like.
pub proof fn lemma_wall_classification_exact(c: TileCross)
    ensures
        classify_wall(c) == RenderableParts::MultiCorner <==> (wall_like(c.north) && wall_like(
            c.south,
        ) && wall_like(c.east) && wall_like(c.west)),
        classify_wall(c) == RenderableParts::NorthT <==> (!wall_like(c.north) && wall_like(c.south)
            && wall_like(c.east) && wall_like(c.west)),
        classify_wall(c) == RenderableParts::SouthT <==> (wall_like(c.north) && !wall_like(c.south)
            && wall_like(c.east) && wall_like(c.west)),
        classify_wall(c) == RenderableParts::EastT <==> (wall_like(c.north) && wall_like(c.south)
            && !wall_like(c.east) && wall_like(c.west)),
        classify_wall(c) == RenderableParts::WestT <==> (wall_like(c.north) && wall_like(c.south)
            && wall_like(c.east) && !wall_like(c.west)),
        classify_wall(c) == RenderableParts::SWestCorner <==> (wall_like(c.north) && !wall_like(
            c.south,
        ) && wall_like(c.east) && !wall_like(c.west)),
        classify_wall(c) == RenderableParts::SEastCorner <==> (wall_like(c.north) && !wall_like(
            c.south,
        ) && !wall_like(c.east) && wall_like(c.west)),
        classify_wall(c) == RenderableParts::NWestCorner <==> (!wall_like(c.north) && wall_like(
            c.south,
        ) && wall_like(c.east) && !wall_like(c.west)),
        classify_wall(c) == RenderableParts::NEastCorner <==> (!wall_like(c.north) && wall_like(
            c.south,
        ) && !wall_like(c.east) && wall_like(c.west)),
        classify_wall(c) == RenderableParts::SouthWall <==> (!wall_like(c.north) && !wall_like(
            c.south,
        ) && wall_like(c.east) && wall_like(c.west)),
        classify_wall(c) == RenderableParts::WestWall <==> (wall_like(c.north) && wall_like(c.south)
            && !wall_like(c.east) && !wall_like(c.west)),
        classify_wall(c) != RenderableParts::NorthWall,
        classify_wall(c) != RenderableParts::EastWall,
        classify_wall(c) == RenderableParts::NoPart <==> !(wall_like(c.north) && wall_like(c.south))
            && !(wall_like(c.north) && wall_like(c.east)) && !(wall_like(c.north) && wall_like(
            c.west,
        )) && !(wall_like(c.south) && wall_like(c.east)) && !(wall_like(c.south) && wall_like(
            c.west,
        )) && !(wall_like(c.east) && wall_like(c.west)),
{
}

/// The door rules resolve each neighborhood exactly: a door faces the open
/// side of its wall-like axis (south and west preferred over north and east),
/// and resolves to no part precisely when no axis holds a wall-like pair with
/// an open side to face.
pub proof fn lemma_door_classification_exact(c: TileCross)
    ensures
        classify_door(c) == RenderableParts::SouthDoor <==> (wall_like(c.east) && wall_like(c.west)
            && open_side(c.south)),
        classify_door(c) == RenderableParts::NorthDoor <==> (wall_like(c.east) && wall_like(c.west)
            && wall_like(c.south) && open_side(c.north)),
        classify_door(c) == RenderableParts::WestDoor <==> (wall_like(c.north) && wall_like(c.south)
            && open_side(c.west)),
        classify_door(c) == RenderableParts::EastDoor <==> (wall_like(c.north) && wall_like(c.south)
            && wall_like(c.west) && open_side(c.east)),
        classify_door(c) == RenderableParts::NoPart <==> !door_axis_valid(c),
{
}

} // verus!
