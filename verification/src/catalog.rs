//! The part catalog.
//!
//! The caller supplies, for each of the seventeen placeable part categories,
//! the model to spawn and the part-local collider boxes; the classifier's
//! convention fixes each category's rotation. `Catalog::standard` builds the
//! reference catalog from five model handles, with the collider geometry the
//! part models were drawn for.

use vstd::prelude::*;

use crate::classify::RenderableParts;
use crate::geometry::Rotation;
use crate::geometry::WorldVec;

verus! {

/// An opaque reference to a model owned by the caller; the library never
/// inspects it.
pub type ModelId = u64;

/// One axis-aligned box collider in a part's local frame: a half-extent and
/// the offset of the box center from the cell center, both in quarter units,
/// before the part's rotation and the fixed vertical lift are applied.
#[derive(Clone, Copy, PartialEq, Eq, Structural, Debug)]
pub struct ColliderShape {
    pub half_extent: WorldVec,
    pub offset: WorldVec,
}

/// What one part category spawns: a model and its local collider boxes.
#[derive(Clone, Debug)]
pub struct PartSpec {
    pub model: ModelId,
    pub colliders: Vec<ColliderShape>,
}

/// A total mapping from the seventeen placeable part categories to their
/// part specifications.
#[derive(Clone, Debug)]
pub struct Catalog {
    pub north_wall: PartSpec,
    pub south_wall: PartSpec,
    pub east_wall: PartSpec,
    pub west_wall: PartSpec,
    pub north_door: PartSpec,
    pub south_door: PartSpec,
    pub east_door: PartSpec,
    pub west_door: PartSpec,
    pub nwest_corner: PartSpec,
    pub neast_corner: PartSpec,
    pub swest_corner: PartSpec,
    pub seast_corner: PartSpec,
    pub north_t: PartSpec,
    pub south_t: PartSpec,
    pub east_t: PartSpec,
    pub west_t: PartSpec,
    pub multi_corner: PartSpec,
}

impl RenderableParts {
    /// The fixed rotation of each part category about the vertical axis:
    /// north-facing parts stand unrotated, the others turn in quarter steps.
    pub open spec fn spec_rotation(self) -> Rotation {
        match self {
            RenderableParts::NorthWall => Rotation::R0,
            RenderableParts::SouthWall => Rotation::R180,
            RenderableParts::EastWall => Rotation::R90,
            RenderableParts::WestWall => Rotation::R270,
            RenderableParts::NorthDoor => Rotation::R0,
            RenderableParts::SouthDoor => Rotation::R180,
            RenderableParts::EastDoor => Rotation::R90,
            RenderableParts::WestDoor => Rotation::R270,
            RenderableParts::NEastCorner => Rotation::R0,
            RenderableParts::SWestCorner => Rotation::R180,
            RenderableParts::SEastCorner => Rotation::R270,
            RenderableParts::NWestCorner => Rotation::R90,
            RenderableParts::NorthT => Rotation::R0,
            RenderableParts::SouthT => Rotation::R180,
            RenderableParts::EastT => Rotation::R270,
            RenderableParts::WestT => Rotation::R90,
            RenderableParts::MultiCorner => Rotation::R0,
            RenderableParts::NoPart => Rotation::R0,
        }
    }

    /// The fixed rotation of each part category about the vertical axis.
    pub fn rotation(self) -> (r: Rotation)
        ensures
            r == self.spec_rotation(),
    {
        match self {
            RenderableParts::NorthWall => Rotation::R0,
            RenderableParts::SouthWall => Rotation::R180,
            RenderableParts::EastWall => Rotation::R90,
            RenderableParts::WestWall => Rotation::R270,
            RenderableParts::NorthDoor => Rotation::R0,
            RenderableParts::SouthDoor => Rotation::R180,
            RenderableParts::EastDoor => Rotation::R90,
            RenderableParts::WestDoor => Rotation::R270,
            RenderableParts::NEastCorner => Rotation::R0,
            RenderableParts::SWestCorner => Rotation::R180,
            RenderableParts::SEastCorner => Rotation::R270,
            RenderableParts::NWestCorner => Rotation::R90,
            RenderableParts::NorthT => Rotation::R0,
            RenderableParts::SouthT => Rotation::R180,
            RenderableParts::EastT => Rotation::R270,
            RenderableParts::WestT => Rotation::R90,
            RenderableParts::MultiCorner => Rotation::R0,
            RenderableParts::NoPart => Rotation::R0,
        }
    }
}

impl Catalog {
    /// The catalog entry of a placeable part category.
    pub open spec fn spec_lookup(&self, p: RenderableParts) -> PartSpec
        recommends
            p != RenderableParts::NoPart,
    {
        match p {
            RenderableParts::NorthWall => self.north_wall,
            RenderableParts::SouthWall => self.south_wall,
            RenderableParts::EastWall => self.east_wall,
            RenderableParts::WestWall => self.west_wall,
            RenderableParts::NorthDoor => self.north_door,
            RenderableParts::SouthDoor => self.south_door,
            RenderableParts::EastDoor => self.east_door,
            RenderableParts::WestDoor => self.west_door,
            RenderableParts::NWestCorner => self.nwest_corner,
            RenderableParts::NEastCorner => self.neast_corner,
            RenderableParts::SWestCorner => self.swest_corner,
            RenderableParts::SEastCorner => self.seast_corner,
            RenderableParts::NorthT => self.north_t,
            RenderableParts::SouthT => self.south_t,
            RenderableParts::EastT => self.east_t,
            RenderableParts::WestT => self.west_t,
            RenderableParts::MultiCorner => self.multi_corner,
            RenderableParts::NoPart => arbitrary(),
        }
    }

    /// The catalog entry of a placeable part category. `NoPart` has no
    /// entry: a cell that resolves to it spawns nothing.
    pub fn lookup(&self, p: RenderableParts) -> (entry: &PartSpec)
        requires
            p != RenderableParts::NoPart,
        ensures
            *entry == self.spec_lookup(p),
    {
        match p {
            RenderableParts::NorthWall => &self.north_wall,
            RenderableParts::SouthWall => &self.south_wall,
            RenderableParts::EastWall => &self.east_wall,
            RenderableParts::WestWall => &self.west_wall,
            RenderableParts::NorthDoor => &self.north_door,
            RenderableParts::SouthDoor => &self.south_door,
            RenderableParts::EastDoor => &self.east_door,
            RenderableParts::WestDoor => &self.west_door,
            RenderableParts::NWestCorner => &self.nwest_corner,
            RenderableParts::NEastCorner => &self.neast_corner,
            RenderableParts::SWestCorner => &self.swest_corner,
            RenderableParts::SEastCorner => &self.seast_corner,
            RenderableParts::NorthT => &self.north_t,
            RenderableParts::SouthT => &self.south_t,
            RenderableParts::EastT => &self.east_t,
            RenderableParts::WestT => &self.west_t,
            RenderableParts::MultiCorner => &self.multi_corner,
            RenderableParts::NoPart => &self.north_wall,
        }
    }
}

impl RenderableParts {
    /// Resolves this part category to what a cell of it spawns: the model,
    /// the category's fixed rotation, and the local collider boxes; nothing
    /// for `NoPart`.
    pub fn render(self, catalog: &Catalog) -> (r: Option<(ModelId, Rotation, Vec<ColliderShape>)>)
        ensures
            self == RenderableParts::NoPart <==> r is None,
            match r {
                Some(rendered) => rendered.0 == catalog.spec_lookup(self).model && rendered.1
                    == self.spec_rotation() && rendered.2@ == catalog.spec_lookup(self).colliders@,
                None => self == RenderableParts::NoPart,
            },
    {
        if let RenderableParts::NoPart = self {
            return None;
        }
        let entry = catalog.lookup(self);
        Some((entry.model, self.rotation(), copy_shapes(&entry.colliders)))
    }
}

/// Copies a list of collider shapes.
fn copy_shapes(shapes: &Vec<ColliderShape>) -> (r: Vec<ColliderShape>)
    ensures
        r@ == shapes@,
{
    let mut r: Vec<ColliderShape> = Vec::new();
    let mut i: usize = 0;
    while i < shapes.len()
        invariant
            i <= shapes@.len(),
            r@ == shapes@.subrange(0, i as int),
        decreases shapes@.len() - i,
    {
        r.push(shapes[i]);
        proof {
            assert(r@ =~= shapes@.subrange(0, i as int + 1));
        }
        i += 1;
    }
    proof {
        assert(r@ =~= shapes@);
    }
    r
}

/// The collider boxes of a straight wall or of the bar of a T-junction: one
/// full-cell-wide, half-cell-thick box through the cell center.
pub open spec fn wall_bar_shapes() -> Seq<ColliderShape> {
    seq![
        ColliderShape {
            half_extent: WorldVec { x: 8, y: 8, z: 2 },
            offset: WorldVec { x: 0, y: 0, z: 0 },
        },
    ]
}

/// The collider boxes of a corner: the long leg of the corner's wall, pulled
/// back from the open end, and the short stub that meets it.
pub open spec fn corner_shapes() -> Seq<ColliderShape> {
    seq![
        ColliderShape {
            half_extent: WorldVec { x: 5, y: 8, z: 2 },
            offset: WorldVec { x: -3 as i64, y: 0, z: 0 },
        },
        ColliderShape {
            half_extent: WorldVec { x: 2, y: 8, z: 3 },
            offset: WorldVec { x: 0, y: 0, z: 5 },
        },
    ]
}

/// The collider boxes of a T-junction: the full bar plus the stem stub.
pub open spec fn t_split_shapes() -> Seq<ColliderShape> {
    seq![
        ColliderShape {
            half_extent: WorldVec { x: 8, y: 8, z: 2 },
            offset: WorldVec { x: 0, y: 0, z: 0 },
        },
        ColliderShape {
            half_extent: WorldVec { x: 2, y: 8, z: 3 },
            offset: WorldVec { x: 0, y: 0, z: 5 },
        },
    ]
}

/// The collider boxes of a four-way junction: two full bars crossing at the
/// cell center.
pub open spec fn multi_corner_shapes() -> Seq<ColliderShape> {
    seq![
        ColliderShape {
            half_extent: WorldVec { x: 8, y: 8, z: 2 },
            offset: WorldVec { x: 0, y: 0, z: 0 },
        },
        ColliderShape {
            half_extent: WorldVec { x: 2, y: 8, z: 8 },
            offset: WorldVec { x: 0, y: 0, z: 0 },
        },
    ]
}

/// Doors spawn no colliders of their own: the doorway stays passable.
pub open spec fn door_shapes() -> Seq<ColliderShape> {
    Seq::empty()
}

/// Whether `catalog` is the standard catalog over the five given models:
/// every wall variant carries the wall bar, every door is collider-free,
/// every corner, T-junction and the four-way junction carry their reference
/// collider boxes.
pub open spec fn is_standard_catalog(
    catalog: Catalog,
    wall: ModelId,
    door: ModelId,
    wall_corner: ModelId,
    t_split: ModelId,
    multi_corner: ModelId,
) -> bool {
    &&& catalog.north_wall.model == wall && catalog.north_wall.colliders@ == wall_bar_shapes()
    &&& catalog.south_wall.model == wall && catalog.south_wall.colliders@ == wall_bar_shapes()
    &&& catalog.east_wall.model == wall && catalog.east_wall.colliders@ == wall_bar_shapes()
    &&& catalog.west_wall.model == wall && catalog.west_wall.colliders@ == wall_bar_shapes()
    &&& catalog.north_door.model == door && catalog.north_door.colliders@ == door_shapes()
    &&& catalog.south_door.model == door && catalog.south_door.colliders@ == door_shapes()
    &&& catalog.east_door.model == door && catalog.east_door.colliders@ == door_shapes()
    &&& catalog.west_door.model == door && catalog.west_door.colliders@ == door_shapes()
    &&& catalog.nwest_corner.model == wall_corner && catalog.nwest_corner.colliders@
        == corner_shapes()
    &&& catalog.neast_corner.model == wall_corner && catalog.neast_corner.colliders@
        == corner_shapes()
    &&& catalog.swest_corner.model == wall_corner && catalog.swest_corner.colliders@
        == corner_shapes()
    &&& catalog.seast_corner.model == wall_corner && catalog.seast_corner.colliders@
        == corner_shapes()
    &&& catalog.north_t.model == t_split && catalog.north_t.colliders@ == t_split_shapes()
    &&& catalog.south_t.model == t_split && catalog.south_t.colliders@ == t_split_shapes()
    &&& catalog.east_t.model == t_split && catalog.east_t.colliders@ == t_split_shapes()
    &&& catalog.west_t.model == t_split && catalog.west_t.colliders@ == t_split_shapes()
    &&& catalog.multi_corner.model == multi_corner && catalog.multi_corner.colliders@
        == multi_corner_shapes()
}

/// One collider shape, as an executable value.
fn shape(hx: i64, hy: i64, hz: i64, ox: i64, oy: i64, oz: i64) -> (s: ColliderShape)
    ensures
        s == (ColliderShape {
            half_extent: WorldVec { x: hx, y: hy, z: hz },
            offset: WorldVec { x: ox, y: oy, z: oz },
        }),
{
    ColliderShape {
        half_extent: WorldVec { x: hx, y: hy, z: hz },
        offset: WorldVec { x: ox, y: oy, z: oz },
    }
}

/// Builds the wall-bar collider list.
fn make_wall_bar() -> (v: Vec<ColliderShape>)
    ensures
        v@ == wall_bar_shapes(),
{
    let mut v: Vec<ColliderShape> = Vec::new();
    v.push(shape(8, 8, 2, 0, 0, 0));
    proof {
        assert(v@ =~= wall_bar_shapes());
    }
    v
}

/// Builds the corner collider list.
fn make_corner() -> (v: Vec<ColliderShape>)
    ensures
        v@ == corner_shapes(),
{
    let mut v: Vec<ColliderShape> = Vec::new();
    v.push(shape(5, 8, 2, -3, 0, 0));
    v.push(shape(2, 8, 3, 0, 0, 5));
    proof {
        assert(v@ =~= corner_shapes());
    }
    v
}

/// Builds the T-junction collider list.
fn make_t_split() -> (v: Vec<ColliderShape>)
    ensures
        v@ == t_split_shapes(),
{
    let mut v: Vec<ColliderShape> = Vec::new();
    v.push(shape(8, 8, 2, 0, 0, 0));
    v.push(shape(2, 8, 3, 0, 0, 5));
    proof {
        assert(v@ =~= t_split_shapes());
    }
    v
}

/// Builds the four-way-junction collider list.
fn make_multi_corner() -> (v: Vec<ColliderShape>)
    ensures
        v@ == multi_corner_shapes(),
{
    let mut v: Vec<ColliderShape> = Vec::new();
    v.push(shape(8, 8, 2, 0, 0, 0));
    v.push(shape(2, 8, 8, 0, 0, 0));
    proof {
        assert(v@ =~= multi_corner_shapes());
    }
    v
}

impl Catalog {
    /// Builds the standard catalog over five models: one straight wall, one
    /// door, one corner, one T-junction, and one four-way junction, each
    /// paired with the collider geometry its part models were drawn for.
    pub fn standard(
        wall: ModelId,
        door: ModelId,
        wall_corner: ModelId,
        t_split: ModelId,
        multi_corner: ModelId,
    ) -> (catalog: Catalog)
        ensures
            is_standard_catalog(catalog, wall, door, wall_corner, t_split, multi_corner),
    {
        Catalog {
            north_wall: PartSpec { model: wall, colliders: make_wall_bar() },
            south_wall: PartSpec { model: wall, colliders: make_wall_bar() },
            east_wall: PartSpec { model: wall, colliders: make_wall_bar() },
            west_wall: PartSpec { model: wall, colliders: make_wall_bar() },
            north_door: PartSpec { model: door, colliders: Vec::new() },
            south_door: PartSpec { model: door, colliders: Vec::new() },
            east_door: PartSpec { model: door, colliders: Vec::new() },
            west_door: PartSpec { model: door, colliders: Vec::new() },
            nwest_corner: PartSpec { model: wall_corner, colliders: make_corner() },
            neast_corner: PartSpec { model: wall_corner, colliders: make_corner() },
            swest_corner: PartSpec { model: wall_corner, colliders: make_corner() },
            seast_corner: PartSpec { model: wall_corner, colliders: make_corner() },
            north_t: PartSpec { model: t_split, colliders: make_t_split() },
            south_t: PartSpec { model: t_split, colliders: make_t_split() },
            east_t: PartSpec { model: t_split, colliders: make_t_split() },
            west_t: PartSpec { model: t_split, colliders: make_t_split() },
            multi_corner: PartSpec { model: multi_corner, colliders: make_multi_corner() },
        }
    }
}

} // verus!
