//! The placement compiler.
//!
//! `Room::build` walks every cell in column-major order, classifies it,
//! resolves the resulting part through the caller's catalog, and emits one
//! placement per placed part plus one world-space collider per part-local
//! collider box. Door tiles whose neighborhood fits no door pattern are
//! recorded as invalid rather than failing the build. Two room-wide boxes —
//! a thin floor slab and a tall room volume — accompany the per-cell
//! colliders, both centered on the grid and spanning its cell centers.

use vstd::prelude::*;

use crate::catalog::Catalog;
use crate::catalog::ModelId;
use crate::classify::classify;
use crate::classify::classify_door;
use crate::classify::classify_tile;
use crate::classify::door_axis_valid;
use crate::classify::lemma_door_classification_exact;
use crate::classify::RenderableParts;
use crate::geometry::spec_add;
use crate::geometry::spec_rotate;
use crate::geometry::Rotation;
use crate::geometry::WorldVec;
use crate::geometry::CELL_Q;
use crate::geometry::COLLIDER_LIFT_Q;
use crate::room::Location;
use crate::room::Room;
use crate::room::MAX_DIM;
use crate::tile::wall_like;
use crate::tile::TileType;

verus! {

/// The largest accepted magnitude of a collider-offset coordinate in a
/// catalog entry, in quarter units. The bound keeps every collider's world
/// coordinate inside a 64-bit integer.
pub const SHAPE_LIMIT: i64 = 0x1000_0000_0000;

/// One part to spawn: a model, its absolute world position, and its rotation.
#[derive(Clone, Copy, PartialEq, Eq, Structural, Debug)]
pub struct Placement {
    pub model: ModelId,
    pub position: WorldVec,
    pub rotation: Rotation,
}

/// One axis-aligned box collider in world space: a half-extent in the box's
/// rotated frame, the absolute position of its center, and its rotation.
#[derive(Clone, Copy, PartialEq, Eq, Structural, Debug)]
pub struct ColliderPlacement {
    pub half_extent: WorldVec,
    pub position: WorldVec,
    pub rotation: Rotation,
}

/// Everything one build emits.
#[derive(Clone, Debug)]
pub struct BuildOutput {
    /// One entry per placed part, in column-major cell order.
    pub placements: Vec<Placement>,
    /// The world-space colliders of the placed parts, in the same cell order,
    /// each cell's boxes in catalog order.
    pub colliders: Vec<ColliderPlacement>,
    /// The cells holding a door that fits no door pattern, in column-major
    /// cell order; such a cell contributes no placement.
    pub invalid_doors: Vec<Location>,
    /// A thin slab under the whole grid, centered on it.
    pub floor: ColliderPlacement,
    /// A tall box over the whole grid, centered on it; a sensor volume, not
    /// a solid.
    pub volume: ColliderPlacement,
}

/// The part the cell `(x, y)` of `room` resolves to.
pub open spec fn cell_part(room: Room, x: int, y: int) -> RenderableParts {
    classify(room.tile_at(x, y), room.cross_at(x, y))
}

/// The world-space collider of one part-local collider box: the box keeps
/// its half-extent, turns with the part, and sits at the cell position plus
/// the rotated sum of its local offset and the fixed vertical lift.
pub open spec fn collider_world(
    translation: WorldVec,
    rot: Rotation,
    shape: crate::catalog::ColliderShape,
) -> ColliderPlacement {
    ColliderPlacement {
        half_extent: shape.half_extent,
        position: spec_add(
            translation,
            spec_rotate(rot, spec_add(shape.offset, WorldVec { x: 0, y: COLLIDER_LIFT_Q, z: 0 })),
        ),
        rotation: rot,
    }
}

/// The placements of cell `(x, y)`: one when the cell resolves to a part,
/// none otherwise.
pub open spec fn cell_placement(room: Room, catalog: Catalog, x: int, y: int) -> Seq<Placement> {
    let p = cell_part(room, x, y);
    if p == RenderableParts::NoPart {
        Seq::empty()
    } else {
        seq![
            Placement {
                model: catalog.spec_lookup(p).model,
                position: room.spec_translation(x, y),
                rotation: p.spec_rotation(),
            },
        ]
    }
}

/// The world-space colliders of cell `(x, y)`: one per collider box of the
/// resolved part's catalog entry, in catalog order.
pub open spec fn cell_colliders(room: Room, catalog: Catalog, x: int, y: int) -> Seq<
    ColliderPlacement,
> {
    let p = cell_part(room, x, y);
    if p == RenderableParts::NoPart {
        Seq::empty()
    } else {
        catalog.spec_lookup(p).colliders@.map_values(
            |shape: crate::catalog::ColliderShape|
                collider_world(room.spec_translation(x, y), p.spec_rotation(), shape),
        )
    }
}

/// The invalid-door record of cell `(x, y)`: the cell's location when it
/// holds a door that fits no door pattern, nothing otherwise.
pub open spec fn cell_invalid_door(room: Room, x: int, y: int) -> Seq<Location> {
    if room.tile_at(x, y) == Some(TileType::Door) && classify_door(room.cross_at(x, y))
        == RenderableParts::NoPart {
        seq![Location { x: x as usize, y: y as usize }]
    } else {
        Seq::empty()
    }
}

/// The placements of the first `y` cells of column `x`, top to bottom.
pub open spec fn placements_in_column(room: Room, catalog: Catalog, x: int, y: int) -> Seq<
    Placement,
>
    decreases y,
{
    if y <= 0 {
        Seq::empty()
    } else {
        placements_in_column(room, catalog, x, y - 1) + cell_placement(room, catalog, x, y - 1)
    }
}

/// The placements of the first `x` whole columns, west to east.
pub open spec fn placements_before_column(room: Room, catalog: Catalog, x: int) -> Seq<Placement>
    decreases x,
{
    if x <= 0 {
        Seq::empty()
    } else {
        placements_before_column(room, catalog, x - 1) + placements_in_column(
            room,
            catalog,
            x - 1,
            room.spec_height(),
        )
    }
}

/// Every placement a build of `room` against `catalog` emits, in column-major
/// cell order.
pub open spec fn spec_placements(room: Room, catalog: Catalog) -> Seq<Placement> {
    placements_before_column(room, catalog, room.spec_width())
}

/// The colliders of the first `y` cells of column `x`, top to bottom.
pub open spec fn colliders_in_column(room: Room, catalog: Catalog, x: int, y: int) -> Seq<
    ColliderPlacement,
>
    decreases y,
{
    if y <= 0 {
        Seq::empty()
    } else {
        colliders_in_column(room, catalog, x, y - 1) + cell_colliders(room, catalog, x, y - 1)
    }
}

/// The colliders of the first `x` whole columns, west to east.
pub open spec fn colliders_before_column(room: Room, catalog: Catalog, x: int) -> Seq<
    ColliderPlacement,
>
    decreases x,
{
    if x <= 0 {
        Seq::empty()
    } else {
        colliders_before_column(room, catalog, x - 1) + colliders_in_column(
            room,
            catalog,
            x - 1,
            room.spec_height(),
        )
    }
}

/// Every per-cell collider a build of `room` against `catalog` emits.
pub open spec fn spec_colliders(room: Room, catalog: Catalog) -> Seq<ColliderPlacement> {
    colliders_before_column(room, catalog, room.spec_width())
}

/// The invalid-door records of the first `y` cells of column `x`.
pub open spec fn invalid_doors_in_column(room: Room, x: int, y: int) -> Seq<Location>
    decreases y,
{
    if y <= 0 {
        Seq::empty()
    } else {
        invalid_doors_in_column(room, x, y - 1) + cell_invalid_door(room, x, y - 1)
    }
}

/// The invalid-door records of the first `x` whole columns.
pub open spec fn invalid_doors_before_column(room: Room, x: int) -> Seq<Location>
    decreases x,
{
    if x <= 0 {
        Seq::empty()
    } else {
        invalid_doors_before_column(room, x - 1) + invalid_doors_in_column(
            room,
            x - 1,
            room.spec_height(),
        )
    }
}

/// Every invalid-door record a build of `room` emits.
pub open spec fn spec_invalid_doors(room: Room) -> Seq<Location> {
    invalid_doors_before_column(room, room.spec_width())
}

/// The room-wide box collider with the given vertical half-extent: centered
/// on the grid, spanning its cell centers, unrotated.
pub open spec fn room_box(room: Room, half_height: i64) -> ColliderPlacement {
    ColliderPlacement {
        half_extent: WorldVec {
            x: ((room.spec_width() - 1) * 8) as i64,
            y: half_height,
            z: ((room.spec_height() - 1) * 8) as i64,
        },
        position: WorldVec {
            x: (room.origin.x + room.spec_width() * 8 - 8) as i64,
            y: room.origin.y,
            z: (room.origin.z + room.spec_height() * 8 - 8) as i64,
        },
        rotation: Rotation::R0,
    }
}

/// The vertical half-extent of the floor slab, in quarter units.
pub const FLOOR_HALF_HEIGHT_Q: i64 = 2;

/// The vertical half-extent of the room volume, in quarter units.
pub const VOLUME_HALF_HEIGHT_Q: i64 = 20;

/// Whether every collider offset in `catalog` is small enough that all world
/// collider coordinates fit in a 64-bit integer.
pub open spec fn catalog_in_range(catalog: Catalog) -> bool {
    forall|p: RenderableParts, i: int|
        p != RenderableParts::NoPart && 0 <= i < catalog.spec_lookup(p).colliders@.len()
            ==> in_shape_range(#[trigger] catalog.spec_lookup(p).colliders@[i].offset)
}

/// Whether every coordinate of `v` is within `SHAPE_LIMIT`.
pub open spec fn in_shape_range(v: WorldVec) -> bool {
    -SHAPE_LIMIT <= v.x <= SHAPE_LIMIT && -SHAPE_LIMIT <= v.y <= SHAPE_LIMIT && -SHAPE_LIMIT <= v.z
        <= SHAPE_LIMIT
}

impl Room {
    /// Compiles the room against a catalog: classifies every cell in
    /// column-major order, emits one placement per placed part and one world
    /// collider per part-local collider box, records every invalid door, and
    /// sizes the two room-wide boxes to the grid.
    pub fn build(&self, catalog: &Catalog) -> (out: BuildOutput)
        requires
            self.wf(),
            catalog_in_range(*catalog),
        ensures
            out.placements@ == spec_placements(*self, *catalog),
            out.colliders@ == spec_colliders(*self, *catalog),
            out.invalid_doors@ == spec_invalid_doors(*self),
            out.floor == room_box(*self, FLOOR_HALF_HEIGHT_Q),
            out.volume == room_box(*self, VOLUME_HALF_HEIGHT_Q),
    {
        let width = self.width();
        let height = self.height();
        let mut placements: Vec<Placement> = Vec::new();
        let mut colliders: Vec<ColliderPlacement> = Vec::new();
        let mut invalid_doors: Vec<Location> = Vec::new();
        let mut x: usize = 0;
        while x < width
            invariant
                self.wf(),
                catalog_in_range(*catalog),
                width == self.spec_width(),
                height == self.spec_height(),
                x <= width,
                placements@ == placements_before_column(*self, *catalog, x as int),
                colliders@ == colliders_before_column(*self, *catalog, x as int),
                invalid_doors@ == invalid_doors_before_column(*self, x as int),
            decreases width - x,
        {
            let mut y: usize = 0;
            while y < height
                invariant
                    self.wf(),
                    catalog_in_range(*catalog),
                    width == self.spec_width(),
                    height == self.spec_height(),
                    x < width,
                    y <= height,
                    placements@ == placements_before_column(*self, *catalog, x as int)
                        + placements_in_column(*self, *catalog, x as int, y as int),
                    colliders@ == colliders_before_column(*self, *catalog, x as int)
                        + colliders_in_column(*self, *catalog, x as int, y as int),
                    invalid_doors@ == invalid_doors_before_column(*self, x as int)
                        + invalid_doors_in_column(*self, x as int, y as int),
                decreases height - y,
            {
                let tile = self.get(x, y);
                let surrounding = self.get_surrounding(x, y);
                let part = classify_tile(tile, surrounding);
                let ghost placements_at_cell = placements@;
                let ghost colliders_at_cell = colliders@;
                let ghost invalid_at_cell = invalid_doors@;
                match part.render(catalog) {
                    Some((model, rotation, shapes)) => {
                        let translation = self.get_translation(x, y);
                        placements.push(
                            Placement { model, position: translation, rotation },
                        );
                        let mut i: usize = 0;
                        while i < shapes.len()
                            invariant
                                self.wf(),
                                catalog_in_range(*catalog),
                                x < self.spec_width(),
                                y < self.spec_height(),
                                part == cell_part(*self, x as int, y as int),
                                part != RenderableParts::NoPart,
                                rotation == part.spec_rotation(),
                                translation == self.spec_translation(x as int, y as int),
                                shapes@ == catalog.spec_lookup(part).colliders@,
                                i <= shapes@.len(),
                                colliders@ == colliders_at_cell + cell_colliders(
                                    *self,
                                    *catalog,
                                    x as int,
                                    y as int,
                                ).subrange(0, i as int),
                            decreases shapes@.len() - i,
                        {
                            proof {
                                assert(catalog.spec_lookup(part).colliders@[i as int]
                                    == shapes@[i as int]);
                                assert(in_shape_range(shapes@[i as int].offset));
                            }
                            let local = shapes[i].offset.add(
                                WorldVec { x: 0, y: COLLIDER_LIFT_Q, z: 0 },
                            );
                            let rotated = local.rotate(rotation);
                            let position = translation.add(rotated);
                            colliders.push(
                                ColliderPlacement {
                                    half_extent: shapes[i].half_extent,
                                    position,
                                    rotation,
                                },
                            );
                            proof {
                                assert(colliders@ =~= colliders_at_cell + cell_colliders(
                                    *self,
                                    *catalog,
                                    x as int,
                                    y as int,
                                ).subrange(0, i as int + 1));
                            }
                            i += 1;
                        }
                        proof {
                            assert(cell_colliders(*self, *catalog, x as int, y as int).subrange(
                                0,
                                shapes@.len() as int,
                            ) =~= cell_colliders(*self, *catalog, x as int, y as int));
                            assert(placements@ =~= placements_at_cell + cell_placement(
                                *self,
                                *catalog,
                                x as int,
                                y as int,
                            ));
                            assert(invalid_doors@ =~= invalid_at_cell + cell_invalid_door(
                                *self,
                                x as int,
                                y as int,
                            ));
                        }
                    },
                    None => {
                        let is_door = match tile {
                            Some(TileType::Door) => true,
                            _ => false,
                        };
                        if is_door {
                            invalid_doors.push(Location { x, y });
                        }
                        proof {
                            assert(placements@ =~= placements_at_cell + cell_placement(
                                *self,
                                *catalog,
                                x as int,
                                y as int,
                            ));
                            assert(colliders@ =~= colliders_at_cell + cell_colliders(
                                *self,
                                *catalog,
                                x as int,
                                y as int,
                            ));
                            assert(invalid_doors@ =~= invalid_at_cell + cell_invalid_door(
                                *self,
                                x as int,
                                y as int,
                            ));
                        }
                    },
                }
                proof {
                    assert(placements@ =~= placements_before_column(*self, *catalog, x as int)
                        + placements_in_column(*self, *catalog, x as int, y as int + 1));
                    assert(colliders@ =~= colliders_before_column(*self, *catalog, x as int)
                        + colliders_in_column(*self, *catalog, x as int, y as int + 1));
                    assert(invalid_doors@ =~= invalid_doors_before_column(*self, x as int)
                        + invalid_doors_in_column(*self, x as int, y as int + 1));
                }
                y += 1;
            }
            proof {
                assert(placements@ =~= placements_before_column(*self, *catalog, x as int + 1));
                assert(colliders@ =~= colliders_before_column(*self, *catalog, x as int + 1));
                assert(invalid_doors@ =~= invalid_doors_before_column(*self, x as int + 1));
            }
            x += 1;
        }
        let size = self.get_collider_size();
        let center = self.get_center();
        let floor = ColliderPlacement {
            half_extent: WorldVec { x: size.x, y: FLOOR_HALF_HEIGHT_Q, z: size.z },
            position: center,
            rotation: Rotation::R0,
        };
        let volume = ColliderPlacement {
            half_extent: WorldVec { x: size.x, y: VOLUME_HALF_HEIGHT_Q, z: size.z },
            position: center,
            rotation: Rotation::R0,
        };
        BuildOutput { placements, colliders, invalid_doors, floor, volume }
    }
}

/// A grid without a single wall-like tile builds to an empty placement list.
pub proof fn lemma_no_walls_no_placements(room: Room, catalog: Catalog)
    requires
        room.wf(),
        forall|x: int, y: int|
            room.in_bounds(x, y) ==> !wall_like(#[trigger] room.tile_at(x, y)),
    ensures
        spec_placements(room, catalog).len() == 0,
{
    lemma_no_walls_columns(room, catalog, room.spec_width());
}

proof fn lemma_no_walls_columns(room: Room, catalog: Catalog, x: int)
    requires
        room.wf(),
        x <= room.spec_width(),
        forall|x0: int, y0: int|
            room.in_bounds(x0, y0) ==> !wall_like(#[trigger] room.tile_at(x0, y0)),
    ensures
        placements_before_column(room, catalog, x).len() == 0,
    decreases x,
{
    if x > 0 {
        lemma_no_walls_columns(room, catalog, x - 1);
        lemma_no_walls_one_column(room, catalog, x - 1, room.spec_height());
    }
}

proof fn lemma_no_walls_one_column(room: Room, catalog: Catalog, x: int, y: int)
    requires
        room.wf(),
        0 <= x < room.spec_width(),
        y <= room.spec_height(),
        forall|x0: int, y0: int|
            room.in_bounds(x0, y0) ==> !wall_like(#[trigger] room.tile_at(x0, y0)),
    ensures
        placements_in_column(room, catalog, x, y).len() == 0,
    decreases y,
{
    if y > 0 {
        lemma_no_walls_one_column(room, catalog, x, y - 1);
        assert(!wall_like(room.tile_at(x, y - 1)));
        assert(cell_part(room, x, y - 1) == RenderableParts::NoPart);
    }
}

/// Every cell that resolves to a part contributes its placement to the build:
/// the placement list is complete.
pub proof fn lemma_every_part_is_placed(room: Room, catalog: Catalog, x: int, y: int)
    requires
        room.wf(),
        room.in_bounds(x, y),
        cell_part(room, x, y) != RenderableParts::NoPart,
    ensures
        spec_placements(room, catalog).contains(cell_placement(room, catalog, x, y)[0]),
{
    broadcast use vstd::seq_lib::group_seq_properties;

    lemma_column_holds_cell(room, catalog, x, y, room.spec_height());
    lemma_columns_hold_column(room, catalog, x, room.spec_width());
}

proof fn lemma_column_holds_cell(room: Room, catalog: Catalog, x: int, y: int, y2: int)
    requires
        room.wf(),
        room.in_bounds(x, y),
        cell_part(room, x, y) != RenderableParts::NoPart,
        y < y2 <= room.spec_height(),
    ensures
        placements_in_column(room, catalog, x, y2).contains(cell_placement(room, catalog, x, y)[0]),
    decreases y2,
{
    broadcast use vstd::seq_lib::group_seq_properties;

    if y2 - 1 == y {
        assert(cell_placement(room, catalog, x, y)[0] == placements_in_column(
            room,
            catalog,
            x,
            y2,
        ).last());
    } else {
        lemma_column_holds_cell(room, catalog, x, y, y2 - 1);
    }
}

proof fn lemma_columns_hold_column(room: Room, catalog: Catalog, x: int, x2: int)
    requires
        room.wf(),
        0 <= x < x2 <= room.spec_width(),
    ensures
        forall|p: Placement|
            placements_in_column(room, catalog, x, room.spec_height()).contains(p)
                ==> placements_before_column(room, catalog, x2).contains(p),
        placements_before_column(room, catalog, room.spec_width()) == spec_placements(
            room,
            catalog,
        ),
    decreases x2,
{
    broadcast use vstd::seq_lib::group_seq_properties;

    if x2 - 1 > x {
        lemma_columns_hold_column(room, catalog, x, x2 - 1);
    }
    assert forall|p: Placement|
        placements_in_column(room, catalog, x, room.spec_height()).contains(
            p,
        ) implies placements_before_column(room, catalog, x2).contains(p) by {
        if x2 - 1 == x {
            assert(placements_before_column(room, catalog, x2) == placements_before_column(
                room,
                catalog,
                x,
            ) + placements_in_column(room, catalog, x, room.spec_height()));
        } else {
            assert(placements_before_column(room, catalog, x2 - 1).contains(p));
            assert(placements_before_column(room, catalog, x2) == placements_before_column(
                room,
                catalog,
                x2 - 1,
            ) + placements_in_column(room, catalog, x2 - 1, room.spec_height()));
        }
    }
}

/// Every placement in the build traces back to a cell: it is the placement
/// of some in-bounds cell that resolved to a part.
pub proof fn lemma_every_placement_has_a_cell(room: Room, catalog: Catalog, i: int)
    requires
        room.wf(),
        0 <= i < spec_placements(room, catalog).len(),
    ensures
        exists|x: int, y: int|
            room.in_bounds(x, y) && #[trigger] cell_part(room, x, y)
                != RenderableParts::NoPart && spec_placements(room, catalog)[i] == cell_placement(
                room,
                catalog,
                x,
                y,
            )[0],
{
    lemma_before_column_source(room, catalog, room.spec_width(), i);
}

proof fn lemma_in_column_source(room: Room, catalog: Catalog, x: int, y2: int, i: int)
    requires
        room.wf(),
        0 <= x < room.spec_width(),
        0 <= y2 <= room.spec_height(),
        0 <= i < placements_in_column(room, catalog, x, y2).len(),
    ensures
        exists|y: int|
            0 <= y < y2 && #[trigger] cell_part(room, x, y) != RenderableParts::NoPart
                && placements_in_column(room, catalog, x, y2)[i] == cell_placement(
                room,
                catalog,
                x,
                y,
            )[0],
    decreases y2,
{
    let prev = placements_in_column(room, catalog, x, y2 - 1);
    if i < prev.len() {
        lemma_in_column_source(room, catalog, x, y2 - 1, i);
        let y = choose|y: int|
            0 <= y < y2 - 1 && #[trigger] cell_part(room, x, y) != RenderableParts::NoPart
                && prev[i] == cell_placement(room, catalog, x, y)[0];
        assert(placements_in_column(room, catalog, x, y2)[i] == cell_placement(
            room,
            catalog,
            x,
            y,
        )[0]);
    } else {
        assert(cell_part(room, x, y2 - 1) != RenderableParts::NoPart);
        assert(placements_in_column(room, catalog, x, y2)[i] == cell_placement(
            room,
            catalog,
            x,
            y2 - 1,
        )[0]);
    }
}

proof fn lemma_before_column_source(room: Room, catalog: Catalog, x2: int, i: int)
    requires
        room.wf(),
        0 <= x2 <= room.spec_width(),
        0 <= i < placements_before_column(room, catalog, x2).len(),
    ensures
        exists|x: int, y: int|
            0 <= x < x2 && 0 <= y < room.spec_height() && #[trigger] cell_part(room, x, y)
                != RenderableParts::NoPart && placements_before_column(room, catalog, x2)[i]
                == cell_placement(room, catalog, x, y)[0],
        placements_before_column(room, catalog, room.spec_width()) == spec_placements(
            room,
            catalog,
        ),
    decreases x2,
{
    let prev = placements_before_column(room, catalog, x2 - 1);
    if i < prev.len() {
        lemma_before_column_source(room, catalog, x2 - 1, i);
        let (x, y) = choose|x: int, y: int|
            0 <= x < x2 - 1 && 0 <= y < room.spec_height() && #[trigger] cell_part(room, x, y)
                != RenderableParts::NoPart && prev[i] == cell_placement(room, catalog, x, y)[0];
        assert(placements_before_column(room, catalog, x2)[i] == cell_placement(
            room,
            catalog,
            x,
            y,
        )[0]);
    } else {
        lemma_in_column_source(room, catalog, x2 - 1, room.spec_height(), i - prev.len());
        let y = choose|y: int|
            0 <= y < room.spec_height() && #[trigger] cell_part(room, x2 - 1, y)
                != RenderableParts::NoPart && placements_in_column(
                room,
                catalog,
                x2 - 1,
                room.spec_height(),
            )[i - prev.len()] == cell_placement(room, catalog, x2 - 1, y)[0];
        assert(placements_before_column(room, catalog, x2)[i] == cell_placement(
            room,
            catalog,
            x2 - 1,
            y,
        )[0]);
    }
}

/// Distinct cells sit at distinct world positions.
pub proof fn lemma_cell_positions_distinct(room: Room, x1: int, y1: int, x2: int, y2: int)
    requires
        room.wf(),
        room.in_bounds(x1, y1),
        room.in_bounds(x2, y2),
        (x1, y1) != (x2, y2),
    ensures
        room.spec_translation(x1, y1) != room.spec_translation(x2, y2),
{
    assert(0 <= x1 * CELL_Q <= MAX_DIM as int * CELL_Q) by (nonlinear_arith)
        requires
            0 <= x1 <= MAX_DIM as int,
    ;
    assert(0 <= x2 * CELL_Q <= MAX_DIM as int * CELL_Q) by (nonlinear_arith)
        requires
            0 <= x2 <= MAX_DIM as int,
    ;
    assert(0 <= y1 * CELL_Q <= MAX_DIM as int * CELL_Q) by (nonlinear_arith)
        requires
            0 <= y1 <= MAX_DIM as int,
    ;
    assert(0 <= y2 * CELL_Q <= MAX_DIM as int * CELL_Q) by (nonlinear_arith)
        requires
            0 <= y2 <= MAX_DIM as int,
    ;
    if x1 != x2 {
        assert(x1 * CELL_Q != x2 * CELL_Q) by (nonlinear_arith)
            requires
                x1 != x2,
        ;
    } else {
        assert(y1 * CELL_Q != y2 * CELL_Q) by (nonlinear_arith)
            requires
                y1 != y2,
        ;
    }
}

/// No placement sits at the position of a cell that resolved to no part: such
/// a cell is absent from the placement list, not merely silent.
pub proof fn lemma_no_part_cell_is_absent(room: Room, catalog: Catalog, x: int, y: int)
    requires
        room.wf(),
        room.in_bounds(x, y),
        cell_part(room, x, y) == RenderableParts::NoPart,
    ensures
        forall|i: int|
            0 <= i < spec_placements(room, catalog).len() ==> (#[trigger] spec_placements(
                room,
                catalog,
            )[i]).position != room.spec_translation(x, y),
{
    assert forall|i: int|
        0 <= i < spec_placements(room, catalog).len() implies (#[trigger] spec_placements(
        room,
        catalog,
    )[i]).position != room.spec_translation(x, y) by {
        lemma_every_placement_has_a_cell(room, catalog, i);
        let (x2, y2) = choose|x2: int, y2: int|
            room.in_bounds(x2, y2) && #[trigger] cell_part(room, x2, y2)
                != RenderableParts::NoPart && spec_placements(room, catalog)[i] == cell_placement(
                room,
                catalog,
                x2,
                y2,
            )[0];
        if (x2, y2) != (x, y) {
            lemma_cell_positions_distinct(room, x, y, x2, y2);
        }
    }
}

/// A door whose neighborhood fits no door pattern resolves to no part: the
/// cell contributes no placement and exactly one invalid-door record.
pub proof fn lemma_invalid_door_excluded(room: Room, catalog: Catalog, x: int, y: int)
    requires
        room.tile_at(x, y) == Some(TileType::Door),
        !door_axis_valid(room.cross_at(x, y)),
    ensures
        cell_part(room, x, y) == RenderableParts::NoPart,
        cell_placement(room, catalog, x, y) == Seq::<Placement>::empty(),
        cell_invalid_door(room, x, y) == seq![Location { x: x as usize, y: y as usize }],
{
    lemma_door_classification_exact(room.cross_at(x, y));
}

/// A door whose neighborhood holds a wall-like pair with an open side on some
/// axis resolves to exactly one directional door part: the cell contributes
/// one placement of the door model and no invalid-door record.
pub proof fn lemma_valid_door_placed(room: Room, catalog: Catalog, x: int, y: int)
    requires
        room.tile_at(x, y) == Some(TileType::Door),
        door_axis_valid(room.cross_at(x, y)),
    ensures
        cell_part(room, x, y) == RenderableParts::NorthDoor || cell_part(room, x, y)
            == RenderableParts::SouthDoor || cell_part(room, x, y) == RenderableParts::EastDoor
            || cell_part(room, x, y) == RenderableParts::WestDoor,
        cell_placement(room, catalog, x, y).len() == 1,
        cell_placement(room, catalog, x, y)[0].model == catalog.spec_lookup(
            cell_part(room, x, y),
        ).model,
        cell_invalid_door(room, x, y) == Seq::<Location>::empty(),
{
    lemma_door_classification_exact(room.cross_at(x, y));
}

} // verus!
