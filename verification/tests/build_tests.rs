use room_builder::Catalog;
use room_builder::Location;
use room_builder::RenderableParts;
use room_builder::Room;
use room_builder::Rotation;
use room_builder::WorldVec;

fn zero() -> WorldVec {
    WorldVec { x: 0, y: 0, z: 0 }
}

fn catalog() -> Catalog {
    // wall, door, wall corner, T-split, multi corner
    Catalog::standard(1, 2, 3, 4, 5)
}

#[test]
fn standard_catalog_entries() {
    let c = catalog();
    assert_eq!(c.north_wall.model, 1);
    assert_eq!(c.north_wall.colliders.len(), 1);
    assert_eq!(c.north_wall.colliders[0].half_extent, WorldVec { x: 8, y: 8, z: 2 });
    assert_eq!(c.south_door.model, 2);
    assert!(c.south_door.colliders.is_empty());
    assert_eq!(c.swest_corner.model, 3);
    assert_eq!(c.swest_corner.colliders.len(), 2);
    assert_eq!(c.swest_corner.colliders[0].offset, WorldVec { x: -3, y: 0, z: 0 });
    assert_eq!(c.north_t.model, 4);
    assert_eq!(c.north_t.colliders.len(), 2);
    assert_eq!(c.multi_corner.model, 5);
    assert_eq!(c.multi_corner.colliders.len(), 2);
}

#[test]
fn render_resolves_model_rotation_and_shapes() {
    let c = catalog();
    assert!(RenderableParts::NoPart.render(&c).is_none());
    let (model, rotation, shapes) = RenderableParts::NorthWall.render(&c).unwrap();
    assert_eq!(model, 1);
    assert_eq!(rotation, Rotation::R0);
    assert_eq!(shapes.len(), 1);
    let (model, rotation, shapes) = RenderableParts::EastDoor.render(&c).unwrap();
    assert_eq!(model, 2);
    assert_eq!(rotation, Rotation::R90);
    assert!(shapes.is_empty());
    let (_, rotation, _) = RenderableParts::EastT.render(&c).unwrap();
    assert_eq!(rotation, Rotation::R270);
    let (_, rotation, _) = RenderableParts::NWestCorner.render(&c).unwrap();
    assert_eq!(rotation, Rotation::R90);
}

#[test]
fn building_a_grid_without_walls_places_nothing() {
    let room = Room::from_str("...\n...", zero()).unwrap();
    let out = room.build(&catalog());
    assert!(out.placements.is_empty());
    assert!(out.colliders.is_empty());
    assert!(out.invalid_doors.is_empty());
}

#[test]
fn building_the_box_with_one_door() {
    let room = Room::from_str("xxdxx\nx   x\nxxxxx", zero()).unwrap();
    let out = room.build(&catalog());
    // Twelve wall-like cells, every one placed; the door logs no diagnostic.
    assert_eq!(out.placements.len(), 12);
    assert!(out.invalid_doors.is_empty());
    // Exactly one door placement, facing the open south side.
    let doors: Vec<_> = out.placements.iter().filter(|p| p.model == 2).collect();
    assert_eq!(doors.len(), 1);
    assert_eq!(doors[0].position, WorldVec { x: 32, y: 0, z: 0 });
    assert_eq!(doors[0].rotation, Rotation::R180);
    // Cells are walked column by column: the north-west cell comes first.
    assert_eq!(out.placements[0].model, 3);
    assert_eq!(out.placements[0].rotation, Rotation::R90);
    assert_eq!(out.placements[0].position, zero());
    // Four corner placements and seven straight walls.
    assert_eq!(out.placements.iter().filter(|p| p.model == 3).count(), 4);
    assert_eq!(out.placements.iter().filter(|p| p.model == 1).count(), 7);
    // Corners carry two collider boxes, walls one, the door none.
    assert_eq!(out.colliders.len(), 4 * 2 + 7);
}

#[test]
fn colliders_are_lifted_and_rotated() {
    let room = Room::from_str("xxdxx\nx   x\nxxxxx", zero()).unwrap();
    let out = room.build(&catalog());
    // The first placed part is the corner at the origin cell, rotated a
    // quarter turn; its first box has local offset (-3, 0, 0), which the lift
    // raises to (-3, 8, 0) and the rotation turns to (0, 8, 3).
    assert_eq!(out.colliders[0].half_extent, WorldVec { x: 5, y: 8, z: 2 });
    assert_eq!(out.colliders[0].position, WorldVec { x: 0, y: 8, z: 3 });
    assert_eq!(out.colliders[0].rotation, Rotation::R90);
    assert_eq!(out.colliders[1].half_extent, WorldVec { x: 2, y: 8, z: 3 });
    assert_eq!(out.colliders[1].position, WorldVec { x: 5, y: 8, z: 0 });
    // Colliders 2: west wall at (0, 1); 3 and 4: corner at (0, 2); 5: the
    // south wall at (1, 0), whose centered box only rises by the lift.
    assert_eq!(out.colliders[5].half_extent, WorldVec { x: 8, y: 8, z: 2 });
    assert_eq!(out.colliders[5].position, WorldVec { x: 16, y: 8, z: 0 });
    assert_eq!(out.colliders[5].rotation, Rotation::R180);
}

#[test]
fn room_wide_boxes_span_the_grid() {
    let room = Room::from_str("xxdxx\nx   x\nxxxxx", zero()).unwrap();
    let out = room.build(&catalog());
    assert_eq!(out.floor.half_extent, WorldVec { x: 32, y: 2, z: 16 });
    assert_eq!(out.floor.position, WorldVec { x: 32, y: 0, z: 16 });
    assert_eq!(out.floor.rotation, Rotation::R0);
    assert_eq!(out.volume.half_extent, WorldVec { x: 32, y: 20, z: 16 });
    assert_eq!(out.volume.position, WorldVec { x: 32, y: 0, z: 16 });
}

#[test]
fn invalid_door_is_recorded_and_not_placed() {
    let room = Room::from_str("...\n.d.\n...", zero()).unwrap();
    let out = room.build(&catalog());
    assert!(out.placements.is_empty());
    assert_eq!(out.invalid_doors, vec![Location { x: 1, y: 1 }]);
}

#[test]
fn vertical_door_between_walls() {
    let room = Room::from_str("x\nd\nx", zero()).unwrap();
    let out = room.build(&catalog());
    // The two wall tiles have only one wall-like neighbor each: no part. The
    // door has walls north and south and opens west.
    assert_eq!(out.placements.len(), 1);
    assert_eq!(out.placements[0].model, 2);
    assert_eq!(out.placements[0].rotation, Rotation::R270);
    assert!(out.invalid_doors.is_empty());
}

#[test]
fn junctions_in_a_cross_of_walls() {
    let room = Room::from_str(".x.\nxxx\n.x.", zero()).unwrap();
    let out = room.build(&catalog());
    // The center cell touches walls on all four sides.
    let multi: Vec<_> = out.placements.iter().filter(|p| p.model == 5).collect();
    assert_eq!(multi.len(), 1);
    assert_eq!(multi[0].position, WorldVec { x: 16, y: 0, z: 16 });
}

#[test]
fn t_junction_in_a_wall_run() {
    let room = Room::from_str("xxx\n.x.\n...", zero()).unwrap();
    let c = catalog();
    let out = room.build(&c);
    // The top middle cell has walls east, west and south: a NorthT.
    let surrounding = room.get_surrounding(1, 0);
    assert_eq!(surrounding.wall_from_surrounding(), RenderableParts::NorthT);
    let t_parts: Vec<_> = out.placements.iter().filter(|p| p.model == 4).collect();
    assert_eq!(t_parts.len(), 1);
    assert_eq!(t_parts[0].rotation, Rotation::R0);
}

#[test]
fn origin_shifts_every_placement() {
    let origin = WorldVec { x: 400, y: 0, z: -400 };
    let room = Room::from_str("xx\nxx", origin).unwrap();
    let out = room.build(&catalog());
    assert_eq!(out.placements.len(), 4);
    assert_eq!(out.placements[0].position, origin);
    assert_eq!(out.placements[1].position, WorldVec { x: 400, y: 0, z: -384 });
    assert_eq!(out.floor.position, WorldVec { x: 408, y: 0, z: -392 });
}
