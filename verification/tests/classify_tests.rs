use room_builder::RenderableParts;
use room_builder::Room;
use room_builder::TileCross;
use room_builder::TileType;
use room_builder::WorldVec;

fn cross(
    north: Option<TileType>,
    south: Option<TileType>,
    west: Option<TileType>,
    east: Option<TileType>,
) -> TileCross {
    TileCross { north, south, west, east }
}

const W: Option<TileType> = Some(TileType::Wall);
const D: Option<TileType> = Some(TileType::Door);
const E: Option<TileType> = Some(TileType::Empty);
const A: Option<TileType> = None;

#[test]
fn four_way_junction() {
    let c = cross(W, W, W, W);
    assert_eq!(c.wall_from_surrounding(), RenderableParts::MultiCorner);
}

#[test]
fn t_junctions() {
    // The T is named for the side its stem points away from.
    assert_eq!(cross(E, W, W, W).wall_from_surrounding(), RenderableParts::NorthT);
    assert_eq!(cross(A, W, W, W).wall_from_surrounding(), RenderableParts::NorthT);
    assert_eq!(cross(W, E, W, W).wall_from_surrounding(), RenderableParts::SouthT);
    assert_eq!(cross(W, W, W, E).wall_from_surrounding(), RenderableParts::EastT);
    assert_eq!(cross(W, W, E, W).wall_from_surrounding(), RenderableParts::WestT);
}

#[test]
fn corners_follow_the_open_diagonal() {
    // North and east walled: the corner opens toward the south-west.
    assert_eq!(cross(W, E, E, W).wall_from_surrounding(), RenderableParts::SWestCorner);
    assert_eq!(cross(W, E, W, E).wall_from_surrounding(), RenderableParts::SEastCorner);
    assert_eq!(cross(E, W, E, W).wall_from_surrounding(), RenderableParts::NWestCorner);
    assert_eq!(cross(E, W, W, E).wall_from_surrounding(), RenderableParts::NEastCorner);
    // A door counts as wall-like when corners form.
    assert_eq!(cross(D, E, E, W).wall_from_surrounding(), RenderableParts::SWestCorner);
}

#[test]
fn straight_walls_face_the_open_side() {
    assert_eq!(cross(E, E, W, W).wall_from_surrounding(), RenderableParts::SouthWall);
    assert_eq!(cross(A, A, W, W).wall_from_surrounding(), RenderableParts::SouthWall);
    assert_eq!(cross(W, W, E, E).wall_from_surrounding(), RenderableParts::WestWall);
    assert_eq!(cross(W, W, A, A).wall_from_surrounding(), RenderableParts::WestWall);
}

#[test]
fn lone_or_unconnected_walls_are_no_part() {
    assert_eq!(cross(A, A, A, A).wall_from_surrounding(), RenderableParts::NoPart);
    assert_eq!(cross(E, E, E, E).wall_from_surrounding(), RenderableParts::NoPart);
    assert_eq!(cross(W, E, E, E).wall_from_surrounding(), RenderableParts::NoPart);
    assert_eq!(cross(E, W, E, E).wall_from_surrounding(), RenderableParts::NoPart);
    assert_eq!(cross(E, E, W, E).wall_from_surrounding(), RenderableParts::NoPart);
    assert_eq!(cross(E, E, E, W).wall_from_surrounding(), RenderableParts::NoPart);
}

#[test]
fn every_two_walled_neighborhood_gets_a_part() {
    // Each pair of wall-like neighbors resolves to a part: no two-walled
    // neighborhood falls through to NoPart.
    let sides = [W, E];
    for &n in &sides {
        for &s in &sides {
            for &w in &sides {
                for &e in &sides {
                    let walls = [n, s, w, e].iter().filter(|t| **t == W).count();
                    let part = cross(n, s, w, e).wall_from_surrounding();
                    if walls >= 2 {
                        assert_ne!(part, RenderableParts::NoPart);
                    } else {
                        assert_eq!(part, RenderableParts::NoPart);
                    }
                }
            }
        }
    }
}

#[test]
fn classification_is_deterministic() {
    let c1 = cross(W, E, W, W);
    let c2 = cross(W, E, W, W);
    assert_eq!(c1.wall_from_surrounding(), c2.wall_from_surrounding());
    assert_eq!(c1.door_from_surrounding(), c2.door_from_surrounding());
}

#[test]
fn doors_face_the_open_side() {
    assert_eq!(cross(E, E, W, W).door_from_surrounding(), RenderableParts::SouthDoor);
    assert_eq!(cross(A, E, W, W).door_from_surrounding(), RenderableParts::SouthDoor);
    assert_eq!(cross(E, W, W, W).door_from_surrounding(), RenderableParts::NorthDoor);
    assert_eq!(cross(W, W, E, E).door_from_surrounding(), RenderableParts::WestDoor);
    assert_eq!(cross(W, W, W, E).door_from_surrounding(), RenderableParts::EastDoor);
}

#[test]
fn invalid_door_neighborhoods_are_no_part() {
    // No wall-like pair on either axis.
    assert_eq!(cross(E, E, E, E).door_from_surrounding(), RenderableParts::NoPart);
    assert_eq!(cross(A, A, A, A).door_from_surrounding(), RenderableParts::NoPart);
    assert_eq!(cross(W, E, W, E).door_from_surrounding(), RenderableParts::NoPart);
    // Walled in on all four sides: no side to face.
    assert_eq!(cross(W, W, W, W).door_from_surrounding(), RenderableParts::NoPart);
}

#[test]
fn the_example_box_classifies_by_the_diagonal_convention() {
    let room = Room::from_str("xxxxx\nx   x\nxxxxx", WorldVec { x: 0, y: 0, z: 0 }).unwrap();
    let part = |x: usize, y: usize| room.get_surrounding(x, y).wall_from_surrounding();
    // Corners are named for the open diagonal.
    assert_eq!(part(0, 0), RenderableParts::NWestCorner);
    assert_eq!(part(4, 0), RenderableParts::NEastCorner);
    assert_eq!(part(0, 2), RenderableParts::SWestCorner);
    assert_eq!(part(4, 2), RenderableParts::SEastCorner);
    // The top and bottom middle cells are straight walls; the side cells of
    // the interior row are straight walls on the perpendicular axis.
    assert_eq!(part(1, 0), RenderableParts::SouthWall);
    assert_eq!(part(2, 0), RenderableParts::SouthWall);
    assert_eq!(part(3, 0), RenderableParts::SouthWall);
    assert_eq!(part(2, 2), RenderableParts::SouthWall);
    assert_eq!(part(0, 1), RenderableParts::WestWall);
    assert_eq!(part(4, 1), RenderableParts::WestWall);
}
