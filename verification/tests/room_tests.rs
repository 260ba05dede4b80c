use room_builder::GridDirection;
use room_builder::Location;
use room_builder::MapError;
use room_builder::Room;
use room_builder::TileType;
use room_builder::WorldVec;

fn zero() -> WorldVec {
    WorldVec { x: 0, y: 0, z: 0 }
}

const BOX_MAP: &str = "
    xxxxx
    x   x
    xxxxx
";

#[test]
fn parse_box_map() {
    let room = Room::from_str(BOX_MAP, zero()).unwrap();
    assert_eq!(room.width(), 5);
    assert_eq!(room.height(), 3);
    assert_eq!(room.total_tiles(), 15);
    assert_eq!(room.get(0, 0), Some(TileType::Wall));
    assert_eq!(room.get(2, 1), Some(TileType::Empty));
    assert_eq!(room.get(4, 2), Some(TileType::Wall));
    assert_eq!(
        room.empty_locations,
        vec![
            Location { x: 1, y: 1 },
            Location { x: 2, y: 1 },
            Location { x: 3, y: 1 },
        ],
    );
}

#[test]
fn parse_maps_characters() {
    let room = Room::from_str("xd.\n* x", zero()).unwrap();
    assert_eq!(room.width(), 3);
    assert_eq!(room.height(), 2);
    assert_eq!(room.get(0, 0), Some(TileType::Wall));
    assert_eq!(room.get(1, 0), Some(TileType::Door));
    assert_eq!(room.get(2, 0), Some(TileType::Empty));
    assert_eq!(room.get(0, 1), Some(TileType::Empty));
    assert_eq!(room.get(1, 1), Some(TileType::Empty));
    assert_eq!(room.get(2, 1), Some(TileType::Wall));
}

#[test]
fn parse_skips_blank_lines_and_trims() {
    let text = "\n\n\t xx \r\n\n  xx\n   ";
    let room = Room::from_str(text, zero()).unwrap();
    assert_eq!(room.width(), 2);
    assert_eq!(room.height(), 2);
    assert_eq!(room.get(1, 1), Some(TileType::Wall));
}

#[test]
fn parse_rejects_empty_text() {
    assert_eq!(Room::from_str("", zero()).unwrap_err(), MapError::EmptyMap);
    assert_eq!(Room::from_str("  \n \t \n", zero()).unwrap_err(), MapError::EmptyMap);
}

#[test]
fn parse_rejects_ragged_rows() {
    assert_eq!(Room::from_str("xx\nxxx", zero()).unwrap_err(), MapError::RaggedRows);
    assert_eq!(Room::from_str("xxx\nxx\nxxx", zero()).unwrap_err(), MapError::RaggedRows);
}

#[test]
fn parse_rejects_oversized_maps() {
    let row = "x".repeat(32769);
    assert_eq!(Room::from_str(&row, zero()).unwrap_err(), MapError::TooLarge);
}

#[test]
fn parse_the_prototype_map() {
    let map = "
        xxxxxxxxxxxxxxxxx
        x    x     d    x
        xxxxxxxxddxxxxdxx
        x    x      x   x
        xxxxxxxxxxxxxxxdx
    ";
    let room = Room::from_str(map, zero()).unwrap();
    assert_eq!(room.width(), 17);
    assert_eq!(room.height(), 5);
    assert_eq!(room.get(11, 1), Some(TileType::Door));
    assert_eq!(room.get(8, 2), Some(TileType::Door));
}

#[test]
fn adjacent_lookups_stop_at_edges() {
    let room = Room::from_str(BOX_MAP, zero()).unwrap();
    assert_eq!(room.get_adjacent(0, 0, GridDirection::North), None);
    assert_eq!(room.get_adjacent(0, 0, GridDirection::West), None);
    assert_eq!(room.get_adjacent(0, 0, GridDirection::South), Some(TileType::Wall));
    assert_eq!(room.get_adjacent(0, 0, GridDirection::East), Some(TileType::Wall));
    assert_eq!(room.get_adjacent(4, 2, GridDirection::South), None);
    assert_eq!(room.get_adjacent(4, 2, GridDirection::East), None);
    assert_eq!(room.get_adjacent(2, 0, GridDirection::South), Some(TileType::Empty));
}

#[test]
fn surroundings_collect_all_four_neighbors() {
    let room = Room::from_str(BOX_MAP, zero()).unwrap();
    let c = room.get_surrounding(2, 1);
    assert_eq!(c.north, Some(TileType::Wall));
    assert_eq!(c.south, Some(TileType::Wall));
    assert_eq!(c.west, Some(TileType::Empty));
    assert_eq!(c.east, Some(TileType::Empty));
    let c0 = room.get_surrounding(0, 0);
    assert_eq!(c0.north, None);
    assert_eq!(c0.west, None);
}

#[test]
fn world_geometry_in_quarter_units() {
    let origin = WorldVec { x: 100, y: 4, z: -40 };
    let room = Room::from_str(BOX_MAP, origin).unwrap();
    // One cell is 16 quarter units (4.0 world units).
    assert_eq!(room.get_translation(0, 0), WorldVec { x: 100, y: 4, z: -40 });
    assert_eq!(room.get_translation(1, 2), WorldVec { x: 116, y: 4, z: -8 });
    assert_eq!(room.get_physical_size(), WorldVec { x: 80, y: 0, z: 48 });
    // The center sits midway between the first and last cell centers.
    assert_eq!(room.get_center(), WorldVec { x: 132, y: 4, z: -24 });
}

#[test]
fn bounding_collider_spans_the_cell_centers() {
    // Half extent (width-1)/2 cells by (height-1)/2 cells: for the 5 x 3 box,
    // 2 cells (32 quarter units) by 1 cell (16 quarter units).
    let room = Room::from_str(BOX_MAP, zero()).unwrap();
    let size = room.get_collider_size();
    assert_eq!(size, WorldVec { x: 32, y: 0, z: 16 });
}

#[test]
fn row_and_column_access() {
    let room = Room::from_str(BOX_MAP, zero()).unwrap();
    let row = room.row_iter(1);
    assert_eq!(
        row,
        vec![
            Some(TileType::Wall),
            Some(TileType::Empty),
            Some(TileType::Empty),
            Some(TileType::Empty),
            Some(TileType::Wall),
        ],
    );
    let column = room.column_iter(1);
    assert_eq!(
        column,
        vec![Some(TileType::Wall), Some(TileType::Empty), Some(TileType::Wall)],
    );
}

#[test]
fn set_replaces_one_tile() {
    let mut room = Room::from_str(BOX_MAP, zero()).unwrap();
    room.set(2, 1, Some(TileType::Wall));
    assert_eq!(room.get(2, 1), Some(TileType::Wall));
    assert_eq!(room.get(1, 1), Some(TileType::Empty));
    room.set(2, 1, None);
    assert_eq!(room.get(2, 1), None);
}
