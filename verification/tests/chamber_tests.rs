use room_builder::Chamber;
use room_builder::Location;
use room_builder::Room;
use room_builder::WorldVec;

fn zero() -> WorldVec {
    WorldVec { x: 0, y: 0, z: 0 }
}

fn loc(x: usize, y: usize) -> Location {
    Location { x, y }
}

fn sorted_tiles(chamber: &Chamber) -> Vec<Location> {
    let mut tiles = chamber.tiles.clone();
    tiles.sort_by_key(|l| (l.y, l.x));
    tiles
}

#[test]
fn one_chamber_of_one_tile() {
    let room = Room::from_str("xxx\nx x\nxxx", zero()).unwrap();
    let chambers = room.find_chambers();
    assert_eq!(chambers.len(), 1);
    assert_eq!(chambers[0].tiles, vec![loc(1, 1)]);
}

#[test]
fn one_chamber_collects_the_whole_floor() {
    let room = Room::from_str("xxxxx\nx   x\nxxxxx", zero()).unwrap();
    let chambers = room.find_chambers();
    assert_eq!(chambers.len(), 1);
    assert_eq!(sorted_tiles(&chambers[0]), vec![loc(1, 1), loc(2, 1), loc(3, 1)]);
}

#[test]
fn walls_split_the_floor_into_two_chambers() {
    let room = Room::from_str("xxxxxxx\nx  x  x\nxxxxxxx", zero()).unwrap();
    let chambers = room.find_chambers();
    assert_eq!(chambers.len(), 2);
    // The two chambers partition the empty tiles: nothing missing, nothing
    // doubled.
    let mut all: Vec<Location> = Vec::new();
    for chamber in &chambers {
        for tile in &chamber.tiles {
            assert!(!all.contains(tile));
            all.push(*tile);
        }
    }
    all.sort_by_key(|l| (l.y, l.x));
    assert_eq!(all, vec![loc(1, 1), loc(2, 1), loc(4, 1), loc(5, 1)]);
    assert_eq!(sorted_tiles(&chambers[0]), vec![loc(1, 1), loc(2, 1)]);
    assert_eq!(sorted_tiles(&chambers[1]), vec![loc(4, 1), loc(5, 1)]);
}

#[test]
fn doors_block_the_fill_like_walls() {
    let room = Room::from_str("xxxxx\nx d x\nxxxxx", zero()).unwrap();
    let chambers = room.find_chambers();
    assert_eq!(chambers.len(), 2);
    assert_eq!(chambers[0].tiles, vec![loc(1, 1)]);
    assert_eq!(chambers[1].tiles, vec![loc(3, 1)]);
}

#[test]
fn open_map_is_a_single_chamber() {
    let room = Room::from_str("...\n...\n...", zero()).unwrap();
    let chambers = room.find_chambers();
    assert_eq!(chambers.len(), 1);
    assert_eq!(chambers[0].tiles.len(), 9);
    // The fill starts at the first cell of the scan.
    assert_eq!(chambers[0].tiles[0], loc(0, 0));
}

#[test]
fn spread_from_tile_collects_one_region() {
    let room = Room::from_str("xxxxxxx\nx  x  x\nxxxxxxx", zero()).unwrap();
    let mut visited = vec![false; room.total_tiles()];
    let chamber = room.spread_from_tile(loc(1, 1), &mut visited);
    assert_eq!(chamber.tiles[0], loc(1, 1));
    assert_eq!(sorted_tiles(&chamber), vec![loc(1, 1), loc(2, 1)]);
    // The other region is untouched.
    let second = room.spread_from_tile(loc(4, 1), &mut visited);
    assert_eq!(sorted_tiles(&second), vec![loc(4, 1), loc(5, 1)]);
}

#[test]
fn chamber_add_appends() {
    let mut chamber = Chamber { tiles: Vec::new() };
    chamber.add(loc(2, 3));
    chamber.add(loc(4, 5));
    assert_eq!(chamber.tiles, vec![loc(2, 3), loc(4, 5)]);
}
