use room_builder::Rotation;
use room_builder::WorldVec;

#[test]
fn rotation_degrees() {
    assert_eq!(Rotation::R0.degrees(), 0);
    assert_eq!(Rotation::R90.degrees(), 90);
    assert_eq!(Rotation::R180.degrees(), 180);
    assert_eq!(Rotation::R270.degrees(), 270);
}

#[test]
fn rotations_about_the_vertical_axis() {
    let v = WorldVec { x: 1, y: 2, z: 3 };
    assert_eq!(v.rotate(Rotation::R0), v);
    assert_eq!(v.rotate(Rotation::R90), WorldVec { x: 3, y: 2, z: -1 });
    assert_eq!(v.rotate(Rotation::R180), WorldVec { x: -1, y: 2, z: -3 });
    assert_eq!(v.rotate(Rotation::R270), WorldVec { x: -3, y: 2, z: 1 });
}

#[test]
fn four_quarter_turns_come_back_around() {
    let v = WorldVec { x: 7, y: -2, z: -9 };
    let once = v.rotate(Rotation::R90);
    let twice = once.rotate(Rotation::R90);
    let thrice = twice.rotate(Rotation::R90);
    assert_eq!(twice, v.rotate(Rotation::R180));
    assert_eq!(thrice, v.rotate(Rotation::R270));
    assert_eq!(thrice.rotate(Rotation::R90), v);
}

#[test]
fn vector_sum() {
    let a = WorldVec { x: 1, y: 2, z: 3 };
    let b = WorldVec { x: -4, y: 0, z: 10 };
    assert_eq!(a.add(b), WorldVec { x: -3, y: 2, z: 13 });
    assert_eq!(WorldVec::zero(), WorldVec { x: 0, y: 0, z: 0 });
}
