//! Integer world-space geometry.
//!
//! Positions, sizes and offsets are measured in quarter units: four quarter
//! units make one world unit, so the values stay exact integers even where a
//! shape sits halfway or three quarters of the way into a cell. One grid cell
//! is `CELL_Q` quarter units (four world units) on a side.

use vstd::prelude::*;

verus! {

/// One grid cell's side length, in quarter units (four world units).
pub const CELL_Q: i64 = 16;

/// The vertical lift applied to every part-local collider, in quarter units
/// (two world units): it raises a collider from the floor-level pivot of its
/// model to wall-center height.
pub const COLLIDER_LIFT_Q: i64 = 8;

/// A world-space vector in quarter units.
#[derive(Clone, Copy, PartialEq, Eq, Structural, Debug)]
pub struct WorldVec {
    pub x: i64,
    pub y: i64,
    pub z: i64,
}

/// A rotation about the vertical (y) axis, in quarter turns.
#[derive(Clone, Copy, PartialEq, Eq, Structural, Debug)]
pub enum Rotation {
    /// No rotation.
    R0,
    /// A quarter turn (90 degrees).
    R90,
    /// A half turn (180 degrees).
    R180,
    /// Three quarter turns (270 degrees).
    R270,
}

impl Rotation {
    /// The rotation's angle in degrees.
    pub open spec fn spec_degrees(self) -> int {
        match self {
            Rotation::R0 => 0,
            Rotation::R90 => 90,
            Rotation::R180 => 180,
            Rotation::R270 => 270,
        }
    }

    /// The rotation's angle in degrees.
    pub fn degrees(self) -> (d: u16)
        ensures
            d == self.spec_degrees(),
    {
        match self {
            Rotation::R0 => 0,
            Rotation::R90 => 90,
            Rotation::R180 => 180,
            Rotation::R270 => 270,
        }
    }
}

/// The image of `v` under the rotation `r` about the vertical axis:
/// a quarter turn sends `(x, y, z)` to `(z, y, -x)`.
pub open spec fn spec_rotate(r: Rotation, v: WorldVec) -> WorldVec {
    match r {
        Rotation::R0 => v,
        Rotation::R90 => WorldVec { x: v.z, y: v.y, z: (-v.x) as i64 },
        Rotation::R180 => WorldVec { x: (-v.x) as i64, y: v.y, z: (-v.z) as i64 },
        Rotation::R270 => WorldVec { x: (-v.z) as i64, y: v.y, z: v.x },
    }
}

/// The componentwise sum of two vectors.
pub open spec fn spec_add(a: WorldVec, b: WorldVec) -> WorldVec {
    WorldVec { x: (a.x + b.x) as i64, y: (a.y + b.y) as i64, z: (a.z + b.z) as i64 }
}

impl WorldVec {
    /// The zero vector.
    pub fn zero() -> (v: WorldVec)
        ensures
            v == (WorldVec { x: 0, y: 0, z: 0 }),
    {
        WorldVec { x: 0, y: 0, z: 0 }
    }

    /// Rotates this vector about the vertical axis.
    pub fn rotate(self, r: Rotation) -> (v: WorldVec)
        requires
            i64::MIN < self.x,
            i64::MIN < self.z,
        ensures
            v == spec_rotate(r, self),
    {
        match r {
            Rotation::R0 => self,
            Rotation::R90 => WorldVec { x: self.z, y: self.y, z: -self.x },
            Rotation::R180 => WorldVec { x: -self.x, y: self.y, z: -self.z },
            Rotation::R270 => WorldVec { x: -self.z, y: self.y, z: self.x },
        }
    }

    /// Adds another vector to this one.
    pub fn add(self, other: WorldVec) -> (v: WorldVec)
        requires
            i64::MIN <= self.x + other.x <= i64::MAX,
            i64::MIN <= self.y + other.y <= i64::MAX,
            i64::MIN <= self.z + other.z <= i64::MAX,
        ensures
            v == spec_add(self, other),
    {
        WorldVec { x: self.x + other.x, y: self.y + other.y, z: self.z + other.z }
    }
}

} // verus!
