//! A small compiler from textual tile maps to oriented, collidable level
//! geometry.
//!
//! A map is a block of text in which `x` marks a wall tile, `d` a door tile,
//! and any other character an empty floor tile. The library parses such a
//! block into a rectangular grid, classifies every wall or door tile by its
//! four cardinal neighbors into one of seventeen renderable part categories
//! (straight walls, doors, corners, T-junctions, a four-way junction), and
//! emits, for a caller-supplied part catalog, one placement (model, world
//! position, rotation) per placed part together with axis-aligned box
//! colliders. A flood fill over the empty tiles partitions the open floor
//! into connected chambers.
//!
//! All world-space geometry is measured in quarter units: four quarter units
//! are one world unit, and one grid cell is four world units on a side.

pub mod catalog;
pub mod chambers;
pub mod classify;
pub mod compile;
pub mod geometry;
pub mod parse;
pub mod room;
pub mod tile;

pub use catalog::Catalog;
pub use catalog::ColliderShape;
pub use catalog::ModelId;
pub use catalog::PartSpec;
pub use chambers::Chamber;
pub use classify::RenderableParts;
pub use compile::BuildOutput;
pub use compile::ColliderPlacement;
pub use compile::Placement;
pub use geometry::Rotation;
pub use geometry::WorldVec;
pub use parse::MapError;
pub use room::Location;
pub use room::Room;
pub use tile::GridDirection;
pub use tile::TileCross;
pub use tile::TileType;
