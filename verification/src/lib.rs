//! Line of sight, collision and projectile rules for a top-down shooter on a
//! tile grid, in exact integer arithmetic.
//!
//! Lengths and positions are whole numbers of milli-units: a thousandth of a
//! world unit. A grid cell is eight world units wide.

pub mod collision_laws;
pub mod entities;
pub mod fan;
pub mod fixed;
pub mod geometry;
pub mod grades;
pub mod items;
pub mod names;
pub mod palette;
pub mod player;
pub mod sight;
pub mod sight_laws;
pub mod tile_map;
pub mod walls;
pub mod world;
