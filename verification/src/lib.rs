//! Turn-based dungeon crawler core: map generation, monster spawning, the
//! decision layer of the monsters and the resolution of player and enemy turns.

pub mod ai;
pub mod components;
pub mod map;
pub mod position;
pub mod random;
pub mod resources;
pub mod systems;
pub mod tile;
pub mod utils;
