//! Fixed-point simulation core of an arcade space-combat game: a ship, its
//! bullets and drifting asteroids on a wrap-around arena.

use vstd::prelude::*;

pub mod audio;
pub mod broad_phase;
pub mod buffer;
pub mod bundle;
pub mod collision;
pub mod components;
pub mod fixed;
pub mod resources;
pub mod ship_input;
pub mod spawner;
pub mod states;
pub mod systems;
pub mod text;
pub mod world;

verus! {

/// Height of the arena, in fixed-point units.
pub const ARENA_HEIGHT: i64 = 300_000_000;

/// Width of the arena, in fixed-point units.
pub const ARENA_WIDTH: i64 = 300_000_000;

} // verus!
