//! Configuration constants of the game, fixed at build time.
//!
//! Lengths are in units of one thousandth of a pixel, speeds in units per
//! second, and times in microseconds.

use vstd::prelude::*;

verus! {

/// Number of length units in one pixel.
pub const UNITS_PER_PIXEL: i32 = 1_000;

/// Number of microseconds in one second.
pub const MICROS_PER_SECOND: u64 = 1_000_000;

/// The fixed-point value that stands for one in a direction vector.
pub const DIRECTION_ONE: i32 = 1_000_000;

/// The square of `DIRECTION_ONE`.
pub const DIRECTION_ONE_SQUARED: u128 = 1_000_000_000_000;

/// The product of `DIRECTION_ONE` and `MICROS_PER_SECOND`.
pub const DIRECTION_ONE_SECOND: u128 = 1_000_000_000_000;

/// Edge length of the player sprite.
pub const PLAYER_SIZE: i32 = 64_000;

/// Edge length of an enemy sprite.
pub const ENEMY_SIZE: i32 = 64_000;

/// Edge length of a star sprite.
pub const STAR_SIZE: i32 = 30_000;

/// Speed of the player.
pub const PLAYER_SPEED: u32 = 500_000;

/// Speed of every enemy.
pub const ENEMY_SPEED: u32 = 200_000;

/// Number of enemies placed when a session starts.
pub const NUMBER_OF_ENEMIES: usize = 4;

/// Number of stars placed when a session starts.
pub const NUMBER_OF_STARS: usize = 10;

/// Time between two reassignments of the enemies' directions.
pub const ENEMY_TIMESTEP: u64 = 1_000_000;

/// Time between two stars that appear during play.
pub const STAR_SPAWN_TIME: u64 = 1_000_000;

/// Time between two enemies that appear during play.
pub const ENEMY_SPAWN_TIME: u64 = 5_000_000;

/// Health of a freshly spawned player.
pub const PLAYER_START_HEALTH: u32 = 3;

/// Distance by which a collision pushes the player and the enemy apart.
pub const COLLISION_REBOUND_STRENGTH: u32 = 50_000;

/// Distance between two centres at or below which they touch: half the size
/// of the player and half the size of an enemy.
pub const COLLISION_DISTANCE: i32 = 64_000;

} // verus!
