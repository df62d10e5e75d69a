//! Simulation core of a small arcade game: a player dodges enemies that
//! bounce around a rectangular arena.
//!
//! All quantities are integers. Lengths are counted in sub-units, `UNIT` of
//! them to one world unit; time is counted in nanoseconds.
use vstd::prelude::*;

pub mod components;
pub mod enemy;
pub mod game;
pub mod gamestate;
pub mod math;
pub mod motion;
pub mod player;
pub mod pool;
pub mod resources;
pub mod systems;
pub mod utilities;

verus! {

/// Sub-units in one world unit.
pub const UNIT: i64 = 1_000_000;

/// Radius of every entity, in sub-units.
pub const ENTITY_SIZE: i64 = 10_000_000;

/// Distance that a moving entity covers in one second, in sub-units.
pub const ENTITY_SPEED: i64 = 500_000_000;

/// Length of a unit direction vector.
pub const DIRECTION_SCALE: i32 = 1_000_000;

/// Nanoseconds in one second.
pub const NANOS_PER_SECOND: u64 = 1_000_000_000;

/// Period of the spawn timer, in nanoseconds.
pub const SPAWN_PERIOD: u64 = 3_000_000_000;

/// Number of records in the enemy pool.
pub const ENEMY_POOL_SIZE: usize = 100;

} // verus!
