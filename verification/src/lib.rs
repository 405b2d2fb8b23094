//! Simulation core of a side-scrolling arcade shooter.
//!
//! The world is a store of entities with components. Each tick the systems run
//! over it in a fixed order, the store takes in what they created and deleted,
//! and the phase of the run is looked at again. Every real quantity is a
//! fixed-point number that counts thousandths.
use vstd::prelude::*;

pub mod background;
pub mod budget;
pub mod color;
pub mod effect;
pub mod enemy;
pub mod entity;
pub mod fixed;
pub mod game;
pub mod input;
pub mod lives;
pub mod money;
pub mod movement;
pub mod particle;
pub mod phase;
pub mod physics;
pub mod pickup;
pub mod player;
pub mod projectile;
pub mod random;
pub mod ship;
pub mod sprite;
pub mod upgrade;
pub mod world;

verus! {

/// The width of the play area, in whole units.
pub const WIDTH: usize = 400;

/// The height of the play area, in whole units.
pub const HEIGHT: usize = 300;

/// The width of the play area, in thousandths.
pub const FIELD_WIDTH: i64 = 400_000;

/// The height of the play area, in thousandths.
pub const FIELD_HEIGHT: i64 = 300_000;

} // verus!
