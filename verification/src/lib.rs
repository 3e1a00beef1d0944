//! A tick-driven entity-component simulation: input is reduced to a movement
//! command, the command steers velocities, velocities move positions and pick
//! animation frames.

pub mod animator;
pub mod components;
pub mod input;
pub mod keyboard;
pub mod physics;
pub mod schedule;
pub mod spritesheet;
pub mod store;
pub mod world;

pub use crate::input::MovementCommand;
