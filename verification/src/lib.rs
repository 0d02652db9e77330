//! Combat-simulation core of a top-down naval arcade game.
//!
//! Ships steer through a bounded wheel angle, fire cooldown-gated weapons,
//! take contact damage from cannonballs, and an enemy wave spawner paces
//! new enemies against a budget and a concurrency cap.  All quantities the
//! core reasons about are fixed-point integers: angles in microradians,
//! lengths in micro-units, times in milliseconds.  The physics integrator,
//! the scene graph and the input devices are outside collaborators; the
//! core only decides, and hands them plain values.

pub mod ai;
pub mod locomotion;
mod rng;
pub mod spawner;
pub mod steering;
pub mod vec3;
pub mod weapons;
pub mod world;
