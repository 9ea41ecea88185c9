//! Simulation core of a 2D arena shooter with a toroidal (wrap-around) world.
//!
//! The crate keeps a generational entity store consistent with a pair of
//! physics sets (rigid bodies and their parented colliders) across a frame
//! loop, defers structural mutation (spawn/despawn) behind a queue that is
//! applied only after the per-frame read pass, and drives the player's
//! rotation and velocity from a continuous control law.
//!
//! All quantities are fixed-point integers: positions and velocities in
//! milli-units, angles in milli-degrees, time in milliseconds.  Reading
//! input devices, rendering, and the numerical integration of bodies are
//! the embedding program's business; it talks to this core in plain values.

pub mod collision;
pub mod entity;
pub mod math;
pub mod physics;
pub mod player;
pub mod projectile;
pub mod resource;
pub mod store;
pub mod world;
pub mod world_mutator;
