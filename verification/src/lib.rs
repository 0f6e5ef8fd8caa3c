//! A 2D particle physics sandbox engine: circles of one fixed radius fall
//! under a configurable gravity vector, separate on contact by positional
//! correction, and stay confined to a rectangular world.
//!
//! The world is modelled in integer coordinates. A driver picks the scale
//! (how many integer units make one metre, and one tick of time); every
//! quantity the engine touches — positions, gravity, time steps — is a plain
//! `i64` in those units, so every step of the simulation is exact arithmetic
//! with a proved absence of overflow.
//!
//! The engine has three layers, leaf first:
//! - [`vertex`]: a particle (position, previous position, pending
//!   acceleration) and its Störmer–Verlet integration step;
//! - [`grid`]: a uniform spatial grid of bounded cells used as the
//!   broad phase of collision detection;
//! - [`solver`]: owns the particles and the grid and runs one frame as a
//!   fixed sequence of sub-steps (gravity, grid rebuild, collision
//!   resolution, boundary clamp, integration).

pub mod config;
pub mod grid;
pub mod solver;
pub mod vertex;
