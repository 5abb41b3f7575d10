//! A fixed-capacity particle pool for frame-stepped visual effects.
//!
//! The pool owns a ring of particle slots. `emit` writes freshly templated
//! particles at the emission cursor, overwriting whatever lives there, and
//! `update` integrates motion, rotation, lifetime and fading once per frame.
//! Every continuous quantity (position, velocity, seconds, degrees, opacity)
//! is carried as a signed count of thousandths, so the whole simulation is
//! exact integer arithmetic with verified contracts.

pub mod fixed;
pub mod laws;
pub mod particle;
pub mod state;
pub mod types;

pub use fixed::MILLI;
pub use particle::{Particle, Rgb};
pub use state::{ParticlesError, ParticlesState, RenderState};
pub use types::{ParticleEffect, ParticleType, ParticleTypeBuilder};
