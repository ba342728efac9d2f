//! A discrete-time N-body gravity simulation on fixed-point numbers.
//!
//! Bodies attract one another pairwise, bounce off the sides of an
//! axis-aligned rectangle and move one velocity per step. Every scalar is a
//! [`fixed::Fixed`]: a 64-bit integer counting units of 2^-32, with
//! saturating arithmetic, so that each operation is total and its result is
//! stated exactly.

pub mod appearance;
pub mod boundary;
pub mod fixed;
pub mod force;
pub mod laws;
pub mod nannou_calls;
pub mod particle;
pub mod vector;
pub mod world;

pub use appearance::Appearance;
pub use boundary::Boundary;
pub use fixed::Fixed;
pub use force::ForceLaw;
pub use particle::{Body, Particle};
pub use vector::Vector;
pub use world::{model, scatter, stars_from, world_from, StarDraws, World};
