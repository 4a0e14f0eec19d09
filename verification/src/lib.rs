//! A particle-based fluid simulator in two dimensions, on fixed-point
//! numbers.

pub mod density;
pub mod error;
pub mod fixed;
pub mod fluid;
pub mod forces;
pub mod integrator;
pub mod kernel;
pub mod laws;
pub mod spatial;
pub mod sums;
pub mod vector;
