//! A two-dimensional weakly-compressible smoothed-particle-hydrodynamics core
//! on exact fixed-point arithmetic.
//!
//! Scalars are `i128` values counted in units of `1 / fx::FP`; every operation
//! saturates at `fx::SAT`, and division is total (a zero divisor yields zero).
//! One tick rebuilds a uniform spatial-hash neighbor index from the particle
//! positions, then runs the density/pressure pass, the force pass, and the
//! integration pass with penalty boundaries, each with an exact contract.

pub mod fx;
pub mod config;
pub mod vecmath;
pub mod neighbor;
pub mod particle;
pub mod lattice;
pub mod laws;
