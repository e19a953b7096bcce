//! Vector primitives.

pub mod vector2;
