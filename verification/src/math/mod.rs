//! Small integer vectors: positions, displacements and colours.

pub mod vec2;
pub mod vec4;
