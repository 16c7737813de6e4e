//! Voxel ray tracing core: a dense boolean voxel grid and an exact
//! grid-DDA traversal that finds the first occupied voxel a ray enters.
//!
//! Scalar coordinates are exact rationals rather than floating point, so
//! every boundary crossing, axis tie-break and degenerate (zero-component)
//! direction is decided exactly; per-axis parametric distances carry an
//! explicit "never crosses" infinity for zero direction components.

pub mod grid;
pub mod laws;
pub mod scalar;
pub mod tracer;
