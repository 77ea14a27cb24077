//! The integer core of a brute-force path tracer: which intersection a ray
//! meets first, how a light path ends, what a surface does with a ray once
//! the geometry is known, and how finished pixels become a plain-text image.
//!
//! Quantities that the renderer computes in floating point reach this
//! library as order keys (`i64` values whose order is that of the numbers
//! they stand for) or as the outcome of a comparison.

pub mod integrator;
pub mod material;
pub mod output;
pub mod scene;
