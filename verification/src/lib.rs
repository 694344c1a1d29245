//! Escape-time rendering of generalized Mandelbrot sets.
//!
//! Coordinates and iteration values are binary fixed-point numbers with 56
//! fractional bits, so every arithmetic step of the evaluation pipeline is
//! exact integer arithmetic with a precise contract.  Color gradients are
//! sampled through the colorous crate at integer positions on a fine grid.

pub mod fixed;
pub mod complex;
pub mod escape;
pub mod grid;
pub mod log2;
pub mod smooth;
pub mod palette;
pub mod render;
pub mod laws;
