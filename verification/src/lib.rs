//! Escape-time and root-attraction fractal rendering over an abstract
//! numeric interface.
//!
//! The per-pixel iteration, the polynomial algebra behind the Newton
//! renderer, and the colour mapping are all generic over small numeric
//! traits (`Coeff`, `Real`, `ComplexNum`), so the whole engine is verified
//! once for every scalar representation.  Exact integer models of the
//! traits live in this crate; callers may supply their own representation
//! (for example a floating-point one) outside of it.

pub mod complex;
pub mod ffi;
pub mod mandelbrot;
pub mod newton;
pub mod num;
pub mod polynomial;
pub mod structs;
pub mod utils;

pub use ffi::FFIVec;
pub use structs::{ColorSettings, Rgb8, Viewport};

use vstd::prelude::*;

verus! {

/// The one error the library reports: an argument rejected before any
/// per-pixel work starts.
#[derive(Clone, Copy, Debug, PartialEq, Eq, Structural)]
pub enum FractalError {
    InvalidArgument,
}

} // verus!
