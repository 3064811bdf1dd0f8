//! A manifest-driven raster image compositor.
//!
//! The crate models images as stacks of RGBA pixel layers, composites
//! drawable objects (rectangles and placed images) onto a canvas in
//! insertion order, and hands the finished pixels to an image encoder.

use vstd::prelude::*;

pub mod asset;
pub mod codec;
pub mod format;
pub mod image;
pub mod object;
pub mod util;

verus! {

/// The ways a render can fail.
///
/// Rendering is all-or-nothing: any of these aborts the render and no
/// output bytes are produced.
#[derive(Clone, Copy, Debug, PartialEq, Eq, Structural)]
pub enum RenderError {
    /// The requested output format tag is not one of the known formats.
    UnknownFormat,
    /// A drawable's placement or extent exceeds its target's bounds.
    OutOfBounds,
    /// A resize request resolves to a zero-sized target.
    InvalidResize,
    /// The external encoder or resampler reported a failure.
    Encode,
}

} // verus!
