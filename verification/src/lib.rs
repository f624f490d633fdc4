//! Renders a raster image as colored text for a terminal.
//!
//! The library computes aspect-preserving output dimensions, quantizes
//! colors to terminal escape codes, selects a character per output cell
//! (fixed block, fixed character, gradient-direction line glyph, or
//! nearest-neighbor glyph match against a reference bitmap strip), and
//! assembles the escape-coded character grid row by row.

use vstd::prelude::*;

pub mod color;
pub mod dims;
pub mod glyphs;
pub mod img;
pub mod outside;
pub mod render;
pub mod select;

verus! {

/// A fatal condition of one render run.
#[derive(Clone, Copy, Debug, PartialEq, Eq, Structural)]
pub enum RenderError {
    /// The source image has no pixels (zero width or height), so no
    /// aspect ratio is defined.
    InvalidImage,
    /// The configuration asks for something the source cannot give: a
    /// crop region outside the source bounds, or a zero-area output.
    InvalidConfiguration,
    /// The reference glyph strip cannot be cut into equal-width glyph
    /// cells.
    MalformedGlyphSet,
    /// The image codec could not decode the given bytes.
    ImageDecodeError,
}

} // verus!
