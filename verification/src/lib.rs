//! A multi-pass text layout engine: given a run of text, integer font
//! metrics (in fixed-point subpixel units), a target rectangle and style
//! parameters, it produces a flat sequence of positioned glyphs plus
//! per-axis overflow feedback that a scrollbar presenter can size itself
//! from.
//!
//! The pipeline: segment normalized text into word / tab / line-break
//! tokens, estimate overflow (twice: before and after reserving scrollbar
//! space), place glyphs left-aligned with greedy line breaking, run the
//! shaping and justification adjustment extension points, align
//! horizontally and vertically, and finally translate into the
//! destination rectangle's coordinate space.
//!
//! All arithmetic is over `i64` subpixel units; a font backend adapter
//! (outside this crate) converts its own metric units into these.

use vstd::prelude::*;

pub mod align;
pub mod adjust;
pub mod geometry;
pub mod metrics;
pub mod overflow;
pub mod pipeline;
pub mod placement;
pub mod style;
pub mod tokens;
pub mod widgets;

verus! {

/// Bound on the magnitude of any single font metric (advance width,
/// kerning adjustment, ascent, line advance), in subpixel units.
pub const MAX_METRIC: i64 = 0x100_0000;

/// Largest number of characters a normalized text run may hold.
pub const MAX_TEXT_LEN: usize = 0x10_0000;

/// Bound on the magnitude of rectangle dimensions, origins and the
/// scrollbar thickness.
pub const MAX_DIM: i64 = 0x1_0000_0000;

/// Bound on the summed layout weight of a token stream; any caret the
/// layout computes stays below this. Equal to
/// `7 * MAX_METRIC * MAX_TEXT_LEN`.
pub const WEIGHT_LIMIT: i64 = 0x7000_0000_0000;

/// Bound on the magnitude of any glyph coordinate or trailing-slack
/// value that the aligners accept.
pub const GEOM_LIMIT: i64 = 0x4_0000_0000_0000;

} // verus!
