//! Style inputs of a layout call: alignment, per-axis overflow policy,
//! scrollbar reservation, and the error a malformed call returns.

use vstd::prelude::*;
use crate::MAX_DIM;

verus! {

/// Horizontal text alignment, as parsed from a `text-align` style.
#[derive(Clone, Copy, Debug, PartialEq, Eq, Structural)]
pub enum TextAlignmentHorz {
    Left,
    Center,
    Right,
}

/// Vertical text alignment, as parsed from an `align-items` style.
#[derive(Clone, Copy, Debug, PartialEq, Eq, Structural)]
pub enum TextAlignmentVert {
    Top,
    Center,
    Bottom,
}

/// What a single axis does with content that exceeds the rectangle.
#[derive(Clone, Copy, Debug, PartialEq, Eq, Structural)]
pub enum TextOverflowBehaviour {
    /// Content may paint outside the rectangle; no scrollbar.
    Visible,
    /// Content is clipped at the rectangle's edge.
    Hidden,
    /// A scrollbar is always reserved.
    Scroll,
    /// A scrollbar is reserved when the content overflows.
    Auto,
}

/// Per-axis overflow policy.
#[derive(Clone, Copy, Debug, PartialEq, Eq, Structural)]
pub struct LayoutOverflow {
    pub horizontal: TextOverflowBehaviour,
    pub vertical: TextOverflowBehaviour,
}

impl LayoutOverflow {
    /// True when text may grow past the rectangle's right edge, so that
    /// lines never wrap on width (only on explicit line breaks).
    pub open spec fn allows_horizontal_overflow_spec(&self) -> bool {
        self.horizontal is Visible
    }

    /// True when text may grow past the rectangle's right edge, so that
    /// lines never wrap on width (only on explicit line breaks).
    pub fn allows_horizontal_overflow(&self) -> (r: bool)
        ensures
            r == self.allows_horizontal_overflow_spec(),
    {
        match self.horizontal {
            TextOverflowBehaviour::Visible => true,
            _ => false,
        }
    }
}

/// Space layout must reserve for a scrollbar; the visual style of the
/// bar is no concern of layout.
#[derive(Clone, Copy, Debug, PartialEq, Eq, Structural)]
pub struct ScrollbarInfo {
    /// Thickness of the bar: width of a vertical scrollbar, height of a
    /// horizontal one, in subpixel units.
    pub width: i64,
    /// Padding around the inner bar; does not participate in layout.
    pub padding: i64,
}

impl ScrollbarInfo {
    /// Magnitude bound that keeps all layout arithmetic inside `i64`.
    pub open spec fn in_range(self) -> bool {
        0 <= self.width <= MAX_DIM && 0 <= self.padding <= MAX_DIM
    }
}

/// Why a layout call returned no glyphs.
#[derive(Clone, Copy, Debug, PartialEq, Eq, Structural)]
pub enum LayoutError {
    /// A structurally impossible input: a rectangle with a negative
    /// dimension, or a line-break table whose last entry does not
    /// reference the final glyph.
    MalformedLayout,
    /// The normalized text exceeds the engine's character limit.
    TextTooLong,
}

} // verus!
