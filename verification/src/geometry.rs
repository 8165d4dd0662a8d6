//! Integer geometry in destination pixel space (fixed-point subpixel
//! units).

use vstd::prelude::*;
use crate::MAX_DIM;

verus! {

/// A point in destination space.
#[derive(Clone, Copy, Debug, PartialEq, Eq, Structural)]
pub struct LayoutPoint {
    pub x: i64,
    pub y: i64,
}

/// The dimensions of a rectangle.
#[derive(Clone, Copy, Debug, PartialEq, Eq, Structural)]
pub struct LayoutSize {
    pub width: i64,
    pub height: i64,
}

/// The rectangle a text run is laid out into.
#[derive(Clone, Copy, Debug, PartialEq, Eq, Structural)]
pub struct LayoutRect {
    pub origin: LayoutPoint,
    pub size: LayoutSize,
}

impl LayoutSize {
    /// Magnitude bound that keeps all layout arithmetic inside `i64`.
    pub open spec fn in_range(self) -> bool {
        -MAX_DIM <= self.width <= MAX_DIM && -MAX_DIM <= self.height <= MAX_DIM
    }
}

impl LayoutRect {
    /// Magnitude bound that keeps all layout arithmetic inside `i64`.
    pub open spec fn in_range(self) -> bool {
        &&& self.size.in_range()
        &&& -MAX_DIM <= self.origin.x <= MAX_DIM
        &&& -MAX_DIM <= self.origin.y <= MAX_DIM
    }
}

} // verus!
