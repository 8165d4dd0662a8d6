//! Small widget value types that wrap text or prepared graphics for
//! the composition layer above the engine.

use vstd::prelude::*;

verus! {

/// Identifier of an image registered with the application's image
/// cache.
#[derive(Clone, Copy, Debug, Hash, PartialEq, Eq, Structural)]
pub struct ImageId(pub usize);

/// Identifier of a prepared vector-graphics layer.
#[derive(Clone, Copy, Debug, Hash, PartialEq, Eq, Structural)]
pub struct SvgLayerId(pub usize);

/// A push button, holding either a short label or an image.
#[derive(Clone, Debug, Hash, PartialEq, Eq)]
pub struct Button {
    pub content: ButtonContent,
}

/// What a button shows.
#[derive(Clone, Debug, Hash, PartialEq, Eq)]
pub enum ButtonContent {
    Image(ImageId),
    // Buttons should only contain short amounts of text
    Text(String),
}

impl Button {
    /// A button labelled with the given text.
    pub fn with_label(text: String) -> (r: Self)
        ensures
            match r.content {
                ButtonContent::Text(s) => s@ == text@,
                ButtonContent::Image(_) => false,
            },
    {
        Button { content: ButtonContent::Text(text) }
    }

    /// A button showing the given image.
    pub fn with_image(image: ImageId) -> (r: Self)
        ensures
            r.content == ButtonContent::Image(image),
    {
        Button { content: ButtonContent::Image(image) }
    }
}

/// A vector-graphics widget: the layers it draws.
#[derive(Clone, Debug, Hash, PartialEq, Eq)]
pub struct Svg {
    pub layers: Vec<SvgLayerId>,
}

impl Svg {
    /// An SVG widget with no layers.
    pub fn empty() -> (r: Self)
        ensures
            r.layers@ == Seq::<SvgLayerId>::empty(),
    {
        Svg { layers: Vec::new() }
    }
}

/// A text label widget.
#[derive(Clone, Debug, Hash, PartialEq, Eq)]
pub struct Label {
    pub text: String,
}

impl Label {
    /// A label holding the given text.
    pub fn new(text: String) -> (r: Self)
        ensures
            r.text@ == text@,
    {
        Label { text }
    }
}

} // verus!
