//! Display colors of chart lines.

use vstd::prelude::*;

verus! {

/// An RGB color.
#[derive(Debug, Clone, Copy, PartialEq, Eq, Structural, Hash)]
pub struct Color {
    /// Red component.
    pub r: u8,
    /// Green component.
    pub g: u8,
    /// Blue component.
    pub b: u8,
}

impl Color {
    /// Builds a color from its three components.
    pub fn new(r: u8, g: u8, b: u8) -> (res: Self)
        ensures
            res == (Color { r, g, b }),
    {
        Color { r, g, b }
    }
}

} // verus!
