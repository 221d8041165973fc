//! Colours of drawables, as four 8-bit channels.

use vstd::prelude::*;

verus! {

/// A colour with red, green, blue and alpha channels; alpha 255 is opaque.
#[derive(Copy, Clone, Debug, PartialEq, Eq, Hash, Structural)]
pub struct Color {
    pub r: u8,
    pub g: u8,
    pub b: u8,
    pub a: u8,
}

impl Color {
    /// The opaque colour with the given channels.
    pub fn rgb(r: u8, g: u8, b: u8) -> (c: Color)
        ensures
            c == (Color { r, g, b, a: 0xff }),
    {
        Color { r, g, b, a: 0xff }
    }

    /// The colour with the given channels and alpha.
    pub fn rgba(r: u8, g: u8, b: u8, a: u8) -> (c: Color)
        ensures
            c == (Color { r, g, b, a }),
    {
        Color { r, g, b, a }
    }
}

/// The standard colours by name: the colours in which cells are drawn. One
/// drawable is made for each of them when the program starts.
pub fn standard_colors() -> (table: Vec<(&'static str, Color)>)
    ensures
        table@ == seq![("Blue", Color { r: 100, g: 160, b: 230, a: 0xff })],
{
    let mut table: Vec<(&'static str, Color)> = Vec::new();
    table.push(("Blue", Color::rgb(100, 160, 230)));
    assert(table@ =~= seq![("Blue", Color { r: 100, g: 160, b: 230, a: 0xff })]);
    table
}

} // verus!
