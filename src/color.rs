//! Opaque RGBA colors and their packed `0xAARRGGBB` form.

use vstd::prelude::*;

verus! {

/// The background color of the viewport, packed as `0xAARRGGBB`.
pub const BACKGROUND_ARGB: u32 = 0xFF18_1818;

/// An RGBA color with one byte per channel.
#[derive(Clone, Copy, Debug, PartialEq, Eq, Structural)]
pub struct Color {
    pub r: u8,
    pub g: u8,
    pub b: u8,
    pub a: u8,
}

/// The byte of `c` that starts at bit `shift`.
pub open spec fn byte_at(c: u32, shift: u32) -> u8 {
    ((c >> shift) & 0xFF) as u8
}

/// The color that the packed word `c` (`0xAARRGGBB`) stands for.
pub open spec fn unpacked(c: u32) -> Color {
    Color { r: byte_at(c, 16), g: byte_at(c, 8), b: byte_at(c, 0), a: byte_at(c, 24) }
}

/// The byte of `c` that starts at bit `shift`.
fn byte(c: u32, shift: u32) -> (r: u8)
    requires
        shift < 32,
    ensures
        r == byte_at(c, shift),
{
    let w = (c >> shift) & 0xFF;
    assert(((c >> shift) & 0xFF) < 256) by (bit_vector);
    w as u8
}

impl Color {
    /// Unpacks a word laid out as `0xAARRGGBB`.
    pub fn from_argb(c: u32) -> (r: Color)
        ensures
            r == unpacked(c),
    {
        Color { r: byte(c, 16), g: byte(c, 8), b: byte(c, 0), a: byte(c, 24) }
    }
}

} // verus!
