//! The color model: one 8-bit channel each for red, green and blue, plus a
//! padding byte that keeps a pixel exactly one 32-bit word wide for bulk
//! transfer. The padding byte is always zero and is never transmitted as
//! color data.

use vstd::prelude::*;

verus! {

/// An 8-bit-per-channel RGB color. The field order mirrors the byte layout
/// that the timing driver serializes (see `ws2812::word_of`): padding in the
/// lowest byte, then blue, red, green.
#[derive(Debug, Copy, Clone, PartialEq, Eq, Structural)]
pub struct RGB8 {
    pub padding: u8,
    pub b: u8,
    pub r: u8,
    pub g: u8,
}

impl RGB8 {
    /// True of every color the library constructs: the padding byte is zero.
    pub open spec fn wf(self) -> bool {
        self.padding == 0
    }

    pub fn new(r: u8, g: u8, b: u8) -> (c: Self)
        ensures
            c.r == r,
            c.g == g,
            c.b == b,
            c.padding == 0,
            c.wf(),
    {
        Self { padding: 0, g, r, b }
    }

    /// Dims a color by an order of magnitude: every channel is divided by 10.
    pub fn half(self) -> (c: Self)
        ensures
            c.r == self.r / 10,
            c.g == self.g / 10,
            c.b == self.b / 10,
            c.padding == 0,
            c.wf(),
    {
        Self { r: self.r / 10, g: self.g / 10, b: self.b / 10, padding: 0 }
    }
}

impl From<(u8, u8, u8)> for RGB8 {
    fn from(t: (u8, u8, u8)) -> (c: Self) {
        RGB8::new(t.0, t.1, t.2)
    }
}

impl vstd::std_specs::convert::FromSpecImpl<(u8, u8, u8)> for RGB8 {
    open spec fn obeys_from_spec() -> bool {
        true
    }

    open spec fn from_spec(t: (u8, u8, u8)) -> RGB8 {
        RGB8 { padding: 0, b: t.2, r: t.0, g: t.1 }
    }
}

impl Default for RGB8 {
    /// Black, the color of a cleared pixel.
    fn default() -> (c: Self)
        ensures
            c == (RGB8 { padding: 0, b: 0, r: 0, g: 0 }),
    {
        RGB8 { padding: 0, b: 0, r: 0, g: 0 }
    }
}

} // verus!
