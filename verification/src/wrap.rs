//! A sweeping color-cycle effect: the whole matrix pulses through red, then
//! green, then blue, one channel per 256-step segment of a 768-step cycle.
//! The per-cell brightness offsets (typically a sinusoidal sweep over the
//! cell index) are supplied by the caller, so that the verified core stays
//! free of floating point.

use vstd::prelude::*;
use crate::rgb8::RGB8;
use crate::ws2812::{Ws2812, COLS, NUM_PIXELS, ROWS};

verus! {

/// The color a cell shows at cycle step `s` for brightness `offset`: the
/// offset lands in the red channel during the first 256 steps, then green,
/// then blue, and the result is dimmed by a factor of ten.
pub open spec fn wrap_color(s: int, offset: u8) -> RGB8 {
    if s < 256 {
        RGB8 { padding: 0, b: 0, r: (offset / 10) as u8, g: 0 }
    } else if s < 512 {
        RGB8 { padding: 0, b: 0, r: 0, g: (offset / 10) as u8 }
    } else {
        RGB8 { padding: 0, b: (offset / 10) as u8, r: 0, g: 0 }
    }
}

/// The channel-sweep effect; the field is the cycle step, always below 768.
pub struct Wrap(pub usize);

impl Wrap {
    /// Renders one frame: cell `i` (row-major) shows `wrap_color` of the
    /// current step and `offsets[i]`, and the step advances by one, wrapping
    /// after 768 steps.
    pub fn update(&mut self, buffer: &mut Ws2812, offsets: &Vec<u8>)
        requires
            old(buffer).wf(),
            old(self).0 < 768,
            offsets@.len() == NUM_PIXELS,
        ensures
            final(buffer).wf(),
            final(self).0 == (old(self).0 + 1) % 768,
            forall|row: int, col: int|
                0 <= row < ROWS && 0 <= col < COLS ==> final(buffer).at(row, col) == wrap_color(
                    old(self).0 as int,
                    offsets@[row * COLS + col],
                ),
    {
        let s: usize = self.0;
        let mut i: usize = 0;
        while i < NUM_PIXELS
            invariant
                buffer.wf(),
                i <= NUM_PIXELS,
                s == old(self).0,
                s < 768,
                self.0 == old(self).0,
                offsets@.len() == NUM_PIXELS,
                forall|row: int, col: int|
                    0 <= row < ROWS && 0 <= col < COLS && row * COLS + col < i ==> buffer.at(
                        row,
                        col,
                    ) == wrap_color(s as int, offsets@[row * COLS + col]),
            decreases NUM_PIXELS - i,
        {
            let offset: u8 = offsets[i];
            let c: RGB8 = if s < 256 {
                RGB8::new(offset, 0, 0)
            } else if s < 512 {
                RGB8::new(0, offset, 0)
            } else {
                RGB8::new(0, 0, offset)
            };
            let c: RGB8 = c.half();
            buffer.set(i / COLS, i % COLS, c);
            proof {
                assert(COLS * (i / COLS) + (i % COLS) == i);
            }
            i = i + 1;
        }
        self.0 = (self.0 + 1) % 768;
    }
}

} // verus!
