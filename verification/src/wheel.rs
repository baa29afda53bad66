//! The color-wheel effect: every cell's hue is taken from a three-segment
//! ramp (red to green to blue and back to red) indexed by the cell's
//! row-major position plus a phase that advances one step per frame.

use vstd::prelude::*;
use crate::rgb8::RGB8;
use crate::ws2812::{Ws2812, COLS, NUM_PIXELS, ROWS};

verus! {

/// The hue ramp: positions 0..=255 sweep red -> green -> blue -> red.
pub open spec fn spec_wheel(wheel_pos: u8) -> RGB8 {
    let p = 255 - wheel_pos;
    if p < 85 {
        RGB8 { padding: 0, b: (p * 3) as u8, r: (255 - p * 3) as u8, g: 0 }
    } else if p < 170 {
        let q = p - 85;
        RGB8 { padding: 0, b: (255 - q * 3) as u8, r: 0, g: (q * 3) as u8 }
    } else {
        let q = p - 170;
        RGB8 { padding: 0, b: 0, r: (q * 3) as u8, g: (255 - q * 3) as u8 }
    }
}

/// Maps a hue position 0..=255 to its color on the wheel.
pub fn wheel(wheel_pos: u8) -> (c: RGB8)
    ensures
        c == spec_wheel(wheel_pos),
        c.wf(),
{
    let pos: u8 = 255 - wheel_pos;
    if pos < 85 {
        RGB8::new(255 - pos * 3, 0, pos * 3)
    } else if pos < 170 {
        let q: u8 = pos - 85;
        RGB8::new(0, q * 3, 255 - q * 3)
    } else {
        let q: u8 = pos - 170;
        RGB8::new(q * 3, 255 - q * 3, 0)
    }
}

/// The wheel at an arbitrary integer position: the ramp repeats mod 256.
pub open spec fn wheel_at(n: int) -> RGB8 {
    spec_wheel((n % 256) as u8)
}

/// The wheel's endpoints: position 0 is pure red and position 85, one third
/// of the way around, is pure green.
pub proof fn lemma_wheel_endpoints()
    ensures
        spec_wheel(0) == (RGB8 { padding: 0, b: 0, r: 255, g: 0 }),
        spec_wheel(85) == (RGB8 { padding: 0, b: 0, r: 0, g: 255 }),
{
}

/// The hue ramp is periodic with period 256.
pub proof fn lemma_wheel_periodic(n: int)
    ensures
        wheel_at(n + 256) == wheel_at(n),
{
    assert((n + 256) % 256 == n % 256);
}

/// The hue ramp is continuous: no two adjacent positions differ by more than
/// 3 in any channel. The wrap from 255 back to 0 lands on the same color, so
/// the ramp is continuous there as well (`lemma_wheel_wrap`).
pub proof fn lemma_wheel_continuous(i: u8)
    requires
        i < 255,
    ensures
        -3 <= spec_wheel((i + 1) as u8).r - spec_wheel(i).r <= 3,
        -3 <= spec_wheel((i + 1) as u8).g - spec_wheel(i).g <= 3,
        -3 <= spec_wheel((i + 1) as u8).b - spec_wheel(i).b <= 3,
{
}

/// Both ends of the ramp are pure red, so the wrap is seamless.
pub proof fn lemma_wheel_wrap()
    ensures
        spec_wheel(255) == spec_wheel(0),
{
}

/// Hue position of the cell at row-major index `i` when the phase is `phase`:
/// the cell's share of the full ramp, shifted by the phase, mod 256.
pub open spec fn wheel_index(i: int, phase: int) -> int {
    (i * 256 / (ROWS * COLS) + phase) % 256
}

/// The color-wheel effect: the whole ramp is spread over the matrix in
/// row-major order and rotates one step per frame.
pub struct Wheel(pub u8);

impl Wheel {
    /// Renders one frame: every cell gets its wheel color for the current
    /// phase, then the phase advances by one, wrapping mod 256.
    pub fn update(&mut self, buffer: &mut Ws2812)
        requires
            old(buffer).wf(),
        ensures
            final(buffer).wf(),
            final(self).0 == (old(self).0 + 1) % 256,
            forall|row: int, col: int|
                0 <= row < ROWS && 0 <= col < COLS ==> final(buffer).at(row, col) == spec_wheel(
                    wheel_index(row * COLS + col, old(self).0 as int) as u8,
                ),
    {
        let phase: u8 = self.0;
        let mut i: usize = 0;
        while i < NUM_PIXELS
            invariant
                buffer.wf(),
                i <= NUM_PIXELS,
                phase == old(self).0,
                self.0 == old(self).0,
                forall|row: int, col: int|
                    0 <= row < ROWS && 0 <= col < COLS && row * COLS + col < i ==> buffer.at(
                        row,
                        col,
                    ) == spec_wheel(wheel_index(row * COLS + col, phase as int) as u8),
            decreases NUM_PIXELS - i,
        {
            let pos: usize = ((i * 256 / NUM_PIXELS) + phase as usize) % 256;
            let c = wheel(pos as u8);
            buffer.set(i / COLS, i % COLS, c);
            proof {
                assert(COLS * (i / COLS) + (i % COLS) == i);
            }
            i = i + 1;
        }
        self.0 = if self.0 == 255 {
            0
        } else {
            self.0 + 1
        };
    }
}

} // verus!
