//! A minimal effect that walks a single lit pixel through the matrix: each
//! frame it erases the pixel at the current position, advances the position
//! by one (wrapping after 256 steps), and lights the new position.

use vstd::prelude::*;
use crate::rgb8::RGB8;
use crate::ws2812::{Ws2812, COLS, ROWS};

verus! {

/// Row of the walker at step `s`: steps sweep each row in turn.
pub open spec fn single_row(s: int) -> int {
    s / (ROWS as int)
}

/// Column of the walker at step `s`.
pub open spec fn single_col(s: int) -> int {
    s % (ROWS as int)
}

/// The single-pixel walker; the field is the current step, always below 256.
pub struct Single(pub usize);

impl Single {
    /// Renders one frame: the old position goes dark, the step advances by
    /// one (mod 256), and the new position lights up. Every other pixel is
    /// untouched.
    pub fn update(&mut self, buffer: &mut Ws2812)
        requires
            old(buffer).wf(),
            old(self).0 < 256,
        ensures
            final(buffer).wf(),
            final(self).0 == (old(self).0 + 1) % 256,
            final(buffer).at(single_row(old(self).0 as int), single_col(old(self).0 as int))
                == (RGB8 { padding: 0, b: 0, r: 0, g: 0 }),
            final(buffer).at(single_row(final(self).0 as int), single_col(final(self).0 as int))
                == (RGB8 { padding: 0, b: 30, r: 30, g: 30 }),
            forall|row: int, col: int|
                0 <= row < ROWS && 0 <= col < COLS && !(row == single_row(old(self).0 as int)
                    && col == single_col(old(self).0 as int)) && !(row == single_row(
                    final(self).0 as int,
                ) && col == single_col(final(self).0 as int)) ==> final(buffer).at(row, col)
                    == old(buffer).at(row, col),
    {
        let col: usize = self.0 % ROWS;
        let row: usize = self.0 / ROWS;
        buffer.set(row, col, RGB8::new(0, 0, 0));
        self.0 = (self.0 + 1) % 256;
        let col2: usize = self.0 % ROWS;
        let row2: usize = self.0 / ROWS;
        buffer.set(row2, col2, RGB8::new(30, 30, 30));
        proof {
            assert(!(single_row(old(self).0 as int) == single_row(self.0 as int) && single_col(
                old(self).0 as int,
            ) == single_col(self.0 as int)));
        }
    }
}

} // verus!
