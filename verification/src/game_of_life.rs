//! A cellular automaton on the matrix: each tick, every cell's next state is
//! alive exactly when it has two or three live neighbors among its eight
//! surrounding cells, counted on a torus (the grid wraps at the edges), and
//! the rendered color reflects alive against dead.

use vstd::prelude::*;
use crate::rgb8::RGB8;
use crate::ws2812::{Ws2812, COLS, NUM_PIXELS, ROWS};

verus! {

/// 1 for a live cell, 0 for a dead one.
pub open spec fn alive_count(g: Seq<bool>, row: int, col: int) -> int {
    if g[((row + ROWS) % (ROWS as int)) * COLS + ((col + COLS) % (COLS as int))] {
        1
    } else {
        0
    }
}

/// Number of live cells among the eight neighbors of `(row, col)`, with
/// toroidal wrapping at the edges.
pub open spec fn live_neighbors(g: Seq<bool>, row: int, col: int) -> int {
    alive_count(g, row - 1, col - 1) + alive_count(g, row - 1, col) + alive_count(
        g,
        row - 1,
        col + 1,
    ) + alive_count(g, row, col - 1) + alive_count(g, row, col + 1) + alive_count(
        g,
        row + 1,
        col - 1,
    ) + alive_count(g, row + 1, col) + alive_count(g, row + 1, col + 1)
}

/// The automaton's rule: a cell is alive in the next generation exactly when
/// it has two or three live neighbors in the current one.
pub open spec fn next_alive(g: Seq<bool>, row: int, col: int) -> bool {
    live_neighbors(g, row, col) == 2 || live_neighbors(g, row, col) == 3
}

/// The automaton's grid, row-major, one flag per cell.
pub struct GameOfLife(pub Vec<bool>);

impl GameOfLife {
    /// The grid holds exactly one flag per cell.
    pub open spec fn wf(self) -> bool {
        self.0@.len() == NUM_PIXELS
    }

    /// Reads the wrapped neighbor flag at an offset of at most one cell.
    fn neighbor(&self, row: usize, col: usize, dr: usize, dc: usize) -> (b: bool)
        requires
            self.wf(),
            row < ROWS,
            col < COLS,
            dr <= 2,
            dc <= 2,
        ensures
            b == self.0@[((row + dr + ROWS - 1) % (ROWS as int)) * COLS + ((col + dc + COLS - 1) % (
            COLS as int))],
    {
        self.0[((row + dr + ROWS - 1) % ROWS) * COLS + ((col + dc + COLS - 1) % COLS)]
    }

    /// Counts the live cells among the eight neighbors of `(row, col)`.
    fn count_neighbors(&self, row: usize, col: usize) -> (n: u8)
        requires
            self.wf(),
            row < ROWS,
            col < COLS,
        ensures
            n == live_neighbors(self.0@, row as int, col as int),
    {
        let mut n: u8 = 0;
        if self.neighbor(row, col, 0, 0) {
            n = n + 1;
        }
        if self.neighbor(row, col, 0, 1) {
            n = n + 1;
        }
        if self.neighbor(row, col, 0, 2) {
            n = n + 1;
        }
        if self.neighbor(row, col, 1, 0) {
            n = n + 1;
        }
        if self.neighbor(row, col, 1, 2) {
            n = n + 1;
        }
        if self.neighbor(row, col, 2, 0) {
            n = n + 1;
        }
        if self.neighbor(row, col, 2, 1) {
            n = n + 1;
        }
        if self.neighbor(row, col, 2, 2) {
            n = n + 1;
        }
        n
    }

    /// Advances the automaton one generation and renders it: live cells show
    /// green, dead cells are dark.
    pub fn update(&mut self, buffer: &mut Ws2812)
        requires
            old(self).wf(),
            old(buffer).wf(),
        ensures
            final(self).wf(),
            final(buffer).wf(),
            forall|row: int, col: int|
                0 <= row < ROWS && 0 <= col < COLS ==> (final(self).0@[row * COLS + col]
                    == next_alive(old(self).0@, row, col)),
            forall|row: int, col: int|
                0 <= row < ROWS && 0 <= col < COLS ==> final(buffer).at(row, col) == (if next_alive(
                    old(self).0@,
                    row,
                    col,
                ) {
                    RGB8 { padding: 0, b: 0, r: 0, g: 30 }
                } else {
                    RGB8 { padding: 0, b: 0, r: 0, g: 0 }
                }),
    {
        let mut next: Vec<bool> = Vec::new();
        let mut i: usize = 0;
        while i < NUM_PIXELS
            invariant
                self.wf(),
                self == old(self),
                i <= NUM_PIXELS,
                next@.len() == i,
                forall|j: int|
                    0 <= j < i ==> next@[j] == next_alive(self.0@, j / (COLS as int), j % (
                    COLS as int)),
            decreases NUM_PIXELS - i,
        {
            let n: u8 = self.count_neighbors(i / COLS, i % COLS);
            next.push(n == 2 || n == 3);
            i = i + 1;
        }
        let mut i: usize = 0;
        while i < NUM_PIXELS
            invariant
                buffer.wf(),
                self == old(self),
                i <= NUM_PIXELS,
                next@.len() == NUM_PIXELS,
                forall|j: int|
                    0 <= j < NUM_PIXELS ==> next@[j] == next_alive(self.0@, j / (COLS as int), j % (
                    COLS as int)),
                forall|row: int, col: int|
                    0 <= row < ROWS && 0 <= col < COLS && row * COLS + col < i ==> buffer.at(
                        row,
                        col,
                    ) == (if next_alive(self.0@, row, col) {
                        RGB8 { padding: 0, b: 0, r: 0, g: 30 }
                    } else {
                        RGB8 { padding: 0, b: 0, r: 0, g: 0 }
                    }),
            decreases NUM_PIXELS - i,
        {
            let c: RGB8 = if next[i] {
                RGB8::new(0, 30, 0)
            } else {
                RGB8::new(0, 0, 0)
            };
            buffer.set(i / COLS, i % COLS, c);
            proof {
                assert(COLS * (i / COLS) + (i % COLS) == i);
            }
            i = i + 1;
        }
        proof {
            assert forall|row: int, col: int|
                0 <= row < ROWS && 0 <= col < COLS implies next@[row * COLS + col] == next_alive(
                old(self).0@,
                row,
                col,
            ) by {
                let j = row * COLS + col;
                assert(j / (COLS as int) == row);
                assert(j % (COLS as int) == col);
            }
        }
        self.0 = next;
    }
}

} // verus!
