//! The timing driver model for a WS2812 ("one-wire addressable LED") matrix:
//! the owned ROWS x COLS pixel buffer with serpentine physical addressing,
//! the serialization of the buffer into transfer-ready 32-bit words, the
//! protocol-exact PIO timing program, and the clock-divider computation that
//! makes the program run at the protocol's 800 kHz bit rate.

use vstd::prelude::*;
use crate::rgb8::RGB8;

verus! {

/// Matrix geometry, fixed at build time.
pub const ROWS: usize = 16;
pub const COLS: usize = 16;
pub const NUM_PIXELS: usize = ROWS * COLS;

/// Cycle counts of the three phases of one protocol bit: start, data, stop.
pub const T1: u8 = 2;
pub const T2: u8 = 5;
pub const T3: u8 = 3;
pub const CYCLES_PER_BIT: u32 = 10;

/// Target bit frequency of the protocol family, in kHz.
pub const PROTOCOL_FREQ_KHZ: u32 = 800;

/// The serpentine wiring transform: the physical chain visits columns
/// right-to-left on even rows and left-to-right on odd rows, so a logical
/// column maps to `COLS - 1 - col` on even rows and to `col` on odd rows.
pub open spec fn physical_col(row: int, col: int) -> int {
    if row % 2 == 0 {
        COLS - 1 - col
    } else {
        col
    }
}

/// Index of a logical coordinate in the physical (wiring-order) pixel chain.
pub open spec fn physical_index(row: int, col: int) -> int {
    row * COLS + physical_col(row, col)
}

/// The 32-bit transfer word of one pixel: green in the highest byte, then
/// red, then blue, padding in the lowest byte. The hardware shifts each word
/// out left-first with a 24-bit threshold, so exactly the G, R, B bytes reach
/// the wire, in protocol order, and the padding byte is never transmitted.
pub open spec fn word_of(c: RGB8) -> int {
    c.g * 0x1000000 + c.r * 0x10000 + c.b * 0x100 + c.padding
}

/// The pixel-push driver: owns the pixel buffer in physical wiring order and
/// only ever exposes it through the logical serpentine-corrected coordinates.
pub struct Ws2812 {
    colours: Vec<RGB8>,
}

impl Ws2812 {
    /// The buffer holds exactly one color per physical LED.
    pub closed spec fn wf(self) -> bool {
        self.colours.len() == NUM_PIXELS
    }

    /// The color at a logical coordinate: the buffer is read through the
    /// serpentine transform, never in raw wiring order.
    pub closed spec fn at(self, row: int, col: int) -> RGB8 {
        self.colours@[physical_index(row, col)]
    }

    pub fn new() -> (w: Self)
        ensures
            w.wf(),
            forall|row: int, col: int|
                0 <= row < ROWS && 0 <= col < COLS ==> w.at(row, col) == (RGB8 {
                    padding: 0,
                    b: 0,
                    r: 0,
                    g: 0,
                }),
    {
        let mut colours: Vec<RGB8> = Vec::new();
        let mut i: usize = 0;
        while i < NUM_PIXELS
            invariant
                i <= NUM_PIXELS,
                colours.len() == i,
                forall|j: int|
                    0 <= j < i ==> colours@[j] == (RGB8 { padding: 0, b: 0, r: 0, g: 0 }),
            decreases NUM_PIXELS - i,
        {
            colours.push(RGB8 { padding: 0, b: 0, r: 0, g: 0 });
            i = i + 1;
        }
        let w = Ws2812 { colours };
        proof {
            assert forall|row: int, col: int|
                0 <= row < ROWS && 0 <= col < COLS implies w.at(row, col) == (RGB8 {
                padding: 0,
                b: 0,
                r: 0,
                g: 0,
            }) by {
                assert(0 <= physical_index(row, col) < NUM_PIXELS);
            }
        }
        w
    }

    /// Reads the color at a logical coordinate, applying the serpentine
    /// transform. Out-of-range coordinates are a programming error and are
    /// excluded by contract.
    pub fn get(&self, row: usize, col: usize) -> (c: RGB8)
        requires
            self.wf(),
            row < ROWS,
            col < COLS,
        ensures
            c == self.at(row as int, col as int),
    {
        let pc: usize = if row % 2 == 0 {
            COLS - 1 - col
        } else {
            col
        };
        self.colours[row * COLS + pc]
    }

    /// Writes the color at a logical coordinate, applying the serpentine
    /// transform; every other pixel is left unchanged. Together with `get`'s
    /// contract this is the round-trip law: reading the coordinate just
    /// written returns exactly the written color.
    pub fn set(&mut self, row: usize, col: usize, c: RGB8)
        requires
            old(self).wf(),
            row < ROWS,
            col < COLS,
        ensures
            final(self).wf(),
            final(self).at(row as int, col as int) == c,
            forall|r2: int, c2: int|
                0 <= r2 < ROWS && 0 <= c2 < COLS && !(r2 == row && c2 == col)
                    ==> final(self).at(r2, c2) == old(self).at(r2, c2),
    {
        let pc: usize = if row % 2 == 0 {
            COLS - 1 - col
        } else {
            col
        };
        self.colours.set(row * COLS + pc, c);
        proof {
            assert forall|r2: int, c2: int|
                0 <= r2 < ROWS && 0 <= c2 < COLS && !(r2 == row && c2 == col)
                    implies self.at(r2, c2) == old(self).at(r2, c2) by {
                assert(physical_index(r2, c2) != physical_index(row as int, col as int));
            }
        }
    }

    /// Serializes the buffer into the transfer-ready word stream, in physical
    /// wiring order: word `physical_index(row, col)` carries the color at
    /// logical `(row, col)`. This is the explicit layout contract that stands
    /// in for reinterpreting the pixel array as raw words.
    pub fn frame_words(&self) -> (words: Vec<u32>)
        requires
            self.wf(),
        ensures
            words@.len() == NUM_PIXELS,
            forall|row: int, col: int|
                0 <= row < ROWS && 0 <= col < COLS ==> words@[physical_index(row, col)] == word_of(
                    self.at(row, col),
                ),
    {
        let mut words: Vec<u32> = Vec::new();
        let mut i: usize = 0;
        while i < NUM_PIXELS
            invariant
                self.wf(),
                i <= NUM_PIXELS,
                words.len() == i,
                forall|j: int| 0 <= j < i ==> words@[j] == word_of(self.colours@[j]),
            decreases NUM_PIXELS - i,
        {
            let c = self.colours[i];
            let w: u32 = (c.g as u32) * 0x1000000 + (c.r as u32) * 0x10000 + (c.b as u32) * 0x100
                + (c.padding as u32);
            words.push(w);
            i = i + 1;
        }
        proof {
            assert forall|row: int, col: int|
                0 <= row < ROWS && 0 <= col < COLS implies words@[physical_index(row, col)]
                == word_of(self.at(row, col)) by {
                assert(0 <= physical_index(row, col) < NUM_PIXELS);
            }
        }
        words
    }
}

/// Serpentine addressing law: on even rows the physical column is the
/// mirrored `COLS - 1 - col`, on odd rows it is `col` itself.
pub proof fn lemma_physical_col(row: int, col: int)
    requires
        0 <= row < ROWS,
        0 <= col < COLS,
    ensures
        row % 2 == 0 ==> physical_col(row, col) == COLS - 1 - col,
        row % 2 == 1 ==> physical_col(row, col) == col,
        0 <= physical_col(row, col) < COLS,
{
}

/// One encoded PIO instruction word, for a program assembled with one
/// mandatory side-set bit: the 3-bit opcode stands in bits 15:13, the
/// side-set bit in bit 12, a 4-bit delay in bits 11:8, and the two
/// op-specific operand fields in bits 7:5 and 4:0.
pub open spec fn instr_word(opcode: int, side: int, delay: int, field_a: int, field_b: int) -> int {
    opcode * 0x2000 + side * 0x1000 + delay * 0x100 + field_a * 0x20 + field_b
}

fn encode_instr(opcode: u16, side: u16, delay: u16, field_a: u16, field_b: u16) -> (w: u16)
    requires
        opcode < 8,
        side < 2,
        delay < 16,
        field_a < 8,
        field_b < 32,
    ensures
        w == instr_word(opcode as int, side as int, delay as int, field_a as int, field_b as int),
{
    opcode * 0x2000 + side * 0x1000 + delay * 0x100 + field_a * 0x20 + field_b
}

/// An assembled timing program: the instruction words and the two wrap
/// points between which the hardware loops for every data bit.
pub struct TimingProgram {
    pub code: Vec<u16>,
    pub wrap_source: u8,
    pub wrap_target: u8,
}

/// Assembles the protocol bit-timing program. Per bit, the line is driven
/// high for T1 cycles (start), held high another T2 cycles for a 1 bit or
/// released low for a 0 bit (data), then released low for T3 cycles (stop):
/// the NRZ encoding of the one-wire LED protocol. The instruction stream is
/// pinned word for word, so a wrong encoding is a verification error.
pub fn timing_program() -> (p: TimingProgram)
    ensures
        p.code@.len() == 5,
        // set PINDIRS, 1, side 0: one-time pin-direction setup before the loop
        p.code@[0] == instr_word(7, 0, 0, 4, 1),
        // out X, 1, side 0 [T3-1]: stop phase, line low while the next data bit shifts into X
        p.code@[1] == instr_word(3, 0, T3 - 1, 1, 1),
        // jmp !X -> 4, side 1 [T1-1]: start phase, line high for T1 cycles on every bit
        p.code@[2] == instr_word(0, 1, T1 - 1, 1, 4),
        // jmp always -> 1, side 1 [T2-1]: data phase of a 1 bit, line high T2 more cycles
        p.code@[3] == instr_word(0, 1, T2 - 1, 0, 1),
        // mov Y, Y (nop), side 0 [T2-1]: data phase of a 0 bit, line low for T2 cycles
        p.code@[4] == instr_word(5, 0, T2 - 1, 2, 2),
        // the per-bit loop runs from the out instruction through the data phase
        p.wrap_target == 1,
        p.wrap_source == 4,
{
    let mut code: Vec<u16> = Vec::new();
    code.push(encode_instr(7, 0, 0, 4, 1));
    code.push(encode_instr(3, 0, (T3 - 1) as u16, 1, 1));
    code.push(encode_instr(0, 1, (T1 - 1) as u16, 1, 4));
    code.push(encode_instr(0, 1, (T2 - 1) as u16, 0, 1));
    code.push(encode_instr(5, 0, (T2 - 1) as u16, 2, 2));
    TimingProgram { code, wrap_source: 4, wrap_target: 1 }
}

/// Computes the PIO clock divider, in the hardware's 24.8 fixed-point units
/// (the raw value is the divider scaled by 256), so that the timing program
/// runs at `PROTOCOL_FREQ_KHZ * CYCLES_PER_BIT` kHz. The computation is done
/// in kHz to avoid overflow, exactly as the divider register expects.
pub fn clock_divider(sys_freq_hz: u32) -> (d: u32)
    ensures
        d == (sys_freq_hz as int / 1000) * 256 / ((PROTOCOL_FREQ_KHZ * CYCLES_PER_BIT) as int),
        sys_freq_hz >= 1_000_000 ==> d >= 32,
{
    let khz: u32 = sys_freq_hz / 1000;
    (khz * 256) / (PROTOCOL_FREQ_KHZ * CYCLES_PER_BIT)
}

} // verus!
