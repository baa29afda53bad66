//! The color model, the serpentine buffer, the frame serialization, the
//! timing program (held against an independent assembler) and the clock
//! divider (held against the hardware's fixed-point arithmetic).

use fixed::types::U24F8;
use ledmatrix::rgb8::RGB8;
use ledmatrix::ws2812::{clock_divider, timing_program, Ws2812, COLS, NUM_PIXELS, ROWS};

#[test]
fn rgb8_new_sets_channels_and_zero_padding() {
    let c = RGB8::new(1, 2, 3);
    assert_eq!(c.r, 1);
    assert_eq!(c.g, 2);
    assert_eq!(c.b, 3);
    assert_eq!(c.padding, 0);
}

#[test]
fn rgb8_half_divides_each_channel_by_ten() {
    let c = RGB8::new(255, 100, 9).half();
    assert_eq!(c.r, 25);
    assert_eq!(c.g, 10);
    assert_eq!(c.b, 0);
    assert_eq!(c.padding, 0);
}

#[test]
fn rgb8_from_tuple_matches_new() {
    assert_eq!(RGB8::from((1, 2, 3)), RGB8::new(1, 2, 3));
    let c: RGB8 = (9, 8, 7).into();
    assert_eq!(c, RGB8::new(9, 8, 7));
}

#[test]
fn rgb8_default_is_black() {
    let c = RGB8::default();
    assert_eq!((c.r, c.g, c.b, c.padding), (0, 0, 0, 0));
}

#[test]
fn new_buffer_is_black() {
    let w = Ws2812::new();
    for row in 0..ROWS {
        for col in 0..COLS {
            assert_eq!(w.get(row, col), RGB8::new(0, 0, 0));
        }
    }
}

#[test]
fn set_then_get_round_trips_every_coordinate() {
    let mut w = Ws2812::new();
    for row in 0..ROWS {
        for col in 0..COLS {
            let c = RGB8::new(row as u8, col as u8, 7);
            w.set(row, col, c);
            assert_eq!(w.get(row, col), c);
        }
    }
}

#[test]
fn set_leaves_other_cells_alone() {
    let mut w = Ws2812::new();
    w.set(2, 3, RGB8::new(9, 9, 9));
    w.set(2, 4, RGB8::new(1, 1, 1));
    assert_eq!(w.get(2, 3), RGB8::new(9, 9, 9));
    assert_eq!(w.get(0, 0), RGB8::new(0, 0, 0));
    assert_eq!(w.get(3, 3), RGB8::new(0, 0, 0));
}

#[test]
fn serpentine_addressing_mirrors_even_rows() {
    // A write to logical (0, 0) lands on physical chain position COLS-1,
    // because row 0 is wired right-to-left; a write on the odd row 1 keeps
    // its column.
    let mut w = Ws2812::new();
    w.set(0, 0, RGB8::new(10, 20, 30));
    w.set(1, 2, RGB8::new(40, 50, 60));
    let words = w.frame_words();
    assert_eq!(words.len(), NUM_PIXELS);
    let word_of = |c: RGB8| -> u32 {
        ((c.g as u32) << 24) | ((c.r as u32) << 16) | ((c.b as u32) << 8) | (c.padding as u32)
    };
    assert_eq!(words[COLS - 1], word_of(RGB8::new(10, 20, 30)));
    assert_eq!(words[COLS + 2], word_of(RGB8::new(40, 50, 60)));
    // Everything else is black.
    for (i, wd) in words.iter().enumerate() {
        if i != COLS - 1 && i != COLS + 2 {
            assert_eq!(*wd, 0);
        }
    }
}

#[test]
fn frame_words_put_green_in_the_top_byte() {
    let mut w = Ws2812::new();
    w.set(1, 0, RGB8::new(0x11, 0x22, 0x33));
    let words = w.frame_words();
    // Odd row: physical position is row * COLS + col.
    assert_eq!(words[COLS], 0x2211_3300);
}

#[test]
fn timing_program_matches_an_independent_assembler() {
    // The same five-instruction program the driver pins down, assembled by
    // the pio crate's assembler, instruction by instruction.
    let side_set = pio::SideSet::new(false, 1, false);
    let mut a = pio::Assembler::<32>::new_with_side_set(side_set);
    let mut wrap_target = a.label();
    let mut wrap_source = a.label();
    let mut do_zero = a.label();
    a.set_with_side_set(pio::SetDestination::PINDIRS, 1, 0);
    a.bind(&mut wrap_target);
    a.out_with_delay_and_side_set(pio::OutDestination::X, 1, 3 - 1, 0);
    a.jmp_with_delay_and_side_set(pio::JmpCondition::XIsZero, &mut do_zero, 2 - 1, 1);
    a.jmp_with_delay_and_side_set(pio::JmpCondition::Always, &mut wrap_target, 5 - 1, 1);
    a.bind(&mut do_zero);
    a.nop_with_delay_and_side_set(5 - 1, 0);
    a.bind(&mut wrap_source);
    let prg = a.assemble_with_wrap(wrap_source, wrap_target);

    let p = timing_program();
    assert_eq!(p.code.len(), prg.code.len());
    for k in 0..p.code.len() {
        assert_eq!(p.code[k], prg.code[k]);
    }
    assert_eq!(p.wrap_source, prg.wrap.source);
    assert_eq!(p.wrap_target, prg.wrap.target);
}

#[test]
fn timing_program_words_are_the_documented_encoding() {
    let p = timing_program();
    assert_eq!(p.code, vec![0xE081, 0x6221, 0x1124, 0x1401, 0xA442]);
    assert_eq!(p.wrap_target, 1);
    assert_eq!(p.wrap_source, 4);
}

#[test]
fn clock_divider_matches_the_fixed_point_arithmetic() {
    for sys in [125_000_000u32, 133_000_000, 48_000_000, 12_000_000, 1_000_000] {
        let clock_freq = U24F8::from_num(sys / 1000);
        let bit_freq = U24F8::from_num(800u32) * 10u32;
        let expected = clock_freq / bit_freq;
        assert_eq!(clock_divider(sys), expected.to_bits());
    }
}

#[test]
fn clock_divider_exact_value_for_the_stock_clock() {
    // 125 MHz system clock: 125000 kHz / 8000 kHz = 15.625, i.e. 4000 in
    // 24.8 fixed-point units.
    assert_eq!(clock_divider(125_000_000), 4000);
}

#[test]
fn clock_divider_rounds_down_at_the_bottom_of_the_range() {
    // Below 32 MHz/1000 kHz the quotient's fixed-point value drops to 0:
    // such clocks cannot drive the protocol.
    assert_eq!(clock_divider(31_999), 0);
    assert_eq!(clock_divider(32_000), 1);
}

#[test]
fn clock_divider_is_positive_for_realistic_clocks() {
    for sys in [1_000_000u32, 8_000_000, 48_000_000, 125_000_000, u32::MAX] {
        assert!(clock_divider(sys) > 0);
    }
}
