//! The animation effects: the hue wheel, the pixel walker, the channel
//! sweep, the cellular automaton, the particle spawner and the metaballs.

use ledmatrix::cake::{step_particle, Cake, Particle};
use ledmatrix::game_of_life::GameOfLife;
use ledmatrix::metaballs::{isqrt, Ball, Metaballs};
use ledmatrix::rgb8::RGB8;
use ledmatrix::single::Single;
use ledmatrix::wheel::{wheel, Wheel};
use ledmatrix::wrap::Wrap;
use ledmatrix::ws2812::{Ws2812, COLS, ROWS};

#[test]
fn wheel_zero_is_red() {
    assert_eq!(wheel(0), RGB8::new(255, 0, 0));
}

#[test]
fn wheel_one_third_is_green() {
    assert_eq!(wheel(85), RGB8::new(0, 255, 0));
}

#[test]
fn wheel_adjacent_positions_differ_by_at_most_three() {
    for i in 0..=255u8 {
        let a = wheel(i);
        let b = wheel(i.wrapping_add(1));
        assert!((a.r as i32 - b.r as i32).abs() <= 3, "r jump at {}", i);
        assert!((a.g as i32 - b.g as i32).abs() <= 3, "g jump at {}", i);
        assert!((a.b as i32 - b.b as i32).abs() <= 3, "b jump at {}", i);
    }
}

#[test]
fn wheel_effect_paints_the_ramp_and_advances_its_phase() {
    let mut w = Ws2812::new();
    let mut e = Wheel(0);
    e.update(&mut w);
    assert_eq!(e.0, 1);
    assert_eq!(w.get(0, 0), wheel(0));
    assert_eq!(w.get(0, 1), wheel(1));
    assert_eq!(w.get(15, 15), wheel(255));
    e.update(&mut w);
    assert_eq!(e.0, 2);
    assert_eq!(w.get(0, 0), wheel(1));
}

#[test]
fn wheel_effect_phase_wraps() {
    let mut w = Ws2812::new();
    let mut e = Wheel(255);
    e.update(&mut w);
    assert_eq!(e.0, 0);
}

#[test]
fn single_effect_walks_one_pixel() {
    let mut w = Ws2812::new();
    let mut e = Single(0);
    e.update(&mut w);
    assert_eq!(e.0, 1);
    assert_eq!(w.get(0, 0), RGB8::new(0, 0, 0));
    assert_eq!(w.get(0, 1), RGB8::new(30, 30, 30));
    e.update(&mut w);
    assert_eq!(e.0, 2);
    assert_eq!(w.get(0, 1), RGB8::new(0, 0, 0));
    assert_eq!(w.get(0, 2), RGB8::new(30, 30, 30));
}

#[test]
fn single_effect_wraps_after_a_full_sweep() {
    let mut w = Ws2812::new();
    let mut e = Single(255);
    e.update(&mut w);
    assert_eq!(e.0, 0);
    assert_eq!(w.get(15, 15), RGB8::new(0, 0, 0));
    assert_eq!(w.get(0, 0), RGB8::new(30, 30, 30));
}

#[test]
fn wrap_effect_cycles_through_the_channels() {
    let offsets = vec![100u8; 256];
    let mut w = Ws2812::new();

    let mut e = Wrap(0);
    e.update(&mut w, &offsets);
    assert_eq!(e.0, 1);
    assert_eq!(w.get(7, 7), RGB8::new(10, 0, 0));

    let mut e = Wrap(256);
    e.update(&mut w, &offsets);
    assert_eq!(e.0, 257);
    assert_eq!(w.get(7, 7), RGB8::new(0, 10, 0));

    let mut e = Wrap(600);
    e.update(&mut w, &offsets);
    assert_eq!(e.0, 601);
    assert_eq!(w.get(7, 7), RGB8::new(0, 0, 10));

    let mut e = Wrap(767);
    e.update(&mut w, &offsets);
    assert_eq!(e.0, 0);
}

#[test]
fn life_lone_cell_dies() {
    let mut cells = vec![false; 256];
    cells[5 * COLS + 5] = true;
    let mut g = GameOfLife(cells);
    let mut w = Ws2812::new();
    g.update(&mut w);
    assert!(g.0.iter().all(|c| !c));
}

#[test]
fn life_blinker_follows_the_two_or_three_neighbor_rule() {
    let mut cells = vec![false; 256];
    for col in 4..=6 {
        cells[5 * COLS + col] = true;
    }
    let mut g = GameOfLife(cells);
    let mut w = Ws2812::new();
    g.update(&mut w);
    let alive = |r: usize, c: usize| g.0[r * COLS + c];
    // Cells with exactly 2 or 3 live neighbors are alive next, all others
    // dead: the row's ends see only one neighbor and die, while the cells
    // above and below the row see two or three and come alive.
    assert!(alive(5, 5));
    assert!(!alive(5, 4));
    assert!(!alive(5, 6));
    for r in [4usize, 6] {
        assert!(alive(r, 4));
        assert!(alive(r, 5));
        assert!(alive(r, 6));
    }
    assert!(!alive(0, 0));
    // Rendered colors reflect alive against dead.
    assert_eq!(w.get(5, 5), RGB8::new(0, 30, 0));
    assert_eq!(w.get(5, 4), RGB8::new(0, 0, 0));
}

#[test]
fn life_wraps_at_the_edges() {
    // Three cells along the top row: the cell directly below the middle on
    // the bottom row sees all three through the vertical wrap.
    let mut cells = vec![false; 256];
    for col in 0..=2 {
        cells[col] = true;
    }
    let mut g = GameOfLife(cells);
    let mut w = Ws2812::new();
    g.update(&mut w);
    assert!(g.0[15 * COLS + 1]);
}

fn tiny_bmp() -> Vec<u8> {
    // A 2x2, 24-bit, top-down BMP: top row red then green, bottom row blue
    // then white.
    let mut b: Vec<u8> = Vec::new();
    b.extend_from_slice(b"BM");
    b.extend_from_slice(&70u32.to_le_bytes()); // file size
    b.extend_from_slice(&[0, 0, 0, 0]); // reserved
    b.extend_from_slice(&54u32.to_le_bytes()); // pixel data offset
    b.extend_from_slice(&40u32.to_le_bytes()); // info header size
    b.extend_from_slice(&2i32.to_le_bytes()); // width
    b.extend_from_slice(&(-2i32).to_le_bytes()); // height, negative: top-down
    b.extend_from_slice(&1u16.to_le_bytes()); // planes
    b.extend_from_slice(&24u16.to_le_bytes()); // bits per pixel
    b.extend_from_slice(&0u32.to_le_bytes()); // no compression
    b.extend_from_slice(&16u32.to_le_bytes()); // image size
    b.extend_from_slice(&[0; 16]); // resolution and palette fields
    // Stored top row first, BGR, each row padded to 4 bytes.
    b.extend_from_slice(&[0, 0, 255, 0, 255, 0, 0, 0]); // red, green
    b.extend_from_slice(&[255, 0, 0, 255, 255, 255, 0, 0]); // blue, white
    assert_eq!(b.len(), 70);
    b
}

#[test]
fn cake_rejects_bytes_that_are_no_image() {
    assert!(Cake::new(&vec![1, 2, 3]).is_none());
    assert!(Cake::new(&Vec::new()).is_none());
}

#[test]
fn cake_background_is_the_dimmed_image() {
    let mut cake = Cake::new(&tiny_bmp()).expect("valid image");
    let mut w = Ws2812::new();
    cake.update(&mut w);
    assert_eq!(w.get(0, 0), RGB8::new(25, 0, 0));
    assert_eq!(w.get(0, 1), RGB8::new(0, 25, 0));
    assert_eq!(w.get(1, 0), RGB8::new(0, 0, 25));
    assert_eq!(w.get(1, 1), RGB8::new(25, 25, 25));
    // A cell neither in the image nor reachable by particles stays dark.
    assert_eq!(w.get(15, 15), RGB8::new(0, 0, 0));
}

#[test]
fn cake_particles_respect_cap_lifetime_and_bounds() {
    let mut cake = Cake::new(&tiny_bmp()).expect("valid image");
    let mut w = Ws2812::new();
    for _ in 0..60 {
        cake.update(&mut w);
        let n = cake.particle_count();
        assert!(n <= 10);
        for i in 0..n {
            let p = cake.particle(i);
            assert!(p.age >= 1 && p.age <= 5);
            assert!(p.row <= 3);
            assert!(p.col >= 1 && p.col <= 11);
        }
    }
}

#[test]
fn particle_step_ages_rises_and_drifts() {
    let p = Particle { age: 0, row: 3, col: 6 };
    assert_eq!(step_particle(p, 1), Particle { age: 1, row: 2, col: 6 });
    assert_eq!(step_particle(p, 0), Particle { age: 1, row: 2, col: 5 });
    assert_eq!(step_particle(p, 2), Particle { age: 1, row: 2, col: 7 });
}

#[test]
fn particle_step_saturates_at_the_matrix_edge() {
    let p = Particle { age: 2, row: 0, col: 0 };
    let q = step_particle(p, 0);
    assert_eq!(q.row, 0);
    assert_eq!(q.col, 0);
    let r = step_particle(Particle { age: 2, row: 0, col: 255 }, 2);
    assert_eq!(r.col, 255);
}

#[test]
fn particle_lives_exactly_six_ticks() {
    let mut p = Particle { age: 0, row: 3, col: 6 };
    for tick in 1..=6 {
        p = step_particle(p, 1);
        assert_eq!(p.age, tick);
        if tick <= 5 {
            assert!(p.age <= 5, "still alive after tick {}", tick);
        }
    }
    assert!(p.age > 5, "dropped on the sixth tick");
}

#[test]
fn isqrt_rounds_down() {
    assert_eq!(isqrt(0), 0);
    assert_eq!(isqrt(1), 1);
    assert_eq!(isqrt(3), 1);
    assert_eq!(isqrt(4), 2);
    assert_eq!(isqrt(35), 5);
    assert_eq!(isqrt(36), 6);
    assert_eq!(isqrt(16_777_216), 4096);
    assert_eq!(isqrt(0xFFFF_FFFF), 65535);
}

#[test]
fn balls_stay_on_the_field() {
    let mut b = Ball::new();
    for _ in 0..200 {
        b.update();
        assert!(b.x >= 0 && b.x <= 4096);
        assert!(b.y >= 0 && b.y <= 4096);
        assert!(b.vx >= -64 && b.vx <= 64);
        assert!(b.vy >= -64 && b.vy <= 64);
    }
}

#[test]
fn metaballs_render_the_thresholded_inverse_distance_field() {
    let mut m = Metaballs::new();
    assert_eq!(m.ball_count(), 3);
    let mut w = Ws2812::new();
    m.update(&mut w);
    // Recompute the field from the stepped sources and hold every cell to
    // the banded color.
    for row in 0..ROWS {
        for col in 0..COLS {
            let mut tot: u64 = 0;
            for i in 0..m.ball_count() {
                let b = m.ball(i);
                let dx = (row as i64) * 256 - b.x as i64;
                let dy = (col as i64) * 256 - b.y as i64;
                let d2 = (dx * dx + dy * dy) as u64;
                if d2 > 0 {
                    tot += 65536 / isqrt(d2);
                }
            }
            let expected = if tot > 768 {
                RGB8::new(0, 30, 10)
            } else if tot > 512 {
                RGB8::new(0, 30, ((tot - 256) * 10 / 256) as u8)
            } else if tot > 256 {
                RGB8::new(0, (tot * 2 / 256) as u8, 0)
            } else {
                RGB8::new(0, 0, 0)
            };
            assert_eq!(w.get(row, col), expected);
        }
    }
}
