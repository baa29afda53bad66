//! The metaball effect: a few point sources move around the plane of the
//! matrix, reflecting off its bounds, their velocity nudged at random and
//! clamped each frame; every cell's brightness is the sum of the inverse
//! distances to the sources, thresholded into three bands. Positions and
//! velocities are kept in fixed-point units of 1/256 cell, so the whole
//! field computation is exact integer arithmetic.

use vstd::prelude::*;
use crate::rgb8::RGB8;
use crate::rng::random_below;
use crate::ws2812::{Ws2812, COLS, NUM_PIXELS, ROWS};

verus! {

/// Number of moving sources.
pub const BALLS: usize = 3;

/// The playing field is [0, 16] cells, i.e. [0, 4096] fixed-point units.
pub const POS_MAX: i32 = 4096;

/// Largest velocity magnitude per axis, in units per frame.
pub const V_MAX: i32 = 64;

/// Largest random velocity nudge per axis and frame.
pub const JITTER: i32 = 8;

/// One intensity unit: a cell exactly one cell away from a single source
/// scores 256, and the brightness bands begin at multiples of it.
pub const INTENSITY_ONE: u64 = 256;

/// A moving point source.
#[derive(Debug, Copy, Clone, PartialEq, Eq, Structural)]
pub struct Ball {
    pub x: i32,
    pub y: i32,
    pub vx: i32,
    pub vy: i32,
}

/// A source stays on the field and its velocity stays clamped.
pub open spec fn ball_wf(b: Ball) -> bool {
    &&& 0 <= b.x <= POS_MAX
    &&& 0 <= b.y <= POS_MAX
    &&& -V_MAX <= b.vx <= V_MAX
    &&& -V_MAX <= b.vy <= V_MAX
}

/// Clamps a velocity component to the allowed magnitude.
pub open spec fn clamp_v(v: int) -> int {
    if v > V_MAX {
        V_MAX as int
    } else if v < -V_MAX {
        -V_MAX as int
    } else {
        v
    }
}

/// One frame of a source's motion: it moves by its velocity, the velocity is
/// nudged by the jitter and clamped, and where the position left the field
/// it is put back on the edge with the velocity component reflected.
pub open spec fn spec_ball_step(b: Ball, jx: int, jy: int) -> Ball {
    let x1 = b.x + b.vx;
    let y1 = b.y + b.vy;
    let vx1 = clamp_v(b.vx + jx);
    let vy1 = clamp_v(b.vy + jy);
    Ball {
        x: if x1 > POS_MAX {
            POS_MAX
        } else if x1 < 0 {
            0
        } else {
            x1 as i32
        },
        y: if y1 > POS_MAX {
            POS_MAX
        } else if y1 < 0 {
            0
        } else {
            y1 as i32
        },
        vx: if x1 > POS_MAX || x1 < 0 {
            (-vx1) as i32
        } else {
            vx1 as i32
        },
        vy: if y1 > POS_MAX || y1 < 0 {
            (-vy1) as i32
        } else {
            vy1 as i32
        },
    }
}

impl Ball {
    /// A source at a random position with a small random velocity.
    pub fn new() -> (b: Ball)
        ensures
            ball_wf(b),
    {
        let x: i32 = random_below((POS_MAX as u32) + 1) as i32;
        let y: i32 = random_below((POS_MAX as u32) + 1) as i32;
        let vx: i32 = random_below((2 * V_MAX as u32) + 1) as i32 - V_MAX;
        let vy: i32 = random_below((2 * V_MAX as u32) + 1) as i32 - V_MAX;
        Ball { x, y, vx, vy }
    }

    /// Executes one frame of motion with a fresh random nudge per axis.
    pub fn update(&mut self)
        requires
            ball_wf(*old(self)),
        ensures
            ball_wf(*final(self)),
            stepped_from(*final(self), *old(self)),
    {
        let jx: i32 = random_below((2 * JITTER as u32) + 1) as i32 - JITTER;
        let jy: i32 = random_below((2 * JITTER as u32) + 1) as i32 - JITTER;
        let b = *self;
        let x1: i32 = b.x + b.vx;
        let y1: i32 = b.y + b.vy;
        let mut vx1: i32 = b.vx + jx;
        if vx1 > V_MAX {
            vx1 = V_MAX;
        }
        if vx1 < -V_MAX {
            vx1 = -V_MAX;
        }
        let mut vy1: i32 = b.vy + jy;
        if vy1 > V_MAX {
            vy1 = V_MAX;
        }
        if vy1 < -V_MAX {
            vy1 = -V_MAX;
        }
        let x: i32 = if x1 > POS_MAX {
            POS_MAX
        } else if x1 < 0 {
            0
        } else {
            x1
        };
        let y: i32 = if y1 > POS_MAX {
            POS_MAX
        } else if y1 < 0 {
            0
        } else {
            y1
        };
        let vx: i32 = if x1 > POS_MAX || x1 < 0 {
            -vx1
        } else {
            vx1
        };
        let vy: i32 = if y1 > POS_MAX || y1 < 0 {
            -vy1
        } else {
            vy1
        };
        *self = Ball { x, y, vx, vy };
        proof {
            assert(*self == spec_ball_step(b, jx as int, jy as int));
        }
    }
}

/// The integer square root, rounded down.
pub open spec fn sqrt_floor(n: int) -> int {
    choose|r: int| 0 <= r && #[trigger] (r * r) <= n && n < (r + 1) * (r + 1)
}

/// `sqrt_floor` is pinned by any witness: a nonnegative `r` whose square
/// does not exceed `n` while the next square does is the rounded-down root.
pub proof fn lemma_sqrt_floor(n: int, r: int)
    requires
        0 <= r,
        r * r <= n,
        n < (r + 1) * (r + 1),
    ensures
        sqrt_floor(n) == r,
{
    assert(0 <= r && r * r <= n && n < (r + 1) * (r + 1));
    let s = sqrt_floor(n);
    assert(0 <= s && s * s <= n && n < (s + 1) * (s + 1)) by {
        assert(exists|q: int| 0 <= q && #[trigger] (q * q) <= n && n < (q + 1) * (q + 1));
    }
    assert(s == r) by (nonlinear_arith)
        requires
            0 <= r,
            r * r <= n,
            n < (r + 1) * (r + 1),
            0 <= s,
            s * s <= n,
            n < (s + 1) * (s + 1),
    ;
}

/// Computes the integer square root of `n`.
pub fn isqrt(n: u64) -> (r: u64)
    requires
        n <= 0xFFFF_FFFF,
    ensures
        r * r <= n < (r + 1) * (r + 1),
        r == sqrt_floor(n as int),
{
    let mut r: u64 = 0;
    loop
        invariant
            n <= 0xFFFF_FFFF,
            r <= 0xFFFF,
            r * r <= n,
        ensures
            r * r <= n < (r + 1) * (r + 1),
        decreases n - r * r,
    {
        proof {
            assert((r + 1) * (r + 1) <= 0x1_0000_0000) by (nonlinear_arith)
                requires
                    r <= 0xFFFFu64,
            ;
        }
        let next: u64 = (r + 1) * (r + 1);
        if next > n {
            break;
        }
        r = r + 1;
        proof {
            assert(r <= 0xFFFF) by (nonlinear_arith)
                requires
                    r * r <= 0xFFFF_FFFFu64,
                    r >= 1,
            ;
            assert((r - 1) * (r - 1) < r * r) by (nonlinear_arith)
                requires
                    r >= 1,
            ;
        }
    }
    proof {
        lemma_sqrt_floor(n as int, r as int);
    }
    r
}

/// A single source's contribution to a cell: 65536 divided by the
/// fixed-point distance, i.e. 256 times the inverse distance in cells; zero
/// at the source itself.
pub open spec fn contribution(bx: int, by: int, row: int, col: int) -> int {
    let dx = row * 256 - bx;
    let dy = col * 256 - by;
    let d2 = dx * dx + dy * dy;
    if d2 == 0 {
        0
    } else {
        65536int / sqrt_floor(d2)
    }
}

/// The field intensity at a cell: the sum of every source's contribution.
pub open spec fn total_intensity(balls: Seq<Ball>, row: int, col: int) -> int
    decreases balls.len(),
{
    if balls.len() == 0 {
        0
    } else {
        total_intensity(balls.drop_last(), row, col) + contribution(
            balls.last().x as int,
            balls.last().y as int,
            row,
            col,
        )
    }
}

/// The brightness bands: dark below one intensity unit, dim green up to
/// two, green with a blue ramp up to three, and a fixed teal above that.
pub open spec fn field_color(total: int) -> RGB8 {
    if total > 3 * INTENSITY_ONE {
        RGB8 { padding: 0, b: 10, r: 0, g: 30 }
    } else if total > 2 * INTENSITY_ONE {
        RGB8 { padding: 0, b: (((total - INTENSITY_ONE) * 10) / (INTENSITY_ONE as int)) as u8, r: 0, g: 30 }
    } else if total > INTENSITY_ONE {
        RGB8 { padding: 0, b: 0, r: 0, g: ((total * 2) / (INTENSITY_ONE as int)) as u8 }
    } else {
        RGB8 { padding: 0, b: 0, r: 0, g: 0 }
    }
}

/// Whether one frame of motion, with some in-range random nudge, takes the
/// old source to the new one.
pub open spec fn stepped_from(b_new: Ball, b_old: Ball) -> bool {
    exists|jx: int, jy: int|
        -JITTER <= jx <= JITTER && -JITTER <= jy <= JITTER && b_new == #[trigger] spec_ball_step(
            b_old,
            jx,
            jy,
        )
}

/// The metaball effect: its moving sources.
pub struct Metaballs {
    balls: Vec<Ball>,
}

impl Metaballs {
    /// The sources, in a fixed order.
    pub closed spec fn balls_view(self) -> Seq<Ball> {
        self.balls@
    }

    /// There are exactly `BALLS` sources and each is on the field.
    pub closed spec fn wf(self) -> bool {
        &&& self.balls@.len() == BALLS
        &&& forall|i: int| 0 <= i < self.balls@.len() ==> ball_wf(self.balls@[i])
    }

    /// A fresh effect with randomly placed sources.
    pub fn new() -> (m: Metaballs)
        ensures
            m.wf(),
    {
        let mut balls: Vec<Ball> = Vec::new();
        let mut i: usize = 0;
        while i < BALLS
            invariant
                i <= BALLS,
                balls@.len() == i,
                forall|j: int| 0 <= j < i ==> ball_wf(balls@[j]),
            decreases BALLS - i,
        {
            balls.push(Ball::new());
            i = i + 1;
        }
        Metaballs { balls }
    }

    /// Number of sources.
    pub fn ball_count(&self) -> (n: usize)
        ensures
            n == self.balls_view().len(),
    {
        self.balls.len()
    }

    /// The source at position `i`.
    pub fn ball(&self, i: usize) -> (b: Ball)
        requires
            i < self.balls_view().len(),
        ensures
            b == self.balls_view()[i as int],
    {
        self.balls[i]
    }

    /// Renders one frame: every source takes one step of motion, then every
    /// cell is colored by the band its field intensity falls in, computed
    /// against the stepped sources.
    pub fn update(&mut self, buffer: &mut Ws2812)
        requires
            old(self).wf(),
            old(buffer).wf(),
        ensures
            final(self).wf(),
            final(buffer).wf(),
            final(self).balls_view().len() == BALLS,
            forall|k: int|
                0 <= k < BALLS ==> #[trigger] stepped_from(
                    final(self).balls_view()[k],
                    old(self).balls_view()[k],
                ),
            forall|row: int, col: int|
                0 <= row < ROWS && 0 <= col < COLS ==> final(buffer).at(row, col) == field_color(
                    total_intensity(final(self).balls_view(), row, col),
                ),
    {
        let mut k: usize = 0;
        while k < BALLS
            invariant
                self.balls@.len() == BALLS,
                k <= BALLS,
                forall|t: int| 0 <= t < self.balls@.len() ==> ball_wf(self.balls@[t]),
                forall|t: int| k <= t < BALLS ==> self.balls@[t] == old(self).balls_view()[t],
                forall|t: int|
                    0 <= t < k ==> #[trigger] stepped_from(
                        self.balls@[t],
                        old(self).balls_view()[t],
                    ),
            decreases BALLS - k,
        {
            let mut b: Ball = self.balls[k];
            b.update();
            self.balls.set(k, b);
            k = k + 1;
        }
        let ghost moved = self.balls@;
        let mut i: usize = 0;
        while i < NUM_PIXELS
            invariant
                buffer.wf(),
                self.balls@ == moved,
                moved.len() == BALLS,
                forall|t: int| 0 <= t < moved.len() ==> ball_wf(moved[t]),
                i <= NUM_PIXELS,
                forall|row: int, col: int|
                    0 <= row < ROWS && 0 <= col < COLS && row * COLS + col < i ==> buffer.at(
                        row,
                        col,
                    ) == field_color(total_intensity(moved, row, col)),
            decreases NUM_PIXELS - i,
        {
            let row: usize = i / COLS;
            let col: usize = i % COLS;
            let mut tot: u64 = 0;
            let mut bi: usize = 0;
            while bi < BALLS
                invariant
                    self.balls@ == moved,
                    moved.len() == BALLS,
                    forall|t: int| 0 <= t < moved.len() ==> ball_wf(moved[t]),
                    row < ROWS,
                    col < COLS,
                    bi <= BALLS,
                    tot <= bi * 65536,
                    tot == total_intensity(moved.take(bi as int), row as int, col as int),
                decreases BALLS - bi,
            {
                let b: Ball = self.balls[bi];
                let rowpos: u64 = (row as u64) * 256;
                let colpos: u64 = (col as u64) * 256;
                let bx: u64 = b.x as u64;
                let by: u64 = b.y as u64;
                let dxa: u64 = if rowpos >= bx {
                    rowpos - bx
                } else {
                    bx - rowpos
                };
                let dya: u64 = if colpos >= by {
                    colpos - by
                } else {
                    by - colpos
                };
                proof {
                    assert(dxa * dxa <= 4096 * 4096 && dya * dya <= 4096 * 4096)
                        by (nonlinear_arith)
                        requires
                            dxa <= 4096u64,
                            dya <= 4096u64,
                    ;
                    assert(dxa * dxa == ((row * 256) - b.x) * ((row * 256) - b.x))
                        by (nonlinear_arith)
                        requires
                            dxa == (if row * 256 >= b.x {
                                row * 256 - b.x
                            } else {
                                b.x - row * 256
                            }),
                    ;
                    assert(dya * dya == ((col * 256) - b.y) * ((col * 256) - b.y))
                        by (nonlinear_arith)
                        requires
                            dya == (if col * 256 >= b.y {
                                col * 256 - b.y
                            } else {
                                b.y - col * 256
                            }),
                    ;
                }
                let d2: u64 = dxa * dxa + dya * dya;
                if d2 > 0 {
                    let s: u64 = isqrt(d2);
                    proof {
                        assert(s >= 1) by (nonlinear_arith)
                            requires
                                d2 >= 1u64,
                                s * s <= d2,
                                d2 < (s + 1) * (s + 1),
                        ;
                    }
                    tot = tot + 65536 / s;
                    proof {
                        assert(65536u64 / s <= 65536u64);
                    }
                }
                proof {
                    assert(moved.take(bi + 1).drop_last() =~= moved.take(bi as int));
                    assert(moved.take(bi + 1).last() == moved[bi as int]);
                }
                bi = bi + 1;
            }
            proof {
                assert(moved.take(BALLS as int) =~= moved);
            }
            let c: RGB8 = if tot > 3 * INTENSITY_ONE {
                RGB8::new(0, 30, 10)
            } else if tot > 2 * INTENSITY_ONE {
                RGB8::new(0, 30, (((tot - INTENSITY_ONE) * 10) / INTENSITY_ONE) as u8)
            } else if tot > INTENSITY_ONE {
                RGB8::new(0, ((tot * 2) / INTENSITY_ONE) as u8, 0)
            } else {
                RGB8::new(0, 0, 0)
            };
            buffer.set(row, col, c);
            proof {
                assert(COLS * (i / COLS) + (i % COLS) == i);
            }
            i = i + 1;
        }
    }
}

} // verus!
