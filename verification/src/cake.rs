//! The particle-spawner effect: a static background image is drawn each
//! frame, and a capped set of ember particles rises from a fixed origin,
//! drifting sideways at random, aging each tick and disappearing after a
//! fixed lifetime.

use vstd::prelude::*;
use crate::rgb8::RGB8;
use crate::rng::random_below;
use crate::ws2812::{Ws2812, COLS, NUM_PIXELS, ROWS};
use embedded_graphics_core::pixelcolor::RgbColor;

verus! {

/// Most particles alive at once.
pub const PARTICLE_CAP: usize = 10;

/// Where new particles appear.
pub const SPAWN_ROW: u8 = 3;
pub const SPAWN_COL: u8 = 6;

/// A particle is dropped once its age exceeds this, so it lives for
/// `MAX_AGE + 1` ticks in all.
pub const MAX_AGE: u8 = 5;

/// An ember: its age in ticks since spawning and its position.
#[derive(Debug, Copy, Clone, PartialEq, Eq, Structural)]
pub struct Particle {
    pub age: u8,
    pub row: u8,
    pub col: u8,
}

/// Every particle the effect keeps satisfies this: it is young enough to be
/// alive, it has only ever risen from the spawn row, and it has drifted at
/// most one column per tick of age. In particular it is always on the matrix.
pub open spec fn particle_wf(p: Particle) -> bool {
    &&& p.age <= MAX_AGE
    &&& p.row <= SPAWN_ROW
    &&& SPAWN_COL - p.age <= p.col <= SPAWN_COL + p.age
}

/// The particle a spawn produces: age zero, at the fixed origin.
pub open spec fn spawned_particle() -> Particle {
    Particle { age: 0, row: SPAWN_ROW, col: SPAWN_COL }
}

/// One tick of a particle's life: it ages by one, rises one row, and drifts
/// one column left (drift 0), stays (drift 1) or right (otherwise). Row and
/// column saturate at the ends of their range instead of wrapping.
pub open spec fn spec_step(p: Particle, drift: u8) -> Particle {
    Particle {
        age: if p.age < 255 {
            (p.age + 1) as u8
        } else {
            255
        },
        row: if p.row > 0 {
            (p.row - 1) as u8
        } else {
            0
        },
        col: if drift == 0 {
            if p.col > 0 {
                (p.col - 1) as u8
            } else {
                0
            }
        } else if drift == 1 {
            p.col
        } else {
            if p.col < 255 {
                (p.col + 1) as u8
            } else {
                255
            }
        },
    }
}

/// One tick over a whole particle list: each particle takes its step with
/// its own drift, and only those still young enough are kept, in order.
pub open spec fn advance(ps: Seq<Particle>, drifts: Seq<u8>) -> Seq<Particle>
    decreases ps.len(),
{
    if ps.len() == 0 {
        Seq::empty()
    } else {
        let rest = advance(ps.drop_last(), drifts.drop_last());
        let q = spec_step(ps.last(), drifts.last());
        if q.age <= MAX_AGE {
            rest.push(q)
        } else {
            rest
        }
    }
}

/// The particle list a tick starts from: the old list, plus one fresh
/// particle when a spawn happened.
pub open spec fn spawn_list(ps: Seq<Particle>, spawned: bool) -> Seq<Particle> {
    if spawned {
        ps.push(spawned_particle())
    } else {
        ps
    }
}

/// A particle's color by age band: a bright ember on its first visible tick,
/// then orange, then a dimmer orange until it dies.
pub open spec fn age_color(age: u8) -> RGB8 {
    if age == 0 {
        RGB8 { padding: 0, b: 8, r: 20, g: 18 }
    } else if age == 1 {
        RGB8 { padding: 0, b: 0, r: 100, g: 51 }
    } else {
        RGB8 { padding: 0, b: 0, r: 100, g: 32 }
    }
}

/// The color a cell shows after the particles are drawn over the background,
/// later particles over earlier ones.
pub open spec fn overlay_color(bg: Seq<RGB8>, ps: Seq<Particle>, row: int, col: int) -> RGB8
    decreases ps.len(),
{
    if ps.len() == 0 {
        bg[row * COLS + col]
    } else if ps.last().row == row && ps.last().col == col {
        age_color(ps.last().age)
    } else {
        overlay_color(bg, ps.drop_last(), row, col)
    }
}

/// Executes one life tick of a particle; the drift is the raw random draw.
pub fn step_particle(p: Particle, drift: u8) -> (q: Particle)
    ensures
        q == spec_step(p, drift),
{
    let age: u8 = if p.age < 255 {
        p.age + 1
    } else {
        255
    };
    let row: u8 = if p.row > 0 {
        p.row - 1
    } else {
        0
    };
    let col: u8 = if drift == 0 {
        if p.col > 0 {
            p.col - 1
        } else {
            0
        }
    } else if drift == 1 {
        p.col
    } else {
        if p.col < 255 {
            p.col + 1
        } else {
            255
        }
    };
    Particle { age, row, col }
}

/// A well-formed particle that survives its step is well-formed again: its
/// position can never leave the cone of cells reachable from the spawn
/// origin within its lifetime, and in particular never leaves the matrix.
pub proof fn lemma_step_preserves_wf(p: Particle, drift: u8)
    requires
        particle_wf(p),
        spec_step(p, drift).age <= MAX_AGE,
    ensures
        particle_wf(spec_step(p, drift)),
{
}

/// The age of a particle taken through a sequence of steps.
pub open spec fn iter_step(p: Particle, drifts: Seq<u8>) -> Particle
    decreases drifts.len(),
{
    if drifts.len() == 0 {
        p
    } else {
        spec_step(iter_step(p, drifts.drop_last()), drifts.last())
    }
}

/// Lifecycle law: a freshly spawned particle has age 0; stepping it ages it
/// by exactly one per tick, so it is still alive after `MAX_AGE` ticks and
/// exceeds the age bound on the tick after that, the moment `advance` drops
/// it. With `MAX_AGE` = 5 a particle lives exactly 6 ticks.
pub proof fn lemma_particle_lifetime(drifts: Seq<u8>)
    requires
        drifts.len() <= 255,
    ensures
        spawned_particle().age == 0,
        iter_step(spawned_particle(), drifts).age == drifts.len(),
        drifts.len() <= MAX_AGE ==> iter_step(spawned_particle(), drifts).age <= MAX_AGE,
        drifts.len() == MAX_AGE + 1 ==> iter_step(spawned_particle(), drifts).age > MAX_AGE,
    decreases drifts.len(),
{
    if drifts.len() > 0 {
        lemma_particle_lifetime(drifts.drop_last());
    }
}

#[verifier::external_type_specification]
#[verifier::external_body]
#[verifier::reject_recursive_types(T)]
pub struct ExHeaplessVec<T, const N: usize>(heapless::Vec<T, N>);

/// What a bounded particle vector holds, in insertion order.
pub uninterp spec fn particle_seq(v: heapless::Vec<Particle, 10>) -> Seq<Particle>;

/// Relies on heapless::Vec::new: a freshly constructed bounded vector holds
/// nothing.
#[verifier::external_body]
fn particles_new() -> (v: heapless::Vec<Particle, 10>)
    ensures
        particle_seq(v) == Seq::<Particle>::empty(),
{
    heapless::Vec::new()
}

/// Relies on the slice view of heapless::Vec (its Deref impl): `len` is the
/// number of items held.
#[verifier::external_body]
fn particles_len(v: &heapless::Vec<Particle, 10>) -> (n: usize)
    ensures
        n == particle_seq(*v).len(),
{
    v.as_slice().len()
}

/// Relies on the slice view of heapless::Vec: indexing below the length
/// yields the item at that position.
#[verifier::external_body]
fn particles_get(v: &heapless::Vec<Particle, 10>, i: usize) -> (p: Particle)
    requires
        i < particle_seq(*v).len(),
    ensures
        p == particle_seq(*v)[i as int],
{
    v.as_slice()[i]
}

/// Relies on heapless::Vec::push: below the capacity of 10 the item is
/// appended at the back and nothing else moves.
#[verifier::external_body]
fn particles_push(v: &mut heapless::Vec<Particle, 10>, p: Particle)
    requires
        particle_seq(*old(v)).len() < 10,
    ensures
        particle_seq(*final(v)) == particle_seq(*old(v)).push(p),
{
    let _ = v.push(p);
}

/// What the bitmap decoder produces for a byte stream: the image's pixel
/// samples as `(x, y, red, green, blue)` with coordinates relative to the
/// top-left corner; or nothing when the bytes are not a well-formed image.
pub uninterp spec fn bmp_pixels(data: Seq<u8>) -> Option<Seq<(u32, u32, u8, u8, u8)>>;

/// Relies on tinybmp::Bmp::from_slice and Bmp::pixels: decoding is a
/// function of the bytes alone, parse failures are reported, and the pixel
/// iterator starts at the top-left corner.
#[verifier::external_body]
fn decode_bmp(data: &Vec<u8>) -> (r: Option<Vec<(u32, u32, u8, u8, u8)>>)
    ensures
        r is Some <==> bmp_pixels(data@) is Some,
        r matches Some(v) ==> bmp_pixels(data@) matches Some(s) && v@ == s,
{
    match tinybmp::Bmp::<embedded_graphics_core::pixelcolor::Rgb888>::from_slice(data.as_slice()) {
        Ok(bmp) => Some(
            bmp.pixels().map(|p| (p.0.x as u32, p.0.y as u32, p.1.r(), p.1.g(), p.1.b())).collect(),
        ),
        Err(_) => None,
    }
}

/// An all-dark background grid.
pub open spec fn black_grid() -> Seq<RGB8> {
    Seq::new(NUM_PIXELS as nat, |i: int| RGB8 { padding: 0, b: 0, r: 0, g: 0 })
}

/// The background grid a sample list paints: each sample that lands on the
/// matrix sets its cell to the sample's color dimmed by ten, later samples
/// over earlier ones.
pub open spec fn paint(grid: Seq<RGB8>, samples: Seq<(u32, u32, u8, u8, u8)>) -> Seq<RGB8>
    decreases samples.len(),
{
    if samples.len() == 0 {
        grid
    } else {
        let rest = paint(grid, samples.drop_last());
        let s = samples.last();
        if s.0 < COLS && s.1 < ROWS {
            rest.update(s.1 * COLS + s.0, RGB8 { padding: 0, b: (s.4 / 10) as u8, r: (s.2 / 10) as u8, g: (s.3 / 10) as u8 })
        } else {
            rest
        }
    }
}

/// The particle-spawner effect: a fixed background and the live particles.
pub struct Cake {
    background: Vec<RGB8>,
    particles: heapless::Vec<Particle, 10>,
}

impl Cake {
    /// The background it draws each frame.
    pub closed spec fn background(self) -> Seq<RGB8> {
        self.background@
    }

    /// The particles currently alive, in insertion order.
    pub closed spec fn particles_view(self) -> Seq<Particle> {
        particle_seq(self.particles)
    }

    /// The background covers the matrix, the particle count respects the
    /// cap, and every particle is well-formed.
    pub closed spec fn wf(self) -> bool {
        &&& self.background@.len() == NUM_PIXELS
        &&& particle_seq(self.particles).len() <= PARTICLE_CAP
        &&& forall|i: int|
            0 <= i < particle_seq(self.particles).len() ==> particle_wf(
                particle_seq(self.particles)[i],
            )
    }

    /// Builds the effect from the bytes of its background image. Fails
    /// exactly when the bytes do not decode as an image; on success the
    /// background is the decoded image painted onto a dark grid, dimmed, and
    /// no particle is alive yet.
    pub fn new(data: &Vec<u8>) -> (r: Option<Cake>)
        ensures
            r is Some <==> bmp_pixels(data@) is Some,
            r matches Some(cake) ==> {
                &&& cake.wf()
                &&& bmp_pixels(data@) matches Some(s) && cake.background() == paint(
                    black_grid(),
                    s,
                )
                &&& cake.particles_view() == Seq::<Particle>::empty()
            },
    {
        let samples: Vec<(u32, u32, u8, u8, u8)> = match decode_bmp(data) {
            Some(v) => v,
            None => {
                return None;
            },
        };
        let mut background: Vec<RGB8> = Vec::new();
        let mut i: usize = 0;
        while i < NUM_PIXELS
            invariant
                i <= NUM_PIXELS,
                background@.len() == i,
                forall|j: int| 0 <= j < i ==> background@[j] == black_grid()[j],
            decreases NUM_PIXELS - i,
        {
            background.push(RGB8::new(0, 0, 0));
            i = i + 1;
        }
        proof {
            assert(background@ =~= black_grid());
        }
        let ghost all_samples = samples@;
        let mut k: usize = 0;
        while k < samples.len()
            invariant
                samples@ == all_samples,
                k <= samples@.len(),
                background@.len() == NUM_PIXELS,
                background@ == paint(black_grid(), all_samples.take(k as int)),
            decreases samples@.len() - k,
        {
            let s: (u32, u32, u8, u8, u8) = samples[k];
            if s.0 < COLS as u32 && s.1 < ROWS as u32 {
                let c: RGB8 = RGB8::new(s.2, s.3, s.4).half();
                background.set((s.1 as usize) * COLS + (s.0 as usize), c);
            }
            proof {
                assert(all_samples.take(k + 1).drop_last() =~= all_samples.take(k as int));
                assert(all_samples.take(k + 1).last() == all_samples[k as int]);
            }
            k = k + 1;
        }
        proof {
            assert(all_samples.take(samples@.len() as int) =~= all_samples);
        }
        Some(Cake { background, particles: particles_new() })
    }

    /// Number of particles currently alive.
    pub fn particle_count(&self) -> (n: usize)
        ensures
            n == self.particles_view().len(),
    {
        particles_len(&self.particles)
    }

    /// The live particle at position `i` of the insertion order.
    pub fn particle(&self, i: usize) -> (p: Particle)
        requires
            i < self.particles_view().len(),
        ensures
            p == self.particles_view()[i as int],
    {
        particles_get(&self.particles, i)
    }

    /// Renders one frame: the background is drawn, a new particle may spawn
    /// if there is room, every particle takes one life step with a random
    /// drift and the too-old ones are dropped, and the survivors are drawn
    /// over the background in order. The particle list always stays within
    /// the cap and every survivor is on the matrix.
    pub fn update(&mut self, buffer: &mut Ws2812)
        requires
            old(self).wf(),
            old(buffer).wf(),
        ensures
            final(self).wf(),
            final(buffer).wf(),
            final(self).background() == old(self).background(),
            final(self).particles_view().len() <= old(self).particles_view().len() + 1,
            exists|spawned: bool, drifts: Seq<u8>|
                {
                    &&& (spawned ==> old(self).particles_view().len() < PARTICLE_CAP)
                    &&& final(self).particles_view() == advance(
                        spawn_list(old(self).particles_view(), spawned),
                        drifts,
                    )
                },
            forall|row: int, col: int|
                0 <= row < ROWS && 0 <= col < COLS ==> final(buffer).at(row, col) == overlay_color(
                    old(self).background(),
                    final(self).particles_view(),
                    row,
                    col,
                ),
    {
        let mut i: usize = 0;
        while i < NUM_PIXELS
            invariant
                self == old(self),
                old(self).wf(),
                buffer.wf(),
                i <= NUM_PIXELS,
                forall|row: int, col: int|
                    0 <= row < ROWS && 0 <= col < COLS && row * COLS + col < i ==> buffer.at(
                        row,
                        col,
                    ) == old(self).background()[row * COLS + col],
            decreases NUM_PIXELS - i,
        {
            let c: RGB8 = self.background[i];
            buffer.set(i / COLS, i % COLS, c);
            proof {
                assert(COLS * (i / COLS) + (i % COLS) == i);
            }
            i = i + 1;
        }
        let ghost mut spawned: bool = false;
        let n0: usize = particles_len(&self.particles);
        if n0 < PARTICLE_CAP {
            if random_below(10) < 4 {
                particles_push(&mut self.particles, Particle { age: 0, row: SPAWN_ROW, col: SPAWN_COL });
                proof {
                    spawned = true;
                }
            }
        }
        let ghost start = particle_seq(self.particles);
        proof {
            assert(start == spawn_list(old(self).particles_view(), spawned));
        }
        let n: usize = particles_len(&self.particles);
        let mut kept: heapless::Vec<Particle, 10> = particles_new();
        let ghost mut drifts: Seq<u8> = Seq::empty();
        let mut j: usize = 0;
        while j < n
            invariant
                n == start.len(),
                n <= 10,
                particle_seq(self.particles) == start,
                forall|t: int| 0 <= t < start.len() ==> particle_wf(start[t]),
                j <= n,
                drifts.len() == j,
                particle_seq(kept) == advance(start.take(j as int), drifts),
                particle_seq(kept).len() <= j,
                forall|t: int|
                    0 <= t < particle_seq(kept).len() ==> particle_wf(particle_seq(kept)[t]),
            decreases n - j,
        {
            let p: Particle = particles_get(&self.particles, j);
            let d: u8 = random_below(3) as u8;
            let q: Particle = step_particle(p, d);
            proof {
                let prev = drifts;
                drifts = drifts.push(d);
                assert(drifts.drop_last() =~= prev);
                assert(drifts.last() == d);
                assert(start.take(j + 1).drop_last() =~= start.take(j as int));
                assert(start.take(j + 1).last() == start[j as int]);
            }
            if q.age <= MAX_AGE {
                proof {
                    lemma_step_preserves_wf(p, d);
                }
                particles_push(&mut kept, q);
            }
            j = j + 1;
        }
        proof {
            assert(start.take(n as int) =~= start);
        }
        self.particles = kept;
        let m: usize = particles_len(&self.particles);
        let ghost survivors = particle_seq(self.particles);
        let mut t: usize = 0;
        while t < m
            invariant
                buffer.wf(),
                m == survivors.len(),
                particle_seq(self.particles) == survivors,
                self.background@ == old(self).background(),
                forall|u: int| 0 <= u < survivors.len() ==> particle_wf(survivors[u]),
                t <= m,
                forall|row: int, col: int|
                    0 <= row < ROWS && 0 <= col < COLS ==> buffer.at(row, col) == overlay_color(
                        old(self).background(),
                        survivors.take(t as int),
                        row,
                        col,
                    ),
            decreases m - t,
        {
            let p: Particle = particles_get(&self.particles, t);
            let c: RGB8 = if p.age == 0 {
                RGB8::new(20, 18, 8)
            } else if p.age == 1 {
                RGB8::new(100, 51, 0)
            } else {
                RGB8::new(100, 32, 0)
            };
            buffer.set(p.row as usize, p.col as usize, c);
            proof {
                assert(survivors.take(t + 1).drop_last() =~= survivors.take(t as int));
                assert(survivors.take(t + 1).last() == survivors[t as int]);
            }
            t = t + 1;
        }
        proof {
            assert(survivors.take(m as int) =~= survivors);
            assert((spawned ==> old(self).particles_view().len() < PARTICLE_CAP)
                && particle_seq(self.particles) == advance(
                spawn_list(old(self).particles_view(), spawned),
                drifts,
            ));
        }
    }
}

} // verus!
