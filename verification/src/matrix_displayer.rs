//! The effect interface, the closed sum of effects the firmware ships, the
//! last-writer-wins effect-switch channel, and the scheduler step that the
//! render loop runs every tick: render the active effect, serialize the
//! frame for the hardware, and honor at most one pending switch request.

use vstd::prelude::*;
use crate::cake::Cake;
use crate::metaballs::Metaballs;
use crate::wheel::Wheel;
use crate::ws2812::{physical_index, word_of, Ws2812, COLS, NUM_PIXELS, ROWS};

verus! {

/// The capability every animation algorithm implements: given exclusive
/// mutable access to the buffer for one frame, produce the next frame,
/// keeping its own progression state. The buffer must come back well-formed.
pub trait MatrixDisplayer {
    /// The algorithm's own invariant, established by its constructors and
    /// kept by every update.
    spec fn wf(&self) -> bool;

    /// Renders one frame into the buffer.
    fn update(&mut self, ws2812: &mut Ws2812)
        requires
            old(self).wf(),
            old(ws2812).wf(),
        ensures
            final(self).wf(),
            final(ws2812).wf(),
    ;

    /// Every `(row, col)` pair of the matrix in row-major order, for
    /// effects that rasterize a field function.
    fn iterate(&self) -> (cells: Vec<(usize, usize)>)
        ensures
            cells@.len() == NUM_PIXELS,
            forall|i: int|
                0 <= i < NUM_PIXELS ==> cells@[i] == ((i / (COLS as int)) as usize, (i % (
                COLS as int)) as usize),
    {
        let mut cells: Vec<(usize, usize)> = Vec::new();
        let mut i: usize = 0;
        while i < NUM_PIXELS
            invariant
                i <= NUM_PIXELS,
                cells@.len() == i,
                forall|j: int|
                    0 <= j < i ==> cells@[j] == ((j / (COLS as int)) as usize, (j % (
                    COLS as int)) as usize),
            decreases NUM_PIXELS - i,
        {
            cells.push((i / COLS, i % COLS));
            i = i + 1;
        }
        cells
    }
}

impl MatrixDisplayer for Wheel {
    open spec fn wf(&self) -> bool {
        true
    }

    fn update(&mut self, ws2812: &mut Ws2812) {
        Wheel::update(self, ws2812);
    }
}

impl MatrixDisplayer for Metaballs {
    open spec fn wf(&self) -> bool {
        Metaballs::wf(*self)
    }

    fn update(&mut self, ws2812: &mut Ws2812) {
        Metaballs::update(self, ws2812);
    }
}

impl MatrixDisplayer for Cake {
    open spec fn wf(&self) -> bool {
        Cake::wf(*self)
    }

    fn update(&mut self, ws2812: &mut Ws2812) {
        Cake::update(self, ws2812);
    }
}

impl MatrixDisplayer for crate::single::Single {
    open spec fn wf(&self) -> bool {
        self.0 < 256
    }

    fn update(&mut self, ws2812: &mut Ws2812) {
        crate::single::Single::update(self, ws2812);
    }
}

impl MatrixDisplayer for crate::game_of_life::GameOfLife {
    open spec fn wf(&self) -> bool {
        crate::game_of_life::GameOfLife::wf(*self)
    }

    fn update(&mut self, ws2812: &mut Ws2812) {
        crate::game_of_life::GameOfLife::update(self, ws2812);
    }
}

/// The closed set of effects the scheduler can run: a tagged union, so that
/// adding an effect is a compile-time exhaustive match.
pub enum Displays {
    Wheel(Wheel),
    Metaballs(Metaballs),
    Cake(Cake),
}

/// The active effect's invariant, by variant.
pub open spec fn displays_wf(d: Displays) -> bool {
    match d {
        Displays::Wheel(w) => true,
        Displays::Metaballs(m) => m.wf(),
        Displays::Cake(c) => c.wf(),
    }
}

/// Two effects of the same variant.
pub open spec fn same_variant(a: Displays, b: Displays) -> bool {
    ||| (a is Wheel && b is Wheel)
    ||| (a is Metaballs && b is Metaballs)
    ||| (a is Cake && b is Cake)
}

impl Displays {
    /// Builds the effect a selector index names. An unrecognized index is a
    /// typed failure, never a crash: callers treat it as "no change".
    pub fn try_from(value: usize) -> (r: Result<Displays, ()>)
        ensures
            value == 0 ==> r == Ok::<Displays, ()>(Displays::Wheel(Wheel(0))),
            value == 1 ==> (r matches Ok(d) && d is Metaballs && displays_wf(d)),
            value >= 2 ==> r == Err::<Displays, ()>(()),
            r matches Ok(d) ==> displays_wf(d),
    {
        match value {
            0 => Ok(Displays::Wheel(Wheel(0))),
            1 => Ok(Displays::Metaballs(Metaballs::new())),
            _ => Err(()),
        }
    }
}

/// What a send leaves in a single-slot latest-value channel: the new value,
/// whatever was pending before.
pub open spec fn spec_signal(pending: Option<Displays>, effect: Displays) -> Option<Displays> {
    Some(effect)
}

/// Latest-write-wins law: after two signals in a row, a consumer that then
/// takes observes only the second value; the first is overwritten, never
/// delivered, and never queued behind the second.
pub proof fn lemma_latest_write_wins(p: Option<Displays>, a: Displays, b: Displays)
    ensures
        spec_signal(spec_signal(p, a), b) == Some(b),
        spec_signal(spec_signal(p, a), b) == Some(a) ==> a == b,
{
}

/// The effect-switch channel: a single slot holding the most recent switch
/// request. A new send overwrites an unconsumed value; a take consumes it.
/// This is the only cross-task boundary of the core; the buffer and driver
/// are owned by the scheduler alone.
pub struct SwitchChannel {
    slot: Option<Displays>,
}

impl SwitchChannel {
    /// What is pending: the most recent undelivered request, if any.
    pub closed spec fn pending(self) -> Option<Displays> {
        self.slot
    }

    /// An empty channel; nothing was ever signaled.
    pub fn new() -> (ch: SwitchChannel)
        ensures
            ch.pending() is None,
    {
        SwitchChannel { slot: None }
    }

    /// Requests an effect switch: the new request replaces any pending one.
    pub fn signal(&mut self, effect: Displays)
        ensures
            final(self).pending() == spec_signal(old(self).pending(), effect),
    {
        self.slot = Some(effect);
    }

    /// Consumes the pending request, if any, leaving the channel empty.
    pub fn try_take(&mut self) -> (r: Option<Displays>)
        ensures
            r == old(self).pending(),
            final(self).pending() is None,
    {
        self.slot.take()
    }
}

/// What the scheduler runs next: a pending switch request replaces the
/// active effect wholesale (no state carries over); otherwise the active
/// effect continues.
pub open spec fn spec_select(active: Displays, pending: Option<Displays>) -> Displays {
    match pending {
        Some(e) => e,
        None => active,
    }
}

/// The active effect after a run of ticks whose switch requests were
/// `pendings`, disregarding the per-frame state the effect accumulates.
pub open spec fn spec_run(active: Displays, pendings: Seq<Option<Displays>>) -> Displays
    decreases pendings.len(),
{
    if pendings.len() == 0 {
        active
    } else {
        spec_run(spec_select(active, pendings[0]), pendings.drop_first())
    }
}

/// Liveness law: over any run of ticks in which no switch was signaled, the
/// scheduler keeps running the very effect it started with. Each tick hands
/// the hardware exactly one frame: `scheduler_tick` returns the single
/// serialized frame of its tick.
pub proof fn lemma_scheduler_liveness(active: Displays, pendings: Seq<Option<Displays>>)
    requires
        forall|i: int| 0 <= i < pendings.len() ==> pendings[i] is None,
    ensures
        spec_run(active, pendings) == active,
    decreases pendings.len(),
{
    if pendings.len() > 0 {
        assert(pendings[0] is None);
        let rest = pendings.drop_first();
        assert forall|i: int| 0 <= i < rest.len() implies rest[i] is None by {
            assert(pendings[i + 1] is None);
        }
        lemma_scheduler_liveness(active, rest);
    }
}

/// One tick of the steady-state render loop: honor a pending switch request
/// if one arrived, render one frame with the resulting effect, and hand
/// back that frame, serialized for the hardware transfer. The effect only
/// changes variant when a switch was pending; the frame returned is exactly
/// the serialization of the rendered buffer.
pub fn scheduler_tick(active: &mut Displays, buffer: &mut Ws2812, pending: Option<Displays>) -> (frame: Vec<u32>)
    requires
        displays_wf(*old(active)),
        old(buffer).wf(),
        pending matches Some(e) ==> displays_wf(e),
    ensures
        displays_wf(*final(active)),
        final(buffer).wf(),
        same_variant(*final(active), spec_select(*old(active), pending)),
        pending is None ==> same_variant(*final(active), *old(active)),
        spec_select(*old(active), pending) matches Displays::Wheel(w0) ==> (*final(active)
            == Displays::Wheel(Wheel(((w0.0 + 1) % 256) as u8)) && forall|row: int, col: int|
            0 <= row < ROWS && 0 <= col < COLS ==> final(buffer).at(row, col)
                == crate::wheel::spec_wheel(
                crate::wheel::wheel_index(row * COLS + col, w0.0 as int) as u8,
            )),
        *final(active) matches Displays::Cake(c) ==> forall|row: int, col: int|
            0 <= row < ROWS && 0 <= col < COLS ==> final(buffer).at(row, col)
                == crate::cake::overlay_color(c.background(), c.particles_view(), row, col),
        *final(active) matches Displays::Metaballs(m) ==> forall|row: int, col: int|
            0 <= row < ROWS && 0 <= col < COLS ==> final(buffer).at(row, col)
                == crate::metaballs::field_color(
                crate::metaballs::total_intensity(m.balls_view(), row, col),
            ),
        frame@.len() == NUM_PIXELS,
        forall|row: int, col: int|
            0 <= row < ROWS && 0 <= col < COLS ==> frame@[physical_index(row, col)] == word_of(
                final(buffer).at(row, col),
            ),
{
    match pending {
        Some(e) => {
            *active = e;
        },
        None => {},
    }
    match active {
        Displays::Wheel(w) => {
            Wheel::update(w, buffer);
        },
        Displays::Metaballs(m) => {
            Metaballs::update(m, buffer);
        },
        Displays::Cake(c) => {
            Cake::update(c, buffer);
        },
    }
    buffer.frame_words()
}

} // verus!
