//! A projectile that passes through invaders instead of stopping at the first.
use vstd::prelude::*;
use crate::frame::{put, on_field, Drawable, Frame};
use crate::timer::{Timer, NANOS_PER_MILLI};

verus! {

/// Milliseconds between two upward steps of a piercer.
pub const PIERCER_STEP_MILLIS: u64 = 150;

/// Milliseconds that a piercer burns once it explodes.
pub const PIERCER_BURN_MILLIS: u64 = 250;

/// A piercing projectile travelling up the field.
#[derive(Clone, Copy, Debug, PartialEq, Eq)]
pub struct Piercer {
    pub x: usize,
    pub y: usize,
    pub timer: Timer,
    pub exploding: bool,
}

impl Piercer {
    /// A piercer fired at `(x, y)`.
    pub open spec fn spawned(x: usize, y: usize) -> Piercer {
        Piercer {
            x,
            y,
            timer: Timer::armed(PIERCER_STEP_MILLIS * NANOS_PER_MILLI),
            exploding: false,
        }
    }

    /// The piercer after `delta` nanoseconds: whenever its timer fires it
    /// climbs one row (never above row 0) and re-arms the timer.
    pub open spec fn stepped(self, delta: u64) -> Piercer {
        let t = self.timer.advanced(delta);
        if t.ready {
            Piercer {
                x: self.x,
                y: if self.y > 0 { (self.y - 1) as usize } else { 0 },
                timer: t.restarted(),
                exploding: self.exploding,
            }
        } else {
            Piercer { x: self.x, y: self.y, timer: t, exploding: self.exploding }
        }
    }

    /// The piercer after `explode`.
    pub open spec fn blown(self) -> Piercer {
        Piercer {
            x: self.x,
            y: self.y,
            timer: Timer::armed(PIERCER_BURN_MILLIS * NANOS_PER_MILLI),
            exploding: true,
        }
    }

    /// A piercer is gone once its burn-out (after `explode`) is over or it
    /// reached the top row; a ready movement timer does not end it.
    pub open spec fn is_dead(self) -> bool {
        (self.exploding && self.timer.ready) || self.y == 0
    }

    /// The glyph a piercer is drawn with.
    pub open spec fn glyph(self) -> char {
        if self.exploding { '*' } else { 'O' }
    }

    pub fn new(x: usize, y: usize) -> (p: Piercer)
        ensures
            p == Piercer::spawned(x, y),
    {
        Piercer { x, y, timer: Timer::from_millis(PIERCER_STEP_MILLIS), exploding: false }
    }

    pub fn update(&mut self, delta: u64)
        ensures
            *final(self) == old(self).stepped(delta),
    {
        self.timer.update(delta);
        if self.timer.ready {
            if self.y > 0 {
                self.y -= 1;
            }
            self.timer.reset();
        }
    }

    pub fn explode(&mut self)
        ensures
            *final(self) == old(self).blown(),
    {
        self.exploding = true;
        self.timer = Timer::from_millis(PIERCER_BURN_MILLIS);
    }

    pub fn dead(&self) -> (r: bool)
        ensures
            r == self.is_dead(),
    {
        (self.exploding && self.timer.ready) || self.y == 0
    }
}

impl Drawable for Piercer {
    open spec fn fits(&self) -> bool {
        on_field(self.x as int, self.y as int)
    }

    open spec fn painted(&self, cells: Seq<char>) -> Seq<char> {
        put(cells, self.x as int, self.y as int, self.glyph())
    }

    fn draw(&self, frame: &mut Frame) {
        frame.set(self.x, self.y, if self.exploding { '*' } else { 'O' });
    }
}

/// Total time, in nanoseconds, of a sequence of elapsed-time steps.
pub open spec fn total(deltas: Seq<u64>) -> int
    decreases deltas.len(),
{
    if deltas.len() == 0 {
        0
    } else {
        total(deltas.drop_last()) + deltas.last()
    }
}

/// The piercer after updates by each of `deltas` in turn.
pub open spec fn run(p: Piercer, deltas: Seq<u64>) -> Piercer
    decreases deltas.len(),
{
    if deltas.len() == 0 {
        p
    } else {
        run(p, deltas.drop_last()).stepped(deltas.last())
    }
}

/// Until its timer fires, a piercer only accumulates time.
proof fn lemma_run_quiet(p: Piercer, deltas: Seq<u64>)
    requires
        p.timer.elapsed + total(deltas) < p.timer.duration,
    ensures
        run(p, deltas).x == p.x,
        run(p, deltas).y == p.y,
        run(p, deltas).timer.duration == p.timer.duration,
        run(p, deltas).timer.elapsed == p.timer.elapsed + total(deltas),
    decreases deltas.len(),
{
    if deltas.len() > 0 {
        lemma_run_quiet(p, deltas.drop_last());
    }
}

/// Once the time handed to a piercer reaches what its timer still lacks, it
/// has climbed exactly one row (staying on row 0 if already there), and its
/// timer starts over.
pub proof fn lemma_climbs_one_row(p: Piercer, deltas: Seq<u64>)
    requires
        deltas.len() > 0,
        p.timer.elapsed + total(deltas.drop_last()) < p.timer.duration,
        p.timer.elapsed + total(deltas) >= p.timer.duration,
    ensures
        run(p, deltas).y == if p.y > 0 { p.y - 1 } else { 0 },
        run(p, deltas).x == p.x,
        run(p, deltas).timer == p.timer.restarted(),
{
    lemma_run_quiet(p, deltas.drop_last());
}

/// A piercer never moves down: its row after any updates is at most its row before.
pub proof fn lemma_never_descends(p: Piercer, deltas: Seq<u64>)
    ensures
        run(p, deltas).y <= p.y,
        run(p, deltas).x == p.x,
    decreases deltas.len(),
{
    if deltas.len() > 0 {
        lemma_never_descends(p, deltas.drop_last());
    }
}

/// A freshly armed piercer handed `n` steps, each at least its timer's
/// duration, has climbed exactly `n` rows, stopping at row 0, and its timer is
/// armed again.
pub proof fn lemma_climbs_per_period(p: Piercer, deltas: Seq<u64>)
    requires
        p.timer.elapsed == 0,
        forall|i: int| 0 <= i < deltas.len() ==> deltas[i] >= p.timer.duration,
    ensures
        run(p, deltas).y == if p.y >= deltas.len() { p.y - deltas.len() } else { 0 },
        run(p, deltas).x == p.x,
        run(p, deltas).exploding == p.exploding,
        run(p, deltas).timer == p.timer.restarted() || deltas.len() == 0,
    decreases deltas.len(),
{
    if deltas.len() > 0 {
        let rest = deltas.drop_last();
        assert forall|i: int| 0 <= i < rest.len() implies rest[i] >= p.timer.duration by {
            assert(rest[i] == deltas[i]);
        }
        lemma_climbs_per_period(p, rest);
        assert(deltas.last() == deltas[deltas.len() - 1]);
    }
}

} // verus!
