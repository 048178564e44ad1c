//! A single-cell projectile that climbs one row per tick.
use vstd::prelude::*;
use crate::frame::{put, on_field, Drawable, Frame};
use crate::timer::{Timer, NANOS_PER_MILLI};

verus! {

/// Milliseconds between two upward steps of a shot.
pub const SHOT_STEP_MILLIS: u64 = 50;

/// Milliseconds that a shot's explosion stays on screen.
pub const SHOT_BLAST_MILLIS: u64 = 250;

/// A shot travelling up the field.
#[derive(Clone, Copy, Debug, PartialEq, Eq)]
pub struct Shot {
    pub x: usize,
    pub y: usize,
    pub timer: Timer,
    pub exploding: bool,
}

impl Shot {
    /// A shot fired at `(x, y)`.
    pub open spec fn spawned(x: usize, y: usize) -> Shot {
        Shot { x, y, timer: Timer::armed(SHOT_STEP_MILLIS * NANOS_PER_MILLI), exploding: false }
    }

    /// The shot after `delta` nanoseconds: a flying shot whose timer fires
    /// climbs one row (never above row 0) and re-arms its timer.
    pub open spec fn stepped(self, delta: u64) -> Shot {
        let t = self.timer.advanced(delta);
        if t.ready && !self.exploding {
            Shot {
                x: self.x,
                y: if self.y > 0 { (self.y - 1) as usize } else { 0 },
                timer: t.restarted(),
                exploding: false,
            }
        } else {
            Shot { x: self.x, y: self.y, timer: t, exploding: self.exploding }
        }
    }

    /// The shot once it has hit something.
    pub open spec fn blown(self) -> Shot {
        Shot {
            x: self.x,
            y: self.y,
            timer: Timer::armed(SHOT_BLAST_MILLIS * NANOS_PER_MILLI),
            exploding: true,
        }
    }

    /// A shot is gone once its explosion has burnt out or it reached the top row.
    pub open spec fn is_dead(self) -> bool {
        (self.exploding && self.timer.ready) || self.y == 0
    }

    /// The glyph a shot is drawn with.
    pub open spec fn glyph(self) -> char {
        if self.exploding { '*' } else { '|' }
    }

    pub fn new(x: usize, y: usize) -> (s: Shot)
        ensures
            s == Shot::spawned(x, y),
    {
        Shot { x, y, timer: Timer::from_millis(SHOT_STEP_MILLIS), exploding: false }
    }

    pub fn update(&mut self, delta: u64)
        ensures
            *final(self) == old(self).stepped(delta),
    {
        self.timer.update(delta);
        if self.timer.ready && !self.exploding {
            if self.y > 0 {
                self.y -= 1;
            }
            self.timer.reset();
        }
    }

    pub fn explode(&mut self)
        ensures
            *final(self) == old(self).blown(),
    {
        self.exploding = true;
        self.timer = Timer::from_millis(SHOT_BLAST_MILLIS);
    }

    pub fn dead(&self) -> (r: bool)
        ensures
            r == self.is_dead(),
    {
        (self.exploding && self.timer.ready) || self.y == 0
    }
}

impl Drawable for Shot {
    open spec fn fits(&self) -> bool {
        on_field(self.x as int, self.y as int)
    }

    open spec fn painted(&self, cells: Seq<char>) -> Seq<char> {
        put(cells, self.x as int, self.y as int, self.glyph())
    }

    fn draw(&self, frame: &mut Frame) {
        frame.set(self.x, self.y, if self.exploding { '*' } else { '|' });
    }
}

} // verus!
