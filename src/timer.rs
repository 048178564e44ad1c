//! A countdown driven by the elapsed time handed to it.
use vstd::prelude::*;

verus! {

/// Nanoseconds in one millisecond.
pub const NANOS_PER_MILLI: u64 = 1_000_000;

/// The longest duration, in milliseconds, that a timer can be armed with.
pub const MAX_TIMER_MILLIS: u64 = 1_000_000_000;

/// A countdown of `duration` nanoseconds; `ready` once `elapsed` reaches it.
#[derive(Clone, Copy, Debug, PartialEq, Eq)]
pub struct Timer {
    /// Time to fire, in nanoseconds.
    pub duration: u64,
    /// Time accumulated since the last reset, in nanoseconds.
    pub elapsed: u64,
    /// Whether `elapsed` had reached `duration` at the last update.
    pub ready: bool,
}

impl Timer {
    /// A timer of `duration` nanoseconds that has just been armed.
    pub open spec fn armed(duration: int) -> Timer {
        Timer { duration: duration as u64, elapsed: 0, ready: false }
    }

    /// The timer after `delta` more nanoseconds have passed.
    pub open spec fn advanced(self, delta: u64) -> Timer {
        let e = if self.elapsed + delta > u64::MAX {
            u64::MAX
        } else {
            (self.elapsed + delta) as u64
        };
        Timer { duration: self.duration, elapsed: e, ready: e >= self.duration }
    }

    /// The timer with its elapsed time cleared.
    pub open spec fn restarted(self) -> Timer {
        Timer::armed(self.duration as int)
    }

    /// Arms a timer of `ms` milliseconds; it is not ready.
    pub fn from_millis(ms: u64) -> (t: Timer)
        requires
            ms <= MAX_TIMER_MILLIS,
        ensures
            t == Timer::armed(ms * NANOS_PER_MILLI),
    {
        Timer { duration: ms * NANOS_PER_MILLI, elapsed: 0, ready: false }
    }

    /// Adds `delta` nanoseconds (saturating) and recomputes `ready`.
    pub fn update(&mut self, delta: u64)
        ensures
            *final(self) == old(self).advanced(delta),
    {
        self.elapsed = self.elapsed.saturating_add(delta);
        self.ready = self.elapsed >= self.duration;
    }

    /// Clears the elapsed time; the timer is no longer ready.
    pub fn reset(&mut self)
        ensures
            *final(self) == old(self).restarted(),
    {
        self.elapsed = 0;
        self.ready = false;
    }
}

} // verus!
