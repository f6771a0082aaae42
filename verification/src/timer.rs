//! Per-node progress timer: a countdown measured in milliseconds, advanced
//! by `tick`, clamped at its duration, with a `just_finished` flag that is
//! true exactly on the tick that reaches the duration.

use vstd::prelude::*;

verus! {

/// A one-shot timer. `elapsed_ms` normally stays at or below `duration_ms`,
/// but `set_duration` may move the duration below the elapsed time, in which
/// case the timer counts as finished immediately.
#[derive(Clone, Copy, PartialEq, Eq, Structural, Debug)]
pub struct ProgressTimer {
    pub duration_ms: u64,
    pub elapsed_ms: u64,
    pub just_finished: bool,
}

/// A timer is finished once its elapsed time has reached its duration.
pub open spec fn spec_finished(t: ProgressTimer) -> bool {
    t.elapsed_ms >= t.duration_ms
}

/// Milliseconds still to run: the duration minus the elapsed time, at least 0.
pub open spec fn spec_remaining(t: ProgressTimer) -> int {
    if t.elapsed_ms >= t.duration_ms {
        0
    } else {
        t.duration_ms - t.elapsed_ms
    }
}

/// What one `tick` call does: a finished timer only drops `just_finished`;
/// an unfinished one advances, clamped at the duration, and records whether
/// this very call finished it.
pub open spec fn spec_tick(t: ProgressTimer, delta: int) -> ProgressTimer {
    if spec_finished(t) {
        ProgressTimer { duration_ms: t.duration_ms, elapsed_ms: t.elapsed_ms, just_finished: false }
    } else if delta >= t.duration_ms - t.elapsed_ms {
        ProgressTimer { duration_ms: t.duration_ms, elapsed_ms: t.duration_ms, just_finished: true }
    } else {
        ProgressTimer {
            duration_ms: t.duration_ms,
            elapsed_ms: (t.elapsed_ms + delta) as u64,
            just_finished: false,
        }
    }
}

impl ProgressTimer {
    /// A fresh timer for the given duration with the given elapsed time.
    pub fn new(duration_ms: u64, elapsed_ms: u64) -> (t: ProgressTimer)
        ensures
            t == (ProgressTimer { duration_ms, elapsed_ms, just_finished: false }),
    {
        ProgressTimer { duration_ms, elapsed_ms, just_finished: false }
    }

    pub fn finished(&self) -> (r: bool)
        ensures
            r == spec_finished(*self),
    {
        self.elapsed_ms >= self.duration_ms
    }

    pub fn just_finished(&self) -> (r: bool)
        ensures
            r == self.just_finished,
    {
        self.just_finished
    }

    /// Milliseconds still to run, clamped at zero.
    pub fn remaining_ms(&self) -> (r: u64)
        ensures
            r == spec_remaining(*self),
    {
        if self.elapsed_ms >= self.duration_ms {
            0
        } else {
            self.duration_ms - self.elapsed_ms
        }
    }

    /// Advances the timer by `delta_ms`, clamped at the duration. A timer
    /// that was already finished does not move; `just_finished` is set
    /// exactly when this call causes the finished transition.
    pub fn tick(&mut self, delta_ms: u64)
        ensures
            *final(self) == spec_tick(*old(self), delta_ms as int),
    {
        if self.elapsed_ms >= self.duration_ms {
            self.just_finished = false;
        } else if delta_ms >= self.duration_ms - self.elapsed_ms {
            self.elapsed_ms = self.duration_ms;
            self.just_finished = true;
        } else {
            self.elapsed_ms = self.elapsed_ms + delta_ms;
            self.just_finished = false;
        }
    }

    /// Sets the elapsed time back to zero.
    pub fn reset(&mut self)
        ensures
            *final(self) == (ProgressTimer {
                duration_ms: old(self).duration_ms,
                elapsed_ms: 0,
                just_finished: false,
            }),
    {
        self.elapsed_ms = 0;
        self.just_finished = false;
    }

    /// Replaces the duration without touching the elapsed time, so a timer
    /// already past the new duration becomes finished immediately.
    pub fn set_duration(&mut self, duration_ms: u64)
        ensures
            *final(self) == (ProgressTimer {
                duration_ms,
                elapsed_ms: old(self).elapsed_ms,
                just_finished: old(self).just_finished,
            }),
    {
        self.duration_ms = duration_ms;
    }
}

/// Ticking is additive in the elapsed time: ticking by `d1` and then by `d2`
/// leaves the same elapsed time as one tick by `d1 + d2`, up to the clamp at
/// the duration.
pub proof fn lemma_tick_additive(t: ProgressTimer, d1: int, d2: int)
    requires
        d1 >= 0,
        d2 >= 0,
    ensures
        spec_tick(spec_tick(t, d1), d2).elapsed_ms == spec_tick(t, d1 + d2).elapsed_ms,
{
}

} // verus!
