//! Countdown and repeating timers, in integer milliseconds.
//!
//! Every stateful rule of the simulation (eat cooldown, punch extension,
//! explosion lifetime, spawner production and damage cooldowns) is gated by
//! one of these two shapes.

use vstd::prelude::*;

verus! {

/// Upper bound, in milliseconds, on timer durations and on the delta of a
/// single tick.
pub const TIME_LIMIT_MS: u64 = 1_000_000_000;

/// One-shot countdown: elapsed time accumulates with each tick and
/// saturates at the duration; the timer is finished once the duration has
/// fully elapsed.
#[derive(Clone, Copy, Debug, PartialEq, Eq, Structural)]
pub struct CountdownTimer {
    pub duration_ms: u64,
    pub elapsed_ms: u64,
}

impl CountdownTimer {
    pub open spec fn wf(self) -> bool {
        self.elapsed_ms <= self.duration_ms <= TIME_LIMIT_MS
    }

    pub open spec fn spec_finished(self) -> bool {
        self.elapsed_ms >= self.duration_ms
    }

    pub open spec fn spec_ticked(self, dt_ms: u64) -> CountdownTimer {
        CountdownTimer {
            duration_ms: self.duration_ms,
            elapsed_ms: if self.elapsed_ms + dt_ms >= self.duration_ms {
                self.duration_ms
            } else {
                (self.elapsed_ms + dt_ms) as u64
            },
        }
    }

    pub open spec fn spec_reset(self) -> CountdownTimer {
        CountdownTimer { duration_ms: self.duration_ms, elapsed_ms: 0 }
    }

    /// Elapsed fraction of the duration, in thousandths.
    pub open spec fn spec_progress_milli(self) -> int {
        self.elapsed_ms * 1000 / (self.duration_ms as int)
    }

    pub fn new(duration_ms: u64) -> (r: CountdownTimer)
        requires
            duration_ms <= TIME_LIMIT_MS,
        ensures
            r == (CountdownTimer { duration_ms, elapsed_ms: 0u64 }),
            r.wf(),
    {
        CountdownTimer { duration_ms, elapsed_ms: 0 }
    }

    pub fn finished(&self) -> (r: bool)
        ensures
            r == self.spec_finished(),
    {
        self.elapsed_ms >= self.duration_ms
    }

    /// Advances the timer by `dt_ms`, saturating at the duration.
    pub fn tick(&mut self, dt_ms: u64)
        requires
            old(self).wf(),
            dt_ms <= TIME_LIMIT_MS,
        ensures
            *final(self) == old(self).spec_ticked(dt_ms),
            final(self).wf(),
    {
        if self.elapsed_ms + dt_ms >= self.duration_ms {
            self.elapsed_ms = self.duration_ms;
        } else {
            self.elapsed_ms = self.elapsed_ms + dt_ms;
        }
    }

    /// Starts the countdown over.
    pub fn reset(&mut self)
        ensures
            *final(self) == old(self).spec_reset(),
    {
        self.elapsed_ms = 0;
    }

    /// Elapsed fraction of the duration, in thousandths (0 through 1000).
    pub fn progress_milli(&self) -> (r: u64)
        requires
            self.wf(),
            self.duration_ms >= 1,
        ensures
            r == self.spec_progress_milli(),
            r <= 1000,
    {
        proof {
            assert(self.elapsed_ms * 1000 <= self.duration_ms * 1000) by (nonlinear_arith)
                requires self.elapsed_ms <= self.duration_ms;
            vstd::arithmetic::div_mod::lemma_div_is_ordered(
                self.elapsed_ms as int * 1000,
                self.duration_ms as int * 1000,
                self.duration_ms as int,
            );
            vstd::arithmetic::div_mod::lemma_div_multiples_vanish(
                1000,
                self.duration_ms as int,
            );
            assert(self.duration_ms as int * 1000 == self.duration_ms as int * 1000);
            assert((self.duration_ms as int * 1000) / (self.duration_ms as int) == 1000);
        }
        self.elapsed_ms * 1000 / self.duration_ms
    }
}

/// Repeating timer: elapsed time wraps around the interval; a tick that
/// reaches the interval fires.
#[derive(Clone, Copy, Debug, PartialEq, Eq, Structural)]
pub struct RepeatingTimer {
    pub interval_ms: u64,
    pub elapsed_ms: u64,
}

impl RepeatingTimer {
    pub open spec fn wf(self) -> bool {
        1 <= self.interval_ms <= TIME_LIMIT_MS && self.elapsed_ms < self.interval_ms
    }

    pub open spec fn spec_fires(self, dt_ms: u64) -> bool {
        self.elapsed_ms + dt_ms >= self.interval_ms
    }

    pub open spec fn spec_ticked(self, dt_ms: u64) -> RepeatingTimer {
        RepeatingTimer {
            interval_ms: self.interval_ms,
            elapsed_ms: ((self.elapsed_ms + dt_ms) % (self.interval_ms as int)) as u64,
        }
    }

    pub fn new(interval_ms: u64) -> (r: RepeatingTimer)
        requires
            1 <= interval_ms <= TIME_LIMIT_MS,
        ensures
            r == (RepeatingTimer { interval_ms, elapsed_ms: 0u64 }),
            r.wf(),
    {
        RepeatingTimer { interval_ms, elapsed_ms: 0 }
    }

    /// Advances the timer by `dt_ms`; returns whether the interval came due
    /// during this tick.
    pub fn tick(&mut self, dt_ms: u64) -> (fired: bool)
        requires
            old(self).wf(),
            dt_ms <= TIME_LIMIT_MS,
        ensures
            *final(self) == old(self).spec_ticked(dt_ms),
            fired == old(self).spec_fires(dt_ms),
            final(self).wf(),
    {
        let total = self.elapsed_ms + dt_ms;
        if total >= self.interval_ms {
            self.elapsed_ms = total % self.interval_ms;
            true
        } else {
            proof {
                vstd::arithmetic::div_mod::lemma_small_mod(total as nat, self.interval_ms as nat);
            }
            self.elapsed_ms = total;
            false
        }
    }
}

} // verus!
