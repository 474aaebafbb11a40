//! A poll-based countdown timer.
//!
//! The timer never reads the clock on its own terms: every operation that
//! needs the current time exists in two forms. The `*_at` form takes an
//! explicit wall-clock sample in milliseconds and carries an exact contract;
//! the plain form samples the clock once and delegates, so its contract holds
//! for every possible sample. All durations are whole milliseconds.

use vstd::prelude::*;

verus! {

/// Tracks one countdown interval by wall-clock sampling, tolerant of pausing,
/// resuming, and arbitrary adjustment of its progress.
#[derive(Clone, Copy, Debug, PartialEq, Eq, Structural)]
pub struct Timer {
    /// Clock sample (ms) at which the current run segment began.
    /// Meaningless while the timer is paused.
    pub last_start_ms: u64,
    pub paused: bool,
    /// Milliseconds already counted before the current run segment.
    pub acc_ms: u64,
    /// Milliseconds this timer must reach to be finished.
    pub target_ms: u64,
}

/// What a status poll reports. `Finished` carries the excess time past the
/// target, not a timestamp, so catch-up logic is pure duration arithmetic.
#[derive(Clone, Copy, Debug, PartialEq, Eq, Structural)]
pub enum State {
    Paused,
    Running,
    /// The timer has reached its target; the payload is the milliseconds that
    /// have passed beyond it.
    Finished(u64),
}

/// `a - b`, floored at zero.
pub open spec fn sat_sub_u64(a: u64, b: u64) -> u64 {
    if a >= b {
        (a - b) as u64
    } else {
        0
    }
}

/// `a + b`, capped at `u64::MAX`.
pub open spec fn sat_add_u64(a: u64, b: u64) -> u64 {
    if a + b <= u64::MAX {
        (a + b) as u64
    } else {
        u64::MAX
    }
}

/// Total elapsed milliseconds of `t` when the clock reads `now_ms`: the
/// accumulated baseline, plus the in-flight run segment while unpaused.
/// A clock sample before the segment start counts as zero, never underflows.
pub open spec fn elapsed_ms_at(t: Timer, now_ms: u64) -> u64 {
    if t.paused {
        t.acc_ms
    } else {
        sat_add_u64(t.acc_ms, sat_sub_u64(now_ms, t.last_start_ms))
    }
}

/// The status `t` reports when the clock reads `now_ms`.
pub open spec fn status_at(t: Timer, now_ms: u64) -> State {
    if elapsed_ms_at(t, now_ms) < t.target_ms {
        if t.paused {
            State::Paused
        } else {
            State::Running
        }
    } else {
        State::Finished((elapsed_ms_at(t, now_ms) - t.target_ms) as u64)
    }
}

/// A timer freshly constructed at clock sample `now_ms`.
pub open spec fn spec_new(target_ms: u64, paused: bool, acc_ms: u64, now_ms: u64) -> Timer {
    Timer { last_start_ms: now_ms, paused, acc_ms, target_ms }
}

/// Pausing folds the in-flight run segment into the accumulated baseline.
pub open spec fn spec_pause(t: Timer, now_ms: u64) -> Timer {
    Timer { paused: true, acc_ms: elapsed_ms_at(t, now_ms), ..t }
}

/// Starting begins a fresh run segment at `now_ms`.
pub open spec fn spec_start(t: Timer, now_ms: u64) -> Timer {
    Timer { paused: false, last_start_ms: now_ms, ..t }
}

/// Resetting rearms the same target from zero elapsed.
pub open spec fn spec_reset(t: Timer, paused: bool, now_ms: u64) -> Timer {
    Timer { last_start_ms: now_ms, paused, acc_ms: 0, ..t }
}

/// Forwarding adds directly to the accumulated baseline, paused or not.
pub open spec fn spec_forward(t: Timer, delta_ms: u64) -> Timer {
    Timer { acc_ms: sat_add_u64(t.acc_ms, delta_ms), ..t }
}

/// Rewinding first folds any in-flight run segment into the baseline, so the
/// subtraction is exact, then subtracts, floored at zero.
pub open spec fn spec_rewind(t: Timer, delta_ms: u64, now_ms: u64) -> Timer {
    Timer {
        last_start_ms: if t.paused {
            t.last_start_ms
        } else {
            now_ms
        },
        acc_ms: sat_sub_u64(elapsed_ms_at(t, now_ms), delta_ms),
        ..t
    }
}

impl Timer {
    /// Total elapsed milliseconds at clock sample `now_ms`.
    pub fn elapsed_ms(&self, now_ms: u64) -> (r: u64)
        ensures
            r == elapsed_ms_at(*self, now_ms),
    {
        if self.paused {
            self.acc_ms
        } else {
            let run: u64 = if now_ms >= self.last_start_ms {
                now_ms - self.last_start_ms
            } else {
                0
            };
            if run <= u64::MAX - self.acc_ms {
                self.acc_ms + run
            } else {
                u64::MAX
            }
        }
    }

    pub fn new_at(target_ms: u64, paused: bool, now_ms: u64) -> (t: Timer)
        ensures
            t == spec_new(target_ms, paused, 0, now_ms),
    {
        Timer { last_start_ms: now_ms, paused, acc_ms: 0, target_ms }
    }

    pub fn new_with_acc_at(target_ms: u64, paused: bool, acc_ms: u64, now_ms: u64) -> (t: Timer)
        ensures
            t == spec_new(target_ms, paused, acc_ms, now_ms),
    {
        Timer { last_start_ms: now_ms, paused, acc_ms, target_ms }
    }

    /// Fresh timer with zero accumulated time, clock sampled immediately.
    pub fn new(target_ms: u64, paused: bool) -> (t: Timer)
        ensures
            t.target_ms == target_ms,
            t.paused == paused,
            t.acc_ms == 0,
            exists|now_ms: u64| t == spec_new(target_ms, paused, 0, now_ms),
    {
        let now = crate::clock::now_millis();
        let t = Timer::new_at(target_ms, paused, now);
        proof {
            assert(t == spec_new(target_ms, paused, 0, now));
        }
        t
    }

    /// Fresh timer seeded with `acc_ms` already counted as elapsed: used when
    /// a phase transition carries excess time over into the new phase.
    pub fn new_with_acc_duration(target_ms: u64, paused: bool, acc_ms: u64) -> (t: Timer)
        ensures
            t.target_ms == target_ms,
            t.paused == paused,
            t.acc_ms == acc_ms,
            exists|now_ms: u64| t == spec_new(target_ms, paused, acc_ms, now_ms),
    {
        let now = crate::clock::now_millis();
        let t = Timer::new_with_acc_at(target_ms, paused, acc_ms, now);
        proof {
            assert(t == spec_new(target_ms, paused, acc_ms, now));
        }
        t
    }

    pub fn pause_at(&mut self, now_ms: u64)
        requires
            !old(self).paused,
        ensures
            *final(self) == spec_pause(*old(self), now_ms),
    {
        let e = self.elapsed_ms(now_ms);
        self.acc_ms = e;
        self.paused = true;
    }

    /// Folds the current run segment into the baseline and freezes. Pausing a
    /// paused timer is a programmer error, ruled out by the precondition.
    pub fn pause(&mut self)
        requires
            !old(self).paused,
        ensures
            final(self).paused,
            final(self).acc_ms >= old(self).acc_ms,
            final(self).target_ms == old(self).target_ms,
            exists|now_ms: u64| *final(self) == spec_pause(*old(self), now_ms),
    {
        let now = crate::clock::now_millis();
        self.pause_at(now);
        proof {
            assert(*self == spec_pause(*old(self), now));
        }
    }

    pub fn start_at(&mut self, now_ms: u64)
        requires
            old(self).paused,
        ensures
            *final(self) == spec_start(*old(self), now_ms),
    {
        self.last_start_ms = now_ms;
        self.paused = false;
    }

    /// Begins a fresh run segment. Starting a running timer is a programmer
    /// error, ruled out by the precondition.
    pub fn start(&mut self)
        requires
            old(self).paused,
        ensures
            !final(self).paused,
            final(self).acc_ms == old(self).acc_ms,
            final(self).target_ms == old(self).target_ms,
            exists|now_ms: u64| *final(self) == spec_start(*old(self), now_ms),
    {
        let now = crate::clock::now_millis();
        self.start_at(now);
        proof {
            assert(*self == spec_start(*old(self), now));
        }
    }

    pub fn get_state_at(&self, now_ms: u64) -> (s: State)
        ensures
            s == status_at(*self, now_ms),
    {
        let e = self.elapsed_ms(now_ms);
        if e < self.target_ms {
            if self.paused {
                State::Paused
            } else {
                State::Running
            }
        } else {
            State::Finished(e - self.target_ms)
        }
    }

    /// Polls the status against a fresh clock sample. While paused the result
    /// is fully determined by the stored fields; while running it depends on
    /// the sample, and the contract states what holds for every sample.
    pub fn get_state(&self) -> (s: State)
        ensures
            exists|now_ms: u64| s == status_at(*self, now_ms),
            self.paused && self.acc_ms < self.target_ms ==> s == State::Paused,
            self.paused && self.acc_ms >= self.target_ms ==> s == State::Finished(
                (self.acc_ms - self.target_ms) as u64,
            ),
            !self.paused ==> (s == State::Running || s is Finished),
            !self.paused && s == State::Running ==> self.acc_ms < self.target_ms,
    {
        let now = crate::clock::now_millis();
        let s = self.get_state_at(now);
        proof {
            assert(s == status_at(*self, now));
        }
        s
    }

    pub fn is_paused(&self) -> (r: bool)
        ensures
            r == self.paused,
    {
        self.paused
    }

    pub fn reset_at(&mut self, paused: bool, now_ms: u64)
        ensures
            *final(self) == spec_reset(*old(self), paused, now_ms),
    {
        self.last_start_ms = now_ms;
        self.acc_ms = 0;
        self.paused = paused;
    }

    /// Rearms the same target duration from zero elapsed.
    pub fn reset(&mut self, paused: bool)
        ensures
            final(self).acc_ms == 0,
            final(self).paused == paused,
            final(self).target_ms == old(self).target_ms,
            exists|now_ms: u64| *final(self) == spec_reset(*old(self), paused, now_ms),
    {
        let now = crate::clock::now_millis();
        self.reset_at(paused, now);
        proof {
            assert(*self == spec_reset(*old(self), paused, now));
        }
    }

    /// Adds to the frozen baseline; the next status poll picks it up whether
    /// the timer is paused or running. Needs no clock sample.
    pub fn forward_timer(&mut self, delta_ms: u64)
        ensures
            *final(self) == spec_forward(*old(self), delta_ms),
    {
        self.acc_ms = if delta_ms <= u64::MAX - self.acc_ms {
            self.acc_ms + delta_ms
        } else {
            u64::MAX
        };
    }

    /// If running, folds the in-flight segment into the baseline and restarts
    /// the segment at `now_ms`; otherwise leaves the timer unchanged.
    fn accumulate_elapsed_time(&mut self, now_ms: u64)
        ensures
            *final(self) == (Timer {
                last_start_ms: if old(self).paused {
                    old(self).last_start_ms
                } else {
                    now_ms
                },
                acc_ms: elapsed_ms_at(*old(self), now_ms),
                ..*old(self)
            }),
    {
        if !self.paused {
            let e = self.elapsed_ms(now_ms);
            self.acc_ms = e;
            self.last_start_ms = now_ms;
        }
    }

    pub fn rewind_timer_at(&mut self, delta_ms: u64, now_ms: u64)
        ensures
            *final(self) == spec_rewind(*old(self), delta_ms, now_ms),
            elapsed_ms_at(*final(self), now_ms) == sat_sub_u64(
                elapsed_ms_at(*old(self), now_ms),
                delta_ms,
            ),
    {
        self.accumulate_elapsed_time(now_ms);
        self.acc_ms = if self.acc_ms >= delta_ms {
            self.acc_ms - delta_ms
        } else {
            0
        };
    }

    /// Subtracts from the elapsed time, floored at zero: the in-flight run
    /// segment is folded in first, so the subtraction is exact rather than
    /// racing against the clock.
    pub fn rewind_timer(&mut self, delta_ms: u64)
        ensures
            final(self).paused == old(self).paused,
            final(self).target_ms == old(self).target_ms,
            old(self).paused ==> final(self).acc_ms == sat_sub_u64(old(self).acc_ms, delta_ms),
            exists|now_ms: u64| *final(self) == spec_rewind(*old(self), delta_ms, now_ms),
    {
        let now = crate::clock::now_millis();
        self.rewind_timer_at(delta_ms, now);
        proof {
            assert(*self == spec_rewind(*old(self), delta_ms, now));
        }
    }

    /// Elapsed and remaining milliseconds, plus the target, at clock sample
    /// `now_ms`. Remaining is clamped at zero once the target is passed.
    pub fn get_progress_data_at(&self, now_ms: u64) -> (r: (u64, u64, u64))
        ensures
            r.0 == elapsed_ms_at(*self, now_ms),
            r.1 == sat_sub_u64(self.target_ms, elapsed_ms_at(*self, now_ms)),
            r.2 == self.target_ms,
    {
        let e = self.elapsed_ms(now_ms);
        let remaining: u64 = if self.target_ms >= e {
            self.target_ms - e
        } else {
            0
        };
        (e, remaining, self.target_ms)
    }

    /// Elapsed, remaining and target milliseconds against a fresh clock
    /// sample; the progress fraction is elapsed over target, left to callers
    /// that can divide.
    pub fn get_progress_data(&self) -> (r: (u64, u64, u64))
        ensures
            r.1 == sat_sub_u64(self.target_ms, r.0),
            r.2 == self.target_ms,
            self.paused ==> r.0 == self.acc_ms,
            !self.paused ==> r.0 >= self.acc_ms,
            exists|now_ms: u64| r.0 == elapsed_ms_at(*self, now_ms),
    {
        let now = crate::clock::now_millis();
        let r = self.get_progress_data_at(now);
        proof {
            assert(r.0 == elapsed_ms_at(*self, now));
        }
        r
    }
}

/// Law: forwarding a fresh unpaused timer by `fwd_ms` makes exactly `fwd_ms`
/// elapse at the construction instant; the status there is Running while
/// `fwd_ms` is short of the target, and Finished with excess
/// `fwd_ms - target_ms` once it reaches it.
pub proof fn lemma_forward_fresh_timer(target_ms: u64, fwd_ms: u64, now_ms: u64)
    ensures
        elapsed_ms_at(spec_forward(spec_new(target_ms, false, 0, now_ms), fwd_ms), now_ms)
            == fwd_ms,
        fwd_ms < target_ms ==> status_at(
            spec_forward(spec_new(target_ms, false, 0, now_ms), fwd_ms),
            now_ms,
        ) == State::Running,
        fwd_ms >= target_ms ==> status_at(
            spec_forward(spec_new(target_ms, false, 0, now_ms), fwd_ms),
            now_ms,
        ) == State::Finished((fwd_ms - target_ms) as u64),
{
}

/// Law: pausing a running timer and then starting it again preserves the
/// total elapsed time exactly, whatever the two clock samples are: what the
/// timer reports immediately after the restart is what it had at the pause.
pub proof fn lemma_pause_start_preserves_elapsed(t: Timer, pause_now: u64, start_now: u64)
    requires
        !t.paused,
    ensures
        elapsed_ms_at(spec_start(spec_pause(t, pause_now), start_now), start_now)
            == elapsed_ms_at(t, pause_now),
{
}

/// Law: rewinding is clamped at zero. Rewinding by at least the elapsed time
/// yields exactly zero elapsed, never a negative value; in general the new
/// elapsed time is the old one minus the delta, floored at zero.
pub proof fn lemma_rewind_clamped(t: Timer, delta_ms: u64, now_ms: u64)
    ensures
        elapsed_ms_at(spec_rewind(t, delta_ms, now_ms), now_ms) == sat_sub_u64(
            elapsed_ms_at(t, now_ms),
            delta_ms,
        ),
        delta_ms >= elapsed_ms_at(t, now_ms) ==> elapsed_ms_at(
            spec_rewind(t, delta_ms, now_ms),
            now_ms,
        ) == 0,
{
}

} // verus!
