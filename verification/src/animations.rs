//! Timed transitions. The clock is read by the caller and handed in as a
//! number of milliseconds, so that every answer is a function of its inputs.

use vstd::prelude::*;

verus! {

/// A transition that starts at one instant and lasts for a fixed time.
#[derive(Debug, Clone, Copy, PartialEq, Eq, Structural)]
pub struct Animation {
    /// Clock reading at the start, in milliseconds.
    pub start_time: u64,
    /// Length of the transition, in milliseconds.
    pub duration: u64,
    /// Set when the transition was ended by hand.
    pub completed: bool,
}

impl Animation {
    /// Milliseconds that have passed since the start at clock reading `now`;
    /// zero when the clock reads less than at the start.
    pub open spec fn elapsed(&self, now: u64) -> int {
        if now >= self.start_time {
            now - self.start_time
        } else {
            0
        }
    }

    /// The transition is over at clock reading `now`.
    pub open spec fn done_at(&self, now: u64) -> bool {
        self.completed || self.elapsed(now) >= self.duration
    }

    /// Progress at clock reading `now` in thousandths, from 0 to 1000.
    pub open spec fn progress_at(&self, now: u64) -> int {
        if self.done_at(now) {
            1000
        } else {
            self.elapsed(now) * 1000 / (self.duration as int)
        }
    }

    /// A transition of `duration` milliseconds that starts at `now`.
    pub fn new(now: u64, duration: u64) -> (r: Self)
        ensures
            r == (Animation { start_time: now, duration, completed: false }),
    {
        Animation { start_time: now, duration, completed: false }
    }

    /// Progress in thousandths: 1000 once the transition is over, otherwise
    /// the elapsed share of the duration, rounded down.
    pub fn progress(&self, now: u64) -> (r: u32)
        ensures
            r == self.progress_at(now),
            r <= 1000,
            r == 1000 <==> self.done_at(now),
    {
        if self.is_completed(now) {
            return 1000;
        }
        let elapsed: u64 = if now >= self.start_time {
            now - self.start_time
        } else {
            0
        };
        let wide: u128 = (elapsed as u128) * 1000u128 / (self.duration as u128);
        assert(wide < 1000) by (nonlinear_arith)
            requires
                wide == (elapsed as int) * 1000 / (self.duration as int),
                0 <= elapsed < self.duration,
        ;
        wide as u32
    }

    /// Whether the transition is over: ended by hand, or its time has passed.
    pub fn is_completed(&self, now: u64) -> (r: bool)
        ensures
            r == self.done_at(now),
    {
        self.completed || (now >= self.start_time && now - self.start_time >= self.duration)
            || self.duration == 0
    }

    /// Ends the transition now.
    pub fn complete(&mut self)
        ensures
            final(self).completed,
            final(self).start_time == old(self).start_time,
            final(self).duration == old(self).duration,
            forall|now: u64| final(self).done_at(now),
    {
        self.completed = true;
    }

    /// Starts the transition again at clock reading `now`.
    pub fn reset(&mut self, now: u64)
        ensures
            *final(self) == (Animation {
                start_time: now,
                duration: old(self).duration,
                completed: false,
            }),
    {
        self.start_time = now;
        self.completed = false;
    }
}

} // verus!
