//! A repeating interval timer driven by elapsed-time deltas.
use vstd::prelude::*;
use vstd::arithmetic::div_mod::lemma_mod_add_multiples_vanish;

verus! {

/// The abstract state of a timer, in milliseconds.
pub struct TimerView {
    pub period: nat,
    pub elapsed: nat,
}

impl TimerView {
    /// The timer after `delta` more milliseconds.
    pub open spec fn advanced(self, delta: nat) -> TimerView {
        TimerView { period: self.period, elapsed: (self.elapsed + delta) % self.period }
    }

    /// Whether `delta` more milliseconds complete the current interval.
    pub open spec fn fires(self, delta: nat) -> bool {
        self.elapsed + delta >= self.period
    }
}

/// A timer that completes an interval every `period` milliseconds and
/// carries what is left over into the next interval.
pub struct IntervalTimer {
    period: u64,
    elapsed: u64,
}

impl View for IntervalTimer {
    type V = TimerView;

    closed spec fn view(&self) -> TimerView {
        TimerView { period: self.period as nat, elapsed: self.elapsed as nat }
    }
}

impl IntervalTimer {
    /// The period is positive and the time into the current interval is
    /// less than the period.
    pub closed spec fn wf(&self) -> bool {
        0 < self.period && self.elapsed < self.period
    }

    /// A timer with the given period, at the start of an interval.
    pub fn new(period: u64) -> (r: IntervalTimer)
        requires
            0 < period,
        ensures
            r.wf(),
            r@ == (TimerView { period: period as nat, elapsed: 0 }),
    {
        IntervalTimer { period, elapsed: 0 }
    }

    /// Advances the timer by `delta` milliseconds and returns whether an
    /// interval was completed; several completed intervals fire once.
    pub fn tick(&mut self, delta: u64) -> (fired: bool)
        requires
            old(self).wf(),
        ensures
            final(self).wf(),
            final(self)@ == old(self)@.advanced(delta as nat),
            fired == old(self)@.fires(delta as nat),
    {
        let room = self.period - self.elapsed;
        if delta >= room {
            let rest = (delta - room) % self.period;
            proof {
                lemma_mod_add_multiples_vanish((delta - room) as int, self.period as int);
            }
            self.elapsed = rest;
            true
        } else {
            proof {
                vstd::arithmetic::div_mod::lemma_small_mod(
                    (self.elapsed + delta) as nat,
                    self.period as nat,
                );
            }
            self.elapsed = self.elapsed + delta;
            false
        }
    }

    /// The timer's period in milliseconds.
    pub fn period(&self) -> (r: u64)
        ensures
            r == self@.period,
    {
        self.period
    }

    /// The time into the current interval in milliseconds.
    pub fn elapsed(&self) -> (r: u64)
        ensures
            r == self@.elapsed,
    {
        self.elapsed
    }
}

} // verus!
