//! The clock that paces the seats that play by themselves.

use vstd::prelude::*;

verus! {

/// Time between two moves of an automatic player, in milliseconds.
pub const BOT_PERIOD_MS: u64 = 2000;

/// Whether a repeating timer that has run `elapsed` of its `period` completes
/// a period when `delta` more passes.
pub open spec fn timer_fires(elapsed: nat, delta: nat, period: nat) -> bool {
    elapsed + delta >= period
}

/// Time run into the current period after `delta` more passes.
pub open spec fn timer_after(elapsed: nat, delta: nat, period: nat) -> nat {
    ((elapsed + delta) as int % (period as int)) as nat
}

/// A repeating timer counted in milliseconds.
pub struct BotTimer {
    period_ms: u64,
    elapsed_ms: u64,
}

impl BotTimer {
    /// The period is positive and the time run is less than one period.
    pub open spec fn wf(&self) -> bool {
        self.period() > 0 && self.elapsed() < self.period()
    }

    pub closed spec fn period(&self) -> nat {
        self.period_ms as nat
    }

    pub closed spec fn elapsed(&self) -> nat {
        self.elapsed_ms as nat
    }

    /// A timer of the given period that has not run yet.
    pub fn new(period_ms: u64) -> (t: BotTimer)
        requires
            period_ms > 0,
        ensures
            t.wf(),
            t.period() == period_ms,
            t.elapsed() == 0,
    {
        BotTimer { period_ms, elapsed_ms: 0 }
    }

    pub fn period_ms(&self) -> (r: u64)
        ensures
            r == self.period(),
    {
        self.period_ms
    }

    pub fn elapsed_ms(&self) -> (r: u64)
        ensures
            r == self.elapsed(),
    {
        self.elapsed_ms
    }

    /// Lets `delta_ms` pass. Returns whether a period was completed; the time
    /// run wraps round the period, and a tick completes at most one move
    /// however long it was.
    pub fn tick(&mut self, delta_ms: u64) -> (fired: bool)
        requires
            old(self).wf(),
        ensures
            final(self).wf(),
            final(self).period() == old(self).period(),
            fired == timer_fires(old(self).elapsed(), delta_ms as nat, old(self).period()),
            final(self).elapsed() == timer_after(
                old(self).elapsed(),
                delta_ms as nat,
                old(self).period(),
            ),
    {
        let remaining: u64 = self.period_ms - self.elapsed_ms;
        if delta_ms >= remaining {
            let over: u64 = delta_ms - remaining;
            let e: u64 = self.elapsed_ms;
            let p: u64 = self.period_ms;
            assert(((e + delta_ms) as int) % (p as int) == (over as int) % (p as int)) by {
                vstd::arithmetic::div_mod::lemma_mod_add_multiples_vanish(over as int, p as int);
            }
            self.elapsed_ms = over % self.period_ms;
            true
        } else {
            proof {
                vstd::arithmetic::div_mod::lemma_small_mod(
                    (self.elapsed_ms + delta_ms) as nat,
                    self.period_ms as nat,
                );
            }
            self.elapsed_ms = self.elapsed_ms + delta_ms;
            false
        }
    }
}

} // verus!
