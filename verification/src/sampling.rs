//! Sampling of what happens on every frame, so that reports of it come at a
//! rate that can be read.

use vstd::prelude::*;
use vstd::arithmetic::div_mod::{lemma_mod_self_0, lemma_small_mod};

verus! {

/// Picks out one call in every `period` calls.
#[derive(Clone, Copy, Debug, PartialEq, Eq, Structural)]
pub struct Sampler {
    pub period: u32,
    /// Calls since the last one that was picked.
    pub count: u32,
}

impl Sampler {
    /// The count stays below the period.
    pub open spec fn wf(self) -> bool {
        self.count < self.period
    }

    /// A sampler that picks the call number `period`, and every call number
    /// that is a multiple of it.
    pub fn new(period: u32) -> (sampler: Sampler)
        requires
            period > 0,
        ensures
            sampler == (Sampler { period, count: 0 }),
            sampler.wf(),
    {
        Sampler { period, count: 0 }
    }

    /// Counts one call and says whether it is picked: the call that makes
    /// the count reach the period is, and the count starts again with it.
    pub fn sample(&mut self) -> (picked: bool)
        requires
            old(self).wf(),
        ensures
            final(self).wf(),
            final(self).period == old(self).period,
            final(self).count == (old(self).count + 1) % (old(self).period as int),
            picked == (old(self).count + 1 == old(self).period),
            picked == (final(self).count == 0),
    {
        if self.count + 1 == self.period {
            proof {
                lemma_mod_self_0(self.period as int);
            }
            self.count = 0;
            true
        } else {
            proof {
                lemma_small_mod((self.count + 1) as nat, self.period as nat);
            }
            self.count = self.count + 1;
            false
        }
    }
}

} // verus!
