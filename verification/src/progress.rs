//! The user-visible progress count: how many of the missing items have been
//! captured. It only reports; no correctness rests on it.

use vstd::prelude::*;

verus! {

/// Counts captured items, monotonically from 0 up to the number of missing
/// items.
pub struct ProgressCounter {
    captured: usize,
    total: usize,
}

impl ProgressCounter {
    pub closed spec fn captured(&self) -> nat {
        self.captured as nat
    }

    pub closed spec fn total(&self) -> nat {
        self.total as nat
    }

    pub open spec fn wf(&self) -> bool {
        self.captured() <= self.total()
    }

    /// A fresh counter for a run with `total` missing items.
    pub fn new(total: usize) -> (c: ProgressCounter)
        ensures
            c.wf(),
            c.captured() == 0,
            c.total() == total,
    {
        ProgressCounter { captured: 0, total }
    }

    /// One item finished: the count moves up by exactly one.
    pub fn increment(&mut self)
        requires
            old(self).wf(),
            old(self).captured() < old(self).total(),
        ensures
            final(self).wf(),
            final(self).captured() == old(self).captured() + 1,
            final(self).total() == old(self).total(),
    {
        self.captured = self.captured + 1;
    }

    /// The pair to report to the operator: `captured/total`.
    pub fn report(&self) -> (r: (usize, usize))
        ensures
            r.0 == self.captured(),
            r.1 == self.total(),
    {
        (self.captured, self.total)
    }
}

} // verus!
