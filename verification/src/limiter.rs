//! A bounded pool of admission slots.

use vstd::prelude::*;

verus! {

/// Counts how many of a fixed number of admission slots are taken.
///
/// A caller that is refused a slot waits for a release and asks again; the
/// limiter itself never blocks and never fails.
pub struct ConcurrencyLimiter {
    capacity: usize,
    in_use: usize,
}

impl ConcurrencyLimiter {
    /// The number of slots the limiter was made with.
    pub closed spec fn capacity(&self) -> nat {
        self.capacity as nat
    }

    /// The number of slots that are taken.
    pub closed spec fn in_use(&self) -> nat {
        self.in_use as nat
    }

    /// No more slots are taken than exist.
    pub closed spec fn well_formed(&self) -> bool {
        self.in_use <= self.capacity
    }

    /// The number of slots that are free.
    pub open spec fn available(&self) -> nat
        recommends
            self.well_formed(),
    {
        (self.capacity() - self.in_use()) as nat
    }

    /// A limiter with `capacity` free slots.
    pub fn new(capacity: usize) -> (limiter: Self)
        ensures
            limiter.well_formed(),
            limiter.capacity() == capacity,
            limiter.in_use() == 0,
    {
        ConcurrencyLimiter { capacity, in_use: 0 }
    }

    /// Takes a slot if one is free, and says whether it did.
    pub fn try_acquire(&mut self) -> (granted: bool)
        requires
            old(self).well_formed(),
        ensures
            final(self).well_formed(),
            final(self).capacity() == old(self).capacity(),
            granted == (old(self).in_use() < old(self).capacity()),
            granted == (old(self).available() > 0),
            granted ==> final(self).in_use() == old(self).in_use() + 1,
            granted ==> final(self).available() == old(self).available() - 1,
            !granted ==> final(self).in_use() == old(self).in_use(),
    {
        if self.in_use < self.capacity {
            self.in_use = self.in_use + 1;
            true
        } else {
            false
        }
    }

    /// Gives a slot back, and says whether one was taken at all.
    pub fn release(&mut self) -> (released: bool)
        requires
            old(self).well_formed(),
        ensures
            final(self).well_formed(),
            final(self).capacity() == old(self).capacity(),
            released == (old(self).in_use() > 0),
            released ==> final(self).in_use() == old(self).in_use() - 1,
            released ==> final(self).available() == old(self).available() + 1,
            !released ==> final(self).in_use() == old(self).in_use(),
    {
        if self.in_use > 0 {
            self.in_use = self.in_use - 1;
            true
        } else {
            false
        }
    }

    /// The number of slots the limiter was made with.
    pub fn limit(&self) -> (n: usize)
        ensures
            n == self.capacity(),
    {
        self.capacity
    }

    /// The number of slots that are taken.
    pub fn held(&self) -> (n: usize)
        ensures
            n == self.in_use(),
    {
        self.in_use
    }
}

/// However slots are acquired and released, the number taken never exceeds
/// the number the limiter was made with.
pub proof fn lemma_never_over_capacity(limiter: ConcurrencyLimiter)
    requires
        limiter.well_formed(),
    ensures
        limiter.in_use() <= limiter.capacity(),
        limiter.in_use() + limiter.available() == limiter.capacity(),
{
}

} // verus!
