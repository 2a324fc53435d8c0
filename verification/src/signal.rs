//! One-shot flags shared by the sessions of a command.

use vstd::prelude::*;

verus! {

/// A latch that fires once. Of all attempts to fire it, exactly the first
/// succeeds.
#[derive(Debug)]
pub struct OnceLatch {
    fired: bool,
}

impl OnceLatch {
    /// Whether the latch has fired.
    pub closed spec fn has_fired(&self) -> bool {
        self.fired
    }

    /// A latch that has not fired.
    pub fn new() -> (latch: Self)
        ensures
            !latch.has_fired(),
    {
        OnceLatch { fired: false }
    }

    /// Fires the latch, and says whether this attempt was the first.
    pub fn try_fire(&mut self) -> (first: bool)
        ensures
            final(self).has_fired(),
            first == !old(self).has_fired(),
    {
        let first: bool = !self.fired;
        self.fired = true;
        first
    }

    /// Whether the latch has fired.
    pub fn fired(&self) -> (fired: bool)
        ensures
            fired == self.has_fired(),
    {
        self.fired
    }
}

/// The shutdown flag of a command: unset at first, set at most once, and set
/// for good. An observer that looks after the flag was set finds it set,
/// however late it looks.
#[derive(Debug)]
pub struct ShutdownSignal {
    latch: OnceLatch,
}

impl ShutdownSignal {
    /// Whether shutdown has been signalled.
    pub closed spec fn is_set(&self) -> bool {
        self.latch.has_fired()
    }

    /// A signal that is not set.
    pub fn new() -> (signal: Self)
        ensures
            !signal.is_set(),
    {
        ShutdownSignal { latch: OnceLatch::new() }
    }

    /// Sets the signal, and says whether this call is the one that set it.
    pub fn raise(&mut self) -> (first: bool)
        ensures
            final(self).is_set(),
            first == !old(self).is_set(),
    {
        self.latch.try_fire()
    }

    /// Whether shutdown has been signalled.
    pub fn raised(&self) -> (set: bool)
        ensures
            set == self.is_set(),
    {
        self.latch.fired()
    }
}

/// What one call of [`ShutdownSignal::raise`] does: it leaves the signal set
/// and reports whether it was unset before.
pub open spec fn raise_relates(before: ShutdownSignal, after: ShutdownSignal, first: bool) -> bool {
    after.is_set() && first == !before.is_set()
}

/// Of two calls that set the signal one after the other, the second never
/// reports that it was the first: the signal goes from unset to set at most
/// once.
pub proof fn lemma_signal_set_at_most_once(
    start: ShutdownSignal,
    middle: ShutdownSignal,
    end: ShutdownSignal,
    first: bool,
    second: bool,
)
    requires
        raise_relates(start, middle, first),
        raise_relates(middle, end, second),
    ensures
        !second,
        end.is_set(),
{
}

} // verus!
