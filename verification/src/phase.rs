//! The lifecycle of one session runner.

use vstd::prelude::*;

verus! {

/// Where a session runner stands. A runner only ever moves forward through
/// these phases and never returns to one it has left.
#[derive(Clone, Copy, Debug, PartialEq, Eq, Structural)]
pub enum RunnerPhase {
    /// Holding an admission slot and establishing its connection.
    Connecting,
    /// Connected and doing its work.
    Active,
    /// Leaving the session.
    Draining,
    /// Finished; its admission slot is free again.
    Terminated,
}

impl RunnerPhase {
    /// The position of the phase in the lifecycle.
    pub open spec fn rank(self) -> nat {
        match self {
            RunnerPhase::Connecting => 0,
            RunnerPhase::Active => 1,
            RunnerPhase::Draining => 2,
            RunnerPhase::Terminated => 3,
        }
    }

    /// Whether a runner in this phase may move to `next`: only forward.
    pub open spec fn may_become(self, next: RunnerPhase) -> bool {
        self.rank() < next.rank()
    }

    /// Whether a runner in this phase still holds its admission slot.
    pub open spec fn is_live(self) -> bool {
        self != RunnerPhase::Terminated
    }

    /// The position of the phase in the lifecycle.
    pub fn position(self) -> (r: u8)
        ensures
            r == self.rank(),
    {
        match self {
            RunnerPhase::Connecting => 0,
            RunnerPhase::Active => 1,
            RunnerPhase::Draining => 2,
            RunnerPhase::Terminated => 3,
        }
    }

    /// Whether a runner in this phase may move to `next`.
    pub fn can_become(self, next: RunnerPhase) -> (r: bool)
        ensures
            r == self.may_become(next),
    {
        self.position() < next.position()
    }
}

/// Moving forward is transitive and never leads back: no phase is revisited.
pub proof fn lemma_phases_one_directional(a: RunnerPhase, b: RunnerPhase, c: RunnerPhase)
    ensures
        !a.may_become(a),
        a.may_become(b) ==> !b.may_become(a),
        a.may_become(b) && b.may_become(c) ==> a.may_become(c),
        !RunnerPhase::Terminated.may_become(a),
{
}

} // verus!
