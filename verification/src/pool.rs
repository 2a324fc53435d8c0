//! Admission of a fixed number of sessions under a concurrency cap.
//!
//! The pool decides when the next session may start and which id it gets,
//! and follows every started session through its lifecycle. The program
//! around it starts the sessions and reports their progress back.

use crate::error::ConfigError;
use crate::limiter::{lemma_never_over_capacity, ConcurrencyLimiter};
use crate::phase::RunnerPhase;
use vstd::prelude::*;

verus! {

/// How many entries of `phases` equal `phase`.
pub open spec fn tally(phases: Seq<RunnerPhase>, phase: RunnerPhase) -> nat
    decreases phases.len(),
{
    if phases.len() == 0 {
        0
    } else {
        tally(phases.drop_last(), phase) + if phases.last() == phase {
            1nat
        } else {
            0nat
        }
    }
}

/// The ids `1, 2, .., count` in the order in which they are given out.
pub open spec fn first_ids(count: nat) -> Seq<u32> {
    Seq::new(count, |i: int| (i + 1) as u32)
}

/// The number of entries of `phases` that are not terminated.
pub open spec fn live_of(phases: Seq<RunnerPhase>) -> nat {
    (phases.len() - tally(phases, RunnerPhase::Terminated)) as nat
}

/// One thing that happens to a pool: the program asks for the next step, or
/// it reports that a session has reached a phase.
pub enum PoolInput {
    Step,
    Progress { session_id: u32, phase: RunnerPhase },
}

/// Whether a pool with these phases launches a session when asked for its
/// next step: one is left to start and a slot is free.
pub open spec fn launches(parallel: nat, concurrency: nat, phases: Seq<RunnerPhase>) -> bool {
    phases.len() < parallel && live_of(phases) < concurrency
}

/// The phases of a pool after `input`. A step that launches adds a
/// connecting session; accepted progress moves one session forward;
/// anything else changes nothing.
pub open spec fn phases_after(
    parallel: nat,
    concurrency: nat,
    phases: Seq<RunnerPhase>,
    input: PoolInput,
) -> Seq<RunnerPhase> {
    match input {
        PoolInput::Step => if launches(parallel, concurrency, phases) {
            phases.push(RunnerPhase::Connecting)
        } else {
            phases
        },
        PoolInput::Progress { session_id, phase } => if 1 <= session_id <= phases.len()
            && phases[session_id - 1].may_become(phase) {
            phases.update(session_id - 1, phase)
        } else {
            phases
        },
    }
}

/// The phases of a fresh pool after the inputs of a run, in order.
pub open spec fn phases_along(parallel: nat, concurrency: nat, inputs: Seq<PoolInput>) -> Seq<
    RunnerPhase,
>
    decreases inputs.len(),
{
    if inputs.len() == 0 {
        Seq::empty()
    } else {
        phases_after(
            parallel,
            concurrency,
            phases_along(parallel, concurrency, inputs.drop_last()),
            inputs.last(),
        )
    }
}

/// The session ids that a fresh pool gives out along a run, in order.
pub open spec fn ids_along(parallel: nat, concurrency: nat, inputs: Seq<PoolInput>) -> Seq<u32>
    decreases inputs.len(),
{
    if inputs.len() == 0 {
        Seq::empty()
    } else {
        let before = phases_along(parallel, concurrency, inputs.drop_last());
        let ids = ids_along(parallel, concurrency, inputs.drop_last());
        if inputs.last() is Step && launches(parallel, concurrency, before) {
            ids.push((before.len() + 1) as u32)
        } else {
            ids
        }
    }
}

proof fn lemma_tally_push(phases: Seq<RunnerPhase>, added: RunnerPhase, phase: RunnerPhase)
    ensures
        tally(phases.push(added), phase) == tally(phases, phase) + if added == phase {
            1nat
        } else {
            0nat
        },
{
    assert(phases.push(added).drop_last() =~= phases);
}

proof fn lemma_tally_update(
    phases: Seq<RunnerPhase>,
    index: int,
    value: RunnerPhase,
    phase: RunnerPhase,
)
    requires
        0 <= index < phases.len(),
    ensures
        tally(phases.update(index, value), phase) + (if phases[index] == phase {
            1nat
        } else {
            0nat
        }) == tally(phases, phase) + (if value == phase {
            1nat
        } else {
            0nat
        }),
    decreases phases.len(),
{
    let updated = phases.update(index, value);
    if index == phases.len() - 1 {
        assert(updated.drop_last() =~= phases.drop_last());
    } else {
        assert(updated.drop_last() =~= phases.drop_last().update(index, value));
        lemma_tally_update(phases.drop_last(), index, value, phase);
    }
}

proof fn lemma_tally_disjoint(phases: Seq<RunnerPhase>, a: RunnerPhase, b: RunnerPhase)
    requires
        a != b,
    ensures
        tally(phases, a) + tally(phases, b) <= phases.len(),
    decreases phases.len(),
{
    if phases.len() > 0 {
        lemma_tally_disjoint(phases.drop_last(), a, b);
    }
}

/// What the pool asks of the program next.
#[derive(Clone, Copy, Debug, PartialEq, Eq, Structural)]
pub enum PoolStep {
    /// Start the session with this id; it holds an admission slot from now on.
    Launch { session_id: u32 },
    /// No session may start now; wait until a started one reports progress.
    Wait,
    /// Every session has been started and has terminated.
    Done,
}

/// The sessions of one command: how many there are to be, how many may hold
/// a slot at once, and the phase of each one started so far.
pub struct SessionPool {
    parallel: u32,
    limiter: ConcurrencyLimiter,
    phases: Vec<RunnerPhase>,
}

impl SessionPool {
    /// The number of sessions the command asks for.
    pub closed spec fn parallel(&self) -> nat {
        self.parallel as nat
    }

    /// The admission cap.
    pub closed spec fn concurrency(&self) -> nat {
        self.limiter.capacity()
    }

    /// The phase of each started session; entry `i` belongs to session `i + 1`.
    pub closed spec fn phases(&self) -> Seq<RunnerPhase> {
        self.phases@
    }

    /// The number of sessions started so far.
    pub open spec fn launched(&self) -> nat {
        self.phases().len()
    }

    /// The ids given out so far, in order.
    pub open spec fn launched_ids(&self) -> Seq<u32> {
        first_ids(self.launched())
    }

    /// The number of started sessions that have not terminated.
    pub open spec fn live(&self) -> nat {
        live_of(self.phases())
    }

    /// The number of sessions that are establishing their connection.
    pub open spec fn connecting(&self) -> nat {
        tally(self.phases(), RunnerPhase::Connecting)
    }

    /// Whether every session has been started and has terminated.
    pub open spec fn is_done(&self) -> bool {
        self.launched() == self.parallel() && self.live() == 0
    }

    /// The pool's invariant: both counts are positive, no more sessions are
    /// started than asked for, and exactly the live sessions hold a slot.
    pub closed spec fn well_formed(&self) -> bool {
        &&& self.limiter.well_formed()
        &&& self.limiter.capacity() >= 1
        &&& self.parallel >= 1
        &&& self.phases@.len() <= self.parallel
        &&& self.limiter.in_use() + tally(self.phases@, RunnerPhase::Terminated)
            == self.phases@.len()
    }

    /// The step the pool takes in a given state.
    pub open spec fn step_of(&self) -> PoolStep {
        if self.launched() < self.parallel() && self.live() < self.concurrency() {
            PoolStep::Launch { session_id: (self.launched() + 1) as u32 }
        } else if self.live() > 0 {
            PoolStep::Wait
        } else {
            PoolStep::Done
        }
    }

    /// A pool for `parallel` sessions of which at most `concurrency` hold a
    /// slot at once. Both must be positive.
    pub fn new(parallel: u32, concurrency: usize) -> (r: Result<SessionPool, ConfigError>)
        ensures
            parallel == 0 ==> r == Err::<SessionPool, ConfigError>(ConfigError::ZeroParallel),
            parallel > 0 && concurrency == 0 ==> r == Err::<SessionPool, ConfigError>(
                ConfigError::ZeroConcurrency,
            ),
            parallel > 0 && concurrency > 0 ==> r is Ok && r->Ok_0.well_formed()
                && r->Ok_0.parallel() == parallel && r->Ok_0.concurrency() == concurrency
                && r->Ok_0.phases() == Seq::<RunnerPhase>::empty(),
    {
        if parallel == 0 {
            Err(ConfigError::ZeroParallel)
        } else if concurrency == 0 {
            Err(ConfigError::ZeroConcurrency)
        } else {
            Ok(SessionPool { parallel, limiter: ConcurrencyLimiter::new(concurrency), phases: Vec::new() })
        }
    }

    /// Decides what happens next. A session is launched whenever one is left
    /// to start and a slot is free; its id is one more than the number
    /// started before it.
    pub fn next_step(&mut self) -> (step: PoolStep)
        requires
            old(self).well_formed(),
        ensures
            final(self).well_formed(),
            final(self).parallel() == old(self).parallel(),
            final(self).concurrency() == old(self).concurrency(),
            step == old(self).step_of(),
            final(self).phases() == phases_after(
                old(self).parallel(),
                old(self).concurrency(),
                old(self).phases(),
                PoolInput::Step,
            ),
            step is Launch ==> final(self).phases() == old(self).phases().push(
                RunnerPhase::Connecting,
            ),
            step is Launch ==> final(self).launched_ids() == old(self).launched_ids().push(
                step->session_id,
            ),
            !(step is Launch) ==> final(self).phases() == old(self).phases(),
    {
        let started: usize = self.phases.len();
        if started < self.parallel as usize {
            if self.limiter.try_acquire() {
                self.phases.push(RunnerPhase::Connecting);
                proof {
                    lemma_tally_push(
                        old(self).phases@,
                        RunnerPhase::Connecting,
                        RunnerPhase::Terminated,
                    );
                    assert(final(self).launched_ids() =~= old(self).launched_ids().push(
                        (started + 1) as u32,
                    ));
                }
                return PoolStep::Launch { session_id: (started + 1) as u32 };
            }
        }
        if self.limiter.held() > 0 {
            PoolStep::Wait
        } else {
            PoolStep::Done
        }
    }

    /// Records that session `session_id` has reached phase `to`. The report
    /// is accepted if the session has been started and `to` lies ahead of
    /// its current phase; a session that terminates frees its slot.
    pub fn advance(&mut self, session_id: u32, to: RunnerPhase) -> (accepted: bool)
        requires
            old(self).well_formed(),
        ensures
            final(self).well_formed(),
            final(self).parallel() == old(self).parallel(),
            final(self).concurrency() == old(self).concurrency(),
            accepted == (1 <= session_id <= old(self).launched() && old(self).phases()[session_id
                - 1].may_become(to)),
            final(self).phases() == phases_after(
                old(self).parallel(),
                old(self).concurrency(),
                old(self).phases(),
                PoolInput::Progress { session_id, phase: to },
            ),
            accepted ==> final(self).phases() == old(self).phases().update(session_id - 1, to),
            !accepted ==> final(self).phases() == old(self).phases(),
            accepted ==> old(self).phases()[session_id - 1].is_live(),
            accepted && !to.is_live() ==> final(self).live() + 1 == old(self).live(),
            !(accepted && !to.is_live()) ==> final(self).live() == old(self).live(),
    {
        if session_id == 0 || session_id as usize > self.phases.len() {
            return false;
        }
        let index: usize = (session_id - 1) as usize;
        let current: RunnerPhase = self.phases[index];
        if !current.can_become(to) {
            return false;
        }
        proof {
            lemma_tally_update(self.phases@, index as int, to, RunnerPhase::Terminated);
            lemma_tally_disjoint(
                self.phases@.update(index as int, to),
                RunnerPhase::Terminated,
                RunnerPhase::Connecting,
            );
        }
        self.phases.set(index, to);
        if to.position() == RunnerPhase::Terminated.position() {
            let released: bool = self.limiter.release();
            assert(released);
        }
        true
    }

    /// The phase of session `session_id`, if it has been started.
    pub fn phase_of(&self, session_id: u32) -> (phase: Option<RunnerPhase>)
        ensures
            phase == if 1 <= session_id <= self.launched() {
                Some(self.phases()[session_id - 1])
            } else {
                None
            },
    {
        if session_id == 0 || session_id as usize > self.phases.len() {
            None
        } else {
            Some(self.phases[(session_id - 1) as usize])
        }
    }

    /// The number of sessions started so far.
    pub fn launched_count(&self) -> (n: usize)
        ensures
            n == self.launched(),
    {
        self.phases.len()
    }

    /// The number of started sessions that have not terminated.
    pub fn in_flight(&self) -> (n: usize)
        requires
            self.well_formed(),
        ensures
            n == self.live(),
            n <= self.concurrency(),
    {
        proof {
            lemma_never_over_capacity(self.limiter);
        }
        self.limiter.held()
    }

    /// The number of sessions that are establishing their connection.
    pub fn connecting_now(&self) -> (n: usize)
        requires
            self.well_formed(),
        ensures
            n == self.connecting(),
            n <= self.concurrency(),
    {
        let mut n: usize = 0;
        let mut i: usize = 0;
        while i < self.phases.len()
            invariant
                i <= self.phases.len(),
                n == tally(self.phases@.take(i as int), RunnerPhase::Connecting),
                n <= i,
            decreases self.phases.len() - i,
        {
            proof {
                assert(self.phases@.take(i + 1).drop_last() =~= self.phases@.take(i as int));
            }
            if self.phases[i].position() == RunnerPhase::Connecting.position() {
                n = n + 1;
            }
            i = i + 1;
        }
        proof {
            assert(self.phases@.take(i as int) =~= self.phases@);
            lemma_connecting_within_cap(*self);
        }
        n
    }

    /// Whether every session has been started and has terminated.
    pub fn finished(&self) -> (done: bool)
        requires
            self.well_formed(),
        ensures
            done == self.is_done(),
    {
        self.phases.len() == self.parallel as usize && self.limiter.held() == 0
    }
}

/// A well-formed pool is one for at least one session under a cap of at
/// least one, and has started no more sessions than it is for.
pub proof fn lemma_counts_positive(pool: SessionPool)
    requires
        pool.well_formed(),
    ensures
        pool.parallel() >= 1,
        pool.concurrency() >= 1,
        pool.launched() <= pool.parallel(),
        pool.parallel() <= u32::MAX,
{
}

/// The live sessions are those whose phase is live: a session that is added
/// counts if its phase is live, and one that terminates counts no more.
pub proof fn lemma_live_counts_live_phases(phases: Seq<RunnerPhase>, phase: RunnerPhase, at: int)
    requires
        0 <= at < phases.len(),
    ensures
        live_of(phases.push(phase)) == live_of(phases) + if phase.is_live() {
            1nat
        } else {
            0nat
        },
        live_of(phases.update(at, phase)) + (if phases[at].is_live() {
            1nat
        } else {
            0nat
        }) == live_of(phases) + (if phase.is_live() {
            1nat
        } else {
            0nat
        }),
        live_of(phases) <= phases.len(),
{
    lemma_tally_push(phases, phase, RunnerPhase::Terminated);
    lemma_tally_update(phases, at, phase, RunnerPhase::Terminated);
    lemma_tally_disjoint(phases, RunnerPhase::Terminated, RunnerPhase::Connecting);
    lemma_tally_disjoint(phases.push(phase), RunnerPhase::Terminated, RunnerPhase::Connecting);
    lemma_tally_disjoint(
        phases.update(at, phase),
        RunnerPhase::Terminated,
        RunnerPhase::Connecting,
    );
}

/// At no point do more sessions establish a connection, or hold a slot, than
/// the admission cap allows.
pub proof fn lemma_connecting_within_cap(pool: SessionPool)
    requires
        pool.well_formed(),
    ensures
        pool.connecting() <= pool.live(),
        pool.live() <= pool.concurrency(),
{
    lemma_tally_disjoint(pool.phases(), RunnerPhase::Connecting, RunnerPhase::Terminated);
    lemma_never_over_capacity(pool.limiter);
}

/// The ids given out are `1, 2, ..` without gap or repetition, and none
/// exceeds the number of sessions asked for.
pub proof fn lemma_ids_in_sequence(pool: SessionPool)
    requires
        pool.well_formed(),
    ensures
        pool.launched() <= pool.parallel(),
        pool.launched_ids().no_duplicates(),
        forall|id: u32|
            pool.launched_ids().contains(id) <==> 1 <= id <= pool.launched(),
{
    let ids = pool.launched_ids();
    assert forall|id: u32| 1 <= id <= pool.launched() implies ids.contains(id) by {
        assert(ids[id - 1] == id);
    }
}

/// Once every session has been started, the ids used are exactly
/// `1, .., parallel`, each exactly once.
pub proof fn lemma_all_ids_used_once(pool: SessionPool)
    requires
        pool.well_formed(),
        pool.launched() == pool.parallel(),
    ensures
        pool.launched_ids().len() == pool.parallel(),
        pool.launched_ids().no_duplicates(),
        pool.launched_ids().to_set() =~= Set::new(|id: u32| 1 <= id <= pool.parallel()),
{
    lemma_ids_in_sequence(pool);
}

/// A pool is done only when every session has been started, and a pool that
/// is not done never asks the program to stop.
pub proof fn lemma_done_means_all_ran(pool: SessionPool)
    requires
        pool.well_formed(),
    ensures
        pool.step_of() is Done <==> pool.is_done(),
        pool.step_of() is Launch ==> pool.step_of()->session_id == pool.launched() + 1,
{
    lemma_connecting_within_cap(pool);
}

/// A session that is establishing its connection is live: a pool with one
/// is not done.
pub proof fn lemma_live_counts_connecting(pool: SessionPool)
    requires
        pool.well_formed(),
        pool.launched() > 0,
        pool.phases().last() == RunnerPhase::Connecting,
    ensures
        pool.live() > 0,
        pool.connecting() > 0,
{
    lemma_tally_disjoint(pool.phases(), RunnerPhase::Connecting, RunnerPhase::Terminated);
}

/// One input keeps what holds along a run: from phases that respect the
/// number of sessions and the admission cap, it leads to phases that do.
pub proof fn lemma_cap_kept_by_one_input(
    parallel: nat,
    concurrency: nat,
    phases: Seq<RunnerPhase>,
    input: PoolInput,
)
    requires
        phases.len() <= parallel,
        live_of(phases) <= concurrency,
    ensures
        phases_after(parallel, concurrency, phases, input).len() <= parallel,
        live_of(phases_after(parallel, concurrency, phases, input)) <= concurrency,
        tally(phases_after(parallel, concurrency, phases, input), RunnerPhase::Connecting)
            <= live_of(phases_after(parallel, concurrency, phases, input)),
{
    lemma_tally_disjoint(phases, RunnerPhase::Connecting, RunnerPhase::Terminated);
    match input {
        PoolInput::Step => {
            if launches(parallel, concurrency, phases) {
                lemma_tally_push(phases, RunnerPhase::Connecting, RunnerPhase::Terminated);
            }
        },
        PoolInput::Progress { session_id, phase } => {
            if 1 <= session_id <= phases.len() && phases[session_id - 1].may_become(phase) {
                lemma_tally_update(phases, session_id - 1, phase, RunnerPhase::Terminated);
            }
        },
    }
    lemma_tally_disjoint(
        phases_after(parallel, concurrency, phases, input),
        RunnerPhase::Connecting,
        RunnerPhase::Terminated,
    );
}

/// Along every run of a fresh pool, whatever the program asks and reports
/// and in whatever order, no more sessions are started than asked for, no
/// more are live than the admission cap allows, and no more are
/// establishing a connection than are live.
pub proof fn lemma_cap_holds_along_every_run(
    parallel: nat,
    concurrency: nat,
    inputs: Seq<PoolInput>,
)
    ensures
        phases_along(parallel, concurrency, inputs).len() <= parallel,
        live_of(phases_along(parallel, concurrency, inputs)) <= concurrency,
        tally(phases_along(parallel, concurrency, inputs), RunnerPhase::Connecting) <= live_of(
            phases_along(parallel, concurrency, inputs),
        ),
    decreases inputs.len(),
{
    if inputs.len() > 0 {
        lemma_cap_holds_along_every_run(parallel, concurrency, inputs.drop_last());
        lemma_cap_kept_by_one_input(
            parallel,
            concurrency,
            phases_along(parallel, concurrency, inputs.drop_last()),
            inputs.last(),
        );
    } else {
        lemma_tally_disjoint(
            Seq::<RunnerPhase>::empty(),
            RunnerPhase::Connecting,
            RunnerPhase::Terminated,
        );
    }
}

/// Along every run of a fresh pool the ids given out are `1, 2, ..` in
/// order, one for each session started: none is skipped and none is given
/// twice. Once every session has been started they are exactly
/// `1, .., parallel`.
pub proof fn lemma_ids_along_every_run(parallel: nat, concurrency: nat, inputs: Seq<PoolInput>)
    requires
        parallel <= u32::MAX,
    ensures
        ids_along(parallel, concurrency, inputs) == first_ids(
            phases_along(parallel, concurrency, inputs).len(),
        ),
        ids_along(parallel, concurrency, inputs).no_duplicates(),
        phases_along(parallel, concurrency, inputs).len() == parallel ==> ids_along(
            parallel,
            concurrency,
            inputs,
        ).to_set() =~= Set::new(|id: u32| 1 <= id <= parallel),
    decreases inputs.len(),
{
    let phases = phases_along(parallel, concurrency, inputs);
    let ids = ids_along(parallel, concurrency, inputs);
    lemma_cap_holds_along_every_run(parallel, concurrency, inputs);
    if inputs.len() > 0 {
        lemma_ids_along_every_run(parallel, concurrency, inputs.drop_last());
        lemma_cap_holds_along_every_run(parallel, concurrency, inputs.drop_last());
    }
    assert(ids =~= first_ids(phases.len()));
    assert forall|id: u32| 1 <= id <= phases.len() implies ids.contains(id) by {
        assert(ids[id - 1] == id);
    }
}

} // verus!
