//! Coordinated shutdown of the parallel sessions of a subscribe command.
//!
//! The coordinator admits the sessions as a pool does, and watches three
//! things that end the command: an interrupt from outside, a session that
//! lost its transport, and the natural end of every session. The first of
//! them sets the shutdown signal, once. Sessions that are still to start
//! are started all the same, each as a slot comes free; such a session
//! finds the signal set and leaves. The coordinator returns once every
//! session has been started and has terminated, or once the time allowed
//! for that is over.

use crate::diagnostic::Diagnostic;
use crate::error::ConfigError;
use crate::phase::RunnerPhase;
use crate::pool::{
    first_ids, launches, lemma_cap_kept_by_one_input, lemma_connecting_within_cap,
    lemma_counts_positive, live_of,
    phases_after, tally, PoolInput, PoolStep, SessionPool,
};
use crate::signal::ShutdownSignal;
use crate::standing::DisconnectEvent;
use vstd::prelude::*;

verus! {

/// How many seconds the sessions of a command are given to terminate once
/// shutdown is signalled. When they are over the program hands in
/// [`CoordinatorEvent::DrainExpired`].
pub const DRAIN_SECONDS: u64 = 10;

/// What the coordinator is told.
#[derive(Debug, PartialEq, Eq)]
pub enum CoordinatorEvent {
    /// The process was asked to stop.
    Interrupt,
    /// A session lost its transport.
    Disconnect(DisconnectEvent),
    /// A session reached a phase.
    Progress { session_id: u32, phase: RunnerPhase },
    /// The time allowed for sessions to terminate after the signal is over.
    DrainExpired,
}

/// What the coordinator asks of the program next.
#[derive(Clone, Copy, Debug, PartialEq, Eq, Structural)]
pub enum CoordinatorStep {
    /// Start the session with this id.
    Launch { session_id: u32 },
    /// Wait for the next event.
    Wait,
    /// Return to the caller.
    Return,
}

/// The coordinator's answer to an event.
#[derive(Debug, PartialEq, Eq)]
pub struct Reaction {
    /// The line to show, if any.
    pub line: Option<Diagnostic>,
    /// Whether this event set the shutdown signal. Where it did, the
    /// program tells every session, those still to start included, that
    /// shutdown is signalled. This happens once in the life of a
    /// coordinator.
    pub raised: bool,
}

/// The shutdown coordinator of one command.
pub struct ShutdownCoordinator {
    pool: SessionPool,
    signal: ShutdownSignal,
    drain_over: bool,
}

/// The line that goes with the event that set the signal.
pub open spec fn trigger_line(event: CoordinatorEvent) -> Option<Diagnostic> {
    match event {
        CoordinatorEvent::Interrupt => Some(Diagnostic::Exiting),
        CoordinatorEvent::Disconnect(_) => Some(Diagnostic::LostConnection),
        _ => None,
    }
}

/// What a coordinator is at a point of its run: the number of sessions
/// asked for, the admission cap, the phase of each started session, whether
/// shutdown has been signalled, and whether the time for draining is over.
pub struct CoordinatorState {
    pub parallel: nat,
    pub concurrency: nat,
    pub phases: Seq<RunnerPhase>,
    pub signalled: bool,
    pub drain_over: bool,
}

/// One thing that happens to a coordinator: the program asks for the next
/// step, or it hands in an event.
pub enum CoordinatorInput {
    Step,
    Event(CoordinatorEvent),
}

/// The state of a coordinator that has done nothing yet.
pub open spec fn fresh_state(parallel: nat, concurrency: nat) -> CoordinatorState {
    CoordinatorState {
        parallel,
        concurrency,
        phases: Seq::empty(),
        signalled: false,
        drain_over: false,
    }
}

/// The step a coordinator takes in a state. It launches while a session is
/// left to start and a slot is free, whether or not shutdown is signalled.
/// Else it waits: before the signal in any case, after it while a session
/// is live or left to start and the time for draining is not over. Else it
/// returns.
pub open spec fn step_for(state: CoordinatorState) -> CoordinatorStep {
    if launches(state.parallel, state.concurrency, state.phases) {
        CoordinatorStep::Launch { session_id: (state.phases.len() + 1) as u32 }
    } else if !state.signalled {
        CoordinatorStep::Wait
    } else if (live_of(state.phases) > 0 || state.phases.len() < state.parallel)
        && !state.drain_over {
        CoordinatorStep::Wait
    } else {
        CoordinatorStep::Return
    }
}

/// The state of a coordinator after `input`. A step launches as a pool
/// does, whether or not shutdown is signalled. An interrupt or a lost
/// transport sets the signal; so does the progress that ends the last
/// session once every session has been started. The time for draining can
/// only run out after the signal.
pub open spec fn state_after(state: CoordinatorState, input: CoordinatorInput) -> CoordinatorState {
    match input {
        CoordinatorInput::Step => CoordinatorState {
            phases: phases_after(state.parallel, state.concurrency, state.phases, PoolInput::Step),
            ..state
        },
        CoordinatorInput::Event(CoordinatorEvent::Interrupt) => CoordinatorState {
            signalled: true,
            ..state
        },
        CoordinatorInput::Event(CoordinatorEvent::Disconnect(_)) => CoordinatorState {
            signalled: true,
            ..state
        },
        CoordinatorInput::Event(CoordinatorEvent::Progress { session_id, phase }) => {
            let phases = phases_after(
                state.parallel,
                state.concurrency,
                state.phases,
                PoolInput::Progress { session_id, phase },
            );
            CoordinatorState {
                phases,
                signalled: state.signalled || (phases.len() == state.parallel && live_of(phases)
                    == 0),
                ..state
            }
        },
        CoordinatorInput::Event(CoordinatorEvent::DrainExpired) => CoordinatorState {
            drain_over: state.drain_over || state.signalled,
            ..state
        },
    }
}

/// Whether `input` sets the signal: the signal was not set and is set
/// after it.
pub open spec fn raises_on(state: CoordinatorState, input: CoordinatorInput) -> bool {
    !state.signalled && state_after(state, input).signalled
}

/// The state of a fresh coordinator after the inputs of a run, in order.
pub open spec fn state_along(parallel: nat, concurrency: nat, inputs: Seq<CoordinatorInput>)
    -> CoordinatorState
    decreases inputs.len(),
{
    if inputs.len() == 0 {
        fresh_state(parallel, concurrency)
    } else {
        state_after(state_along(parallel, concurrency, inputs.drop_last()), inputs.last())
    }
}

/// How often the signal is set along a run of a fresh coordinator.
pub open spec fn raises_along(parallel: nat, concurrency: nat, inputs: Seq<CoordinatorInput>)
    -> nat
    decreases inputs.len(),
{
    if inputs.len() == 0 {
        0
    } else {
        raises_along(parallel, concurrency, inputs.drop_last()) + if raises_on(
            state_along(parallel, concurrency, inputs.drop_last()),
            inputs.last(),
        ) {
            1nat
        } else {
            0nat
        }
    }
}

/// The session ids that a fresh coordinator gives out along a run, in
/// order.
pub open spec fn launched_along(parallel: nat, concurrency: nat, inputs: Seq<CoordinatorInput>)
    -> Seq<u32>
    decreases inputs.len(),
{
    if inputs.len() == 0 {
        Seq::empty()
    } else {
        let before = state_along(parallel, concurrency, inputs.drop_last());
        let ids = launched_along(parallel, concurrency, inputs.drop_last());
        match (inputs.last(), step_for(before)) {
            (CoordinatorInput::Step, CoordinatorStep::Launch { session_id }) => ids.push(
                session_id,
            ),
            _ => ids,
        }
    }
}

impl ShutdownCoordinator {
    /// The sessions of the command.
    pub closed spec fn pool(&self) -> SessionPool {
        self.pool
    }

    /// Whether shutdown has been signalled.
    pub closed spec fn signalled(&self) -> bool {
        self.signal.is_set()
    }

    /// Whether the time allowed for draining is over.
    pub closed spec fn drain_over(&self) -> bool {
        self.drain_over
    }

    /// What the coordinator is at this point of its run.
    pub open spec fn state(&self) -> CoordinatorState {
        CoordinatorState {
            parallel: self.pool().parallel(),
            concurrency: self.pool().concurrency(),
            phases: self.pool().phases(),
            signalled: self.signalled(),
            drain_over: self.drain_over(),
        }
    }

    /// The coordinator's invariant: its pool is well formed, the natural end
    /// of every session has set the signal, and draining cannot be over
    /// before it began.
    pub open spec fn well_formed(&self) -> bool {
        &&& self.pool().well_formed()
        &&& self.pool().is_done() ==> self.signalled()
        &&& self.drain_over() ==> self.signalled()
    }

    /// The step the coordinator takes next.
    pub open spec fn step_of(&self) -> CoordinatorStep {
        step_for(self.state())
    }

    /// A coordinator for `parallel` sessions of which at most `concurrency`
    /// hold a slot at once. Both must be positive.
    pub fn new(parallel: u32, concurrency: usize) -> (r: Result<ShutdownCoordinator, ConfigError>)
        ensures
            parallel == 0 ==> r == Err::<ShutdownCoordinator, ConfigError>(
                ConfigError::ZeroParallel,
            ),
            parallel > 0 && concurrency == 0 ==> r == Err::<ShutdownCoordinator, ConfigError>(
                ConfigError::ZeroConcurrency,
            ),
            parallel > 0 && concurrency > 0 ==> r is Ok && r->Ok_0.well_formed()
                && r->Ok_0.state() == fresh_state(parallel as nat, concurrency as nat),
    {
        match SessionPool::new(parallel, concurrency) {
            Ok(pool) => {
                Ok(ShutdownCoordinator { pool, signal: ShutdownSignal::new(), drain_over: false })
            },
            Err(error) => Err(error),
        }
    }

    /// Decides what happens next, and starts counting the session it asks
    /// the program to launch.
    pub fn next_step(&mut self) -> (step: CoordinatorStep)
        requires
            old(self).well_formed(),
        ensures
            final(self).well_formed(),
            step == old(self).step_of(),
            final(self).state() == state_after(old(self).state(), CoordinatorInput::Step),
            step is Launch ==> final(self).pool().phases() == old(self).pool().phases().push(
                RunnerPhase::Connecting,
            ),
            !(step is Launch) ==> final(self).state() == old(self).state(),
    {
        proof {
            lemma_connecting_within_cap(self.pool);
            lemma_counts_positive(self.pool);
        }
        let admitted: PoolStep = self.pool.next_step();
        match admitted {
            PoolStep::Launch { session_id } => {
                proof {
                    crate::pool::lemma_live_counts_connecting(self.pool);
                }
                CoordinatorStep::Launch { session_id }
            },
            PoolStep::Wait => {
                if self.signal.raised() && self.drain_over {
                    CoordinatorStep::Return
                } else {
                    CoordinatorStep::Wait
                }
            },
            PoolStep::Done => CoordinatorStep::Return,
        }
    }

    /// Takes in an event. The first interrupt, loss of transport or natural
    /// end of every session sets the signal; whatever comes after finds the
    /// signal set and sets nothing.
    pub fn on_event(&mut self, event: CoordinatorEvent) -> (reaction: Reaction)
        requires
            old(self).well_formed(),
        ensures
            final(self).well_formed(),
            final(self).state() == state_after(old(self).state(), CoordinatorInput::Event(event)),
            reaction.raised == raises_on(old(self).state(), CoordinatorInput::Event(event)),
            reaction.line == if reaction.raised {
                trigger_line(event)
            } else {
                None
            },
    {
        match event {
            CoordinatorEvent::Interrupt => {
                let first: bool = self.signal.raise();
                Reaction {
                    line: if first {
                        Some(Diagnostic::Exiting)
                    } else {
                        None
                    },
                    raised: first,
                }
            },
            CoordinatorEvent::Disconnect(_) => {
                let first: bool = self.signal.raise();
                Reaction {
                    line: if first {
                        Some(Diagnostic::LostConnection)
                    } else {
                        None
                    },
                    raised: first,
                }
            },
            CoordinatorEvent::Progress { session_id, phase } => {
                let _accepted: bool = self.pool.advance(session_id, phase);
                if self.pool.finished() {
                    let first: bool = self.signal.raise();
                    Reaction { line: None, raised: first }
                } else {
                    Reaction { line: None, raised: false }
                }
            },
            CoordinatorEvent::DrainExpired => {
                if self.signal.raised() {
                    self.drain_over = true;
                }
                Reaction { line: None, raised: false }
            },
        }
    }

    /// Whether shutdown has been signalled.
    pub fn shutdown_signalled(&self) -> (set: bool)
        ensures
            set == self.signalled(),
    {
        self.signal.raised()
    }

    /// The number of started sessions that have not terminated.
    pub fn in_flight(&self) -> (n: usize)
        requires
            self.well_formed(),
        ensures
            n == self.pool().live(),
            n <= self.pool().concurrency(),
    {
        self.pool.in_flight()
    }

    /// The number of sessions started so far.
    pub fn launched_count(&self) -> (n: usize)
        ensures
            n == self.pool().launched(),
    {
        self.pool.launched_count()
    }

    /// The phase of session `session_id`, if it has been started.
    pub fn phase_of(&self, session_id: u32) -> (phase: Option<RunnerPhase>)
        ensures
            phase == if 1 <= session_id <= self.pool().launched() {
                Some(self.pool().phases()[session_id - 1])
            } else {
                None
            },
    {
        self.pool.phase_of(session_id)
    }
}

/// Once the signal is set it stays set, whatever comes after, and is not
/// set again.
pub proof fn lemma_signal_stays_set(state: CoordinatorState, input: CoordinatorInput)
    requires
        state.signalled,
    ensures
        state_after(state, input).signalled,
        !raises_on(state, input),
{
}

/// The signal does not stop the admission of sessions: a step launches
/// after the signal exactly where it would before it.
pub proof fn lemma_signal_does_not_stop_admission(state: CoordinatorState)
    ensures
        step_for(state) is Launch <==> launches(state.parallel, state.concurrency, state.phases),
        step_for(state) is Launch <==> step_for(
            CoordinatorState { signalled: !state.signalled, ..state },
        ) is Launch,
        state_after(state, CoordinatorInput::Step).phases == phases_after(
            state.parallel,
            state.concurrency,
            state.phases,
            PoolInput::Step,
        ),
{
}

/// Along every run of a fresh coordinator the signal is set at most once,
/// and exactly once if the run has set it: the signal goes from unset to
/// set at most once for the whole run.
pub proof fn lemma_one_raise_along_every_run(
    parallel: nat,
    concurrency: nat,
    inputs: Seq<CoordinatorInput>,
)
    ensures
        raises_along(parallel, concurrency, inputs) == if state_along(
            parallel,
            concurrency,
            inputs,
        ).signalled {
            1nat
        } else {
            0nat
        },
        state_along(parallel, concurrency, inputs).drain_over ==> state_along(
            parallel,
            concurrency,
            inputs,
        ).signalled,
    decreases inputs.len(),
{
    if inputs.len() > 0 {
        lemma_one_raise_along_every_run(parallel, concurrency, inputs.drop_last());
    }
}

/// Along every run of a fresh coordinator no more sessions are started than
/// asked for, no more are live than the admission cap allows, and no more
/// are establishing a connection than are live.
pub proof fn lemma_cap_holds_along_every_coordinated_run(
    parallel: nat,
    concurrency: nat,
    inputs: Seq<CoordinatorInput>,
)
    ensures
        state_along(parallel, concurrency, inputs).parallel == parallel,
        state_along(parallel, concurrency, inputs).concurrency == concurrency,
        state_along(parallel, concurrency, inputs).phases.len() <= parallel,
        live_of(state_along(parallel, concurrency, inputs).phases) <= concurrency,
        tally(state_along(parallel, concurrency, inputs).phases, RunnerPhase::Connecting)
            <= live_of(state_along(parallel, concurrency, inputs).phases),
    decreases inputs.len(),
{
    if inputs.len() == 0 {
        assert(tally(Seq::<RunnerPhase>::empty(), RunnerPhase::Connecting) == 0);
        assert(tally(Seq::<RunnerPhase>::empty(), RunnerPhase::Terminated) == 0);
    } else {
        let before = state_along(parallel, concurrency, inputs.drop_last());
        lemma_cap_holds_along_every_coordinated_run(parallel, concurrency, inputs.drop_last());
        match inputs.last() {
            CoordinatorInput::Step => {
                lemma_cap_kept_by_one_input(parallel, concurrency, before.phases, PoolInput::Step);
            },
            CoordinatorInput::Event(CoordinatorEvent::Progress { session_id, phase }) => {
                lemma_cap_kept_by_one_input(
                    parallel,
                    concurrency,
                    before.phases,
                    PoolInput::Progress { session_id, phase },
                );
            },
            _ => {},
        }
    }
}

/// Along every run of a fresh coordinator the ids given out are `1, 2, ..`
/// in order, one for each session started, none skipped and none given
/// twice. A run that comes to where the coordinator returns before the time
/// for draining is over has started every session and seen each terminate:
/// the ids used are exactly `1, .., parallel`, each once, whenever shutdown
/// was signalled.
pub proof fn lemma_ids_along_every_coordinated_run(
    parallel: nat,
    concurrency: nat,
    inputs: Seq<CoordinatorInput>,
)
    requires
        parallel <= u32::MAX,
        concurrency >= 1,
    ensures
        launched_along(parallel, concurrency, inputs) == first_ids(
            state_along(parallel, concurrency, inputs).phases.len(),
        ),
        launched_along(parallel, concurrency, inputs).no_duplicates(),
        step_for(state_along(parallel, concurrency, inputs)) is Return && !state_along(
            parallel,
            concurrency,
            inputs,
        ).drain_over ==> {
            &&& state_along(parallel, concurrency, inputs).phases.len() == parallel
            &&& live_of(state_along(parallel, concurrency, inputs).phases) == 0
            &&& launched_along(parallel, concurrency, inputs) == first_ids(parallel)
            &&& launched_along(parallel, concurrency, inputs).to_set() =~= Set::new(
                |id: u32| 1 <= id <= parallel,
            )
        },
    decreases inputs.len(),
{
    let state = state_along(parallel, concurrency, inputs);
    let ids = launched_along(parallel, concurrency, inputs);
    lemma_cap_holds_along_every_coordinated_run(parallel, concurrency, inputs);
    if inputs.len() > 0 {
        lemma_ids_along_every_coordinated_run(parallel, concurrency, inputs.drop_last());
        lemma_cap_holds_along_every_coordinated_run(parallel, concurrency, inputs.drop_last());
    }
    assert(ids =~= first_ids(state.phases.len()));
    assert forall|id: u32| 1 <= id <= state.phases.len() implies ids.contains(id) by {
        assert(ids[id - 1] == id);
    }
}

/// The coordinator returns only after the signal, and then only when no
/// session can be launched and either none is live and none is left to
/// start, or the time for draining is over.
pub proof fn lemma_return_after_drain(coordinator: ShutdownCoordinator)
    requires
        coordinator.well_formed(),
    ensures
        coordinator.step_of() is Return ==> coordinator.signalled(),
        coordinator.step_of() is Return && !coordinator.drain_over()
            ==> coordinator.pool().is_done(),
        coordinator.step_of() is Return <==> coordinator.signalled() && !launches(
            coordinator.pool().parallel(),
            coordinator.pool().concurrency(),
            coordinator.pool().phases(),
        ) && (coordinator.pool().is_done() || coordinator.drain_over()),
{
    lemma_connecting_within_cap(coordinator.pool());
    lemma_counts_positive(coordinator.pool());
}

/// While a coordinator runs, no more sessions hold a slot than the admission
/// cap allows, and no more are establishing a connection than hold a slot.
pub proof fn lemma_coordinator_within_cap(coordinator: ShutdownCoordinator)
    requires
        coordinator.well_formed(),
    ensures
        coordinator.pool().connecting() <= coordinator.pool().live(),
        coordinator.pool().live() <= coordinator.pool().concurrency(),
{
    lemma_connecting_within_cap(coordinator.pool());
}

} // verus!
