//! The lifecycle of a session that runs a fixed number of calls or publishes.
//!
//! A runner decides what its session does next from what has just happened
//! to it. The program performs each task (connect, issue one request, leave)
//! and hands the outcome back as an event.

use crate::diagnostic::Diagnostic;
use crate::phase::RunnerPhase;
use vstd::prelude::*;

verus! {

/// The request that a runner repeats.
#[derive(Clone, Copy, Debug, PartialEq, Eq, Structural)]
pub enum IterationKind {
    /// A remote procedure call, whose result is shown.
    Call,
    /// A publish to a topic, which shows nothing when it succeeds.
    Publish,
}

/// Where a runner stands.
#[derive(Clone, Copy, Debug, PartialEq, Eq, Structural)]
pub enum IterationStage {
    /// Waiting for the connection attempt to end.
    Connecting,
    /// Waiting for the outcome of the iteration with this number.
    Running { iteration: u32 },
    /// Waiting for the graceful leave to end.
    Leaving,
    /// Finished.
    Stopped,
}

/// What has just happened to the session.
#[derive(Debug, PartialEq, Eq)]
pub enum IterationEvent {
    /// The session is established.
    Connected,
    /// The session could not be established.
    ConnectFailed { detail: String },
    /// The request of the current iteration succeeded.
    Succeeded,
    /// The request of the current iteration was rejected or failed.
    Failed { detail: String },
    /// The session was left gracefully.
    Left,
    /// The graceful leave failed.
    LeaveFailed { detail: String },
}

/// What the program does next for the session.
#[derive(Clone, Copy, Debug, PartialEq, Eq, Structural)]
pub enum IterationTask {
    /// Issue the request of the iteration with this number and await its
    /// outcome.
    Issue { iteration: u32 },
    /// Leave the session gracefully.
    Leave,
    /// Nothing more; the session has terminated.
    Stop,
}

/// What the program shows for an event.
#[derive(Debug, PartialEq, Eq)]
pub enum Emission {
    /// Nothing.
    Silent,
    /// The rendered result of this iteration of this session.
    Result { session_id: u32, iteration: u32 },
    /// A diagnostic line.
    Line(Diagnostic),
}

/// A runner's answer to an event.
#[derive(Debug, PartialEq, Eq)]
pub struct IterationAction {
    /// What to show.
    pub emit: Emission,
    /// What to do next.
    pub next: IterationTask,
}

/// One session of a call or publish command.
#[derive(Debug)]
pub struct IterationRunner {
    kind: IterationKind,
    session_id: u32,
    repeat: u32,
    stage: IterationStage,
}

/// The lifecycle phase that a stage belongs to.
pub open spec fn phase_of_stage(stage: IterationStage) -> RunnerPhase {
    match stage {
        IterationStage::Connecting => RunnerPhase::Connecting,
        IterationStage::Running { .. } => RunnerPhase::Active,
        IterationStage::Leaving => RunnerPhase::Draining,
        IterationStage::Stopped => RunnerPhase::Terminated,
    }
}

/// Where a runner goes once the iteration with number `iteration` has
/// ended, whatever its outcome: to the next iteration while one is left, to
/// the graceful leave after the last.
pub open spec fn after_iteration(repeat: u32, iteration: u32) -> (IterationStage, IterationTask) {
    if iteration < repeat {
        (
            IterationStage::Running { iteration: (iteration + 1) as u32 },
            IterationTask::Issue { iteration: (iteration + 1) as u32 },
        )
    } else {
        (IterationStage::Leaving, IterationTask::Leave)
    }
}

/// The answer of a runner in stage `stage` to `event`: the stage it moves
/// to and the action it asks for, or `None` where the event cannot occur in
/// that stage.
pub open spec fn iteration_transition(
    kind: IterationKind,
    session_id: u32,
    repeat: u32,
    stage: IterationStage,
    event: IterationEvent,
) -> Option<(IterationStage, IterationAction)> {
    match (stage, event) {
        (IterationStage::Connecting, IterationEvent::Connected) => {
            let (stage, next) = after_iteration(repeat, 0);
            Some((stage, IterationAction { emit: Emission::Silent, next }))
        },
        (IterationStage::Connecting, IterationEvent::ConnectFailed { detail }) => Some(
            (
                IterationStage::Stopped,
                IterationAction {
                    emit: Emission::Line(Diagnostic::ConnectionError { session_id, detail }),
                    next: IterationTask::Stop,
                },
            ),
        ),
        (IterationStage::Running { iteration }, IterationEvent::Succeeded) => {
            let (stage, next) = after_iteration(repeat, iteration);
            let emit = match kind {
                IterationKind::Call => Emission::Result { session_id, iteration },
                IterationKind::Publish => Emission::Silent,
            };
            Some((stage, IterationAction { emit, next }))
        },
        (IterationStage::Running { iteration }, IterationEvent::Failed { detail }) => {
            let (stage, next) = after_iteration(repeat, iteration);
            let line = match kind {
                IterationKind::Call => Diagnostic::CallError { session_id, iteration, detail },
                IterationKind::Publish => Diagnostic::PublishError {
                    session_id,
                    iteration,
                    detail,
                },
            };
            Some((stage, IterationAction { emit: Emission::Line(line), next }))
        },
        (IterationStage::Leaving, IterationEvent::Left) => Some(
            (
                IterationStage::Stopped,
                IterationAction { emit: Emission::Silent, next: IterationTask::Stop },
            ),
        ),
        (IterationStage::Leaving, IterationEvent::LeaveFailed { detail }) => Some(
            (
                IterationStage::Stopped,
                IterationAction {
                    emit: Emission::Line(Diagnostic::LeaveError { session_id, detail }),
                    next: IterationTask::Stop,
                },
            ),
        ),
        _ => None,
    }
}

/// The stage of a fresh runner after the events of a run, in order. An
/// event that is not due changes nothing.
pub open spec fn stage_along(
    kind: IterationKind,
    session_id: u32,
    repeat: u32,
    events: Seq<IterationEvent>,
) -> IterationStage
    decreases events.len(),
{
    if events.len() == 0 {
        IterationStage::Connecting
    } else {
        let before = stage_along(kind, session_id, repeat, events.drop_last());
        match iteration_transition(kind, session_id, repeat, before, events.last()) {
            Some((stage, _)) => stage,
            None => before,
        }
    }
}

/// The numbers of the iterations that a fresh runner issues along a run, in
/// order.
pub open spec fn issued_along(
    kind: IterationKind,
    session_id: u32,
    repeat: u32,
    events: Seq<IterationEvent>,
) -> Seq<u32>
    decreases events.len(),
{
    if events.len() == 0 {
        Seq::empty()
    } else {
        let before = stage_along(kind, session_id, repeat, events.drop_last());
        let issued = issued_along(kind, session_id, repeat, events.drop_last());
        match iteration_transition(kind, session_id, repeat, before, events.last()) {
            Some((_, action)) => match action.next {
                IterationTask::Issue { iteration } => issued.push(iteration),
                _ => issued,
            },
            None => issued,
        }
    }
}

/// The iterations for which a fresh runner shows a result along a run, in
/// order.
pub open spec fn results_along(
    kind: IterationKind,
    session_id: u32,
    repeat: u32,
    events: Seq<IterationEvent>,
) -> Seq<u32>
    decreases events.len(),
{
    if events.len() == 0 {
        Seq::empty()
    } else {
        let before = stage_along(kind, session_id, repeat, events.drop_last());
        let shown = results_along(kind, session_id, repeat, events.drop_last());
        match iteration_transition(kind, session_id, repeat, before, events.last()) {
            Some((_, action)) => match action.emit {
                Emission::Result { iteration, .. } => shown.push(iteration),
                _ => shown,
            },
            None => shown,
        }
    }
}

/// The numbers `1, 2, .., count`.
pub open spec fn count_up(count: nat) -> Seq<u32> {
    Seq::new(count, |i: int| (i + 1) as u32)
}

impl IterationRunner {
    /// The request that the runner repeats.
    pub closed spec fn kind(&self) -> IterationKind {
        self.kind
    }

    /// The id of the runner's session.
    pub closed spec fn session_id(&self) -> u32 {
        self.session_id
    }

    /// The number of iterations the runner makes.
    pub closed spec fn repeat(&self) -> u32 {
        self.repeat
    }

    /// Where the runner stands.
    pub closed spec fn stage(&self) -> IterationStage {
        self.stage
    }

    /// The runner's lifecycle phase.
    pub open spec fn phase(&self) -> RunnerPhase {
        phase_of_stage(self.stage())
    }

    /// A running iteration has a number between one and `repeat`.
    pub open spec fn well_formed(&self) -> bool {
        self.stage() matches IterationStage::Running { iteration } ==> 1 <= iteration
            <= self.repeat()
    }

    /// The runner's answer to `event`: the stage it moves to and the action
    /// it asks for, or `None` where the event cannot occur in its stage.
    pub open spec fn transition(&self, event: IterationEvent) -> Option<
        (IterationStage, IterationAction),
    > {
        iteration_transition(self.kind(), self.session_id(), self.repeat(), self.stage(), event)
    }

    /// A runner for session `session_id` that makes `repeat` iterations. It
    /// starts out connecting: the program's first task is to connect.
    pub fn new(kind: IterationKind, session_id: u32, repeat: u32) -> (runner: Self)
        ensures
            runner.kind() == kind,
            runner.session_id() == session_id,
            runner.repeat() == repeat,
            runner.stage() == IterationStage::Connecting,
            runner.well_formed(),
    {
        IterationRunner { kind, session_id, repeat, stage: IterationStage::Connecting }
    }

    fn proceed(&self, iteration: u32) -> (r: (IterationStage, IterationTask))
        ensures
            r == after_iteration(self.repeat(), iteration),
    {
        if iteration < self.repeat {
            (
                IterationStage::Running { iteration: iteration + 1 },
                IterationTask::Issue { iteration: iteration + 1 },
            )
        } else {
            (IterationStage::Leaving, IterationTask::Leave)
        }
    }

    /// Takes in what happened and answers with what to show and what to do
    /// next. An event that cannot occur in the runner's stage changes
    /// nothing and is answered with `None`.
    pub fn step(&mut self, event: IterationEvent) -> (action: Option<IterationAction>)
        ensures
            final(self).kind() == old(self).kind(),
            final(self).session_id() == old(self).session_id(),
            final(self).repeat() == old(self).repeat(),
            old(self).transition(event) matches Some((stage, expected)) ==> final(self).stage()
                == stage && action == Some(expected),
            old(self).transition(event) is None ==> final(self).stage() == old(self).stage()
                && action is None,
            old(self).well_formed() ==> final(self).well_formed(),
    {
        match (self.stage, event) {
            (IterationStage::Connecting, IterationEvent::Connected) => {
                let (stage, next) = self.proceed(0);
                self.stage = stage;
                Some(IterationAction { emit: Emission::Silent, next })
            },
            (IterationStage::Connecting, IterationEvent::ConnectFailed { detail }) => {
                self.stage = IterationStage::Stopped;
                Some(
                    IterationAction {
                        emit: Emission::Line(
                            Diagnostic::ConnectionError { session_id: self.session_id, detail },
                        ),
                        next: IterationTask::Stop,
                    },
                )
            },
            (IterationStage::Running { iteration }, IterationEvent::Succeeded) => {
                let (stage, next) = self.proceed(iteration);
                self.stage = stage;
                let emit = match self.kind {
                    IterationKind::Call => Emission::Result {
                        session_id: self.session_id,
                        iteration,
                    },
                    IterationKind::Publish => Emission::Silent,
                };
                Some(IterationAction { emit, next })
            },
            (IterationStage::Running { iteration }, IterationEvent::Failed { detail }) => {
                let (stage, next) = self.proceed(iteration);
                self.stage = stage;
                let line = match self.kind {
                    IterationKind::Call => Diagnostic::CallError {
                        session_id: self.session_id,
                        iteration,
                        detail,
                    },
                    IterationKind::Publish => Diagnostic::PublishError {
                        session_id: self.session_id,
                        iteration,
                        detail,
                    },
                };
                Some(IterationAction { emit: Emission::Line(line), next })
            },
            (IterationStage::Leaving, IterationEvent::Left) => {
                self.stage = IterationStage::Stopped;
                Some(IterationAction { emit: Emission::Silent, next: IterationTask::Stop })
            },
            (IterationStage::Leaving, IterationEvent::LeaveFailed { detail }) => {
                self.stage = IterationStage::Stopped;
                Some(
                    IterationAction {
                        emit: Emission::Line(
                            Diagnostic::LeaveError { session_id: self.session_id, detail },
                        ),
                        next: IterationTask::Stop,
                    },
                )
            },
            _ => None,
        }
    }

    /// The runner's lifecycle phase.
    pub fn current_phase(&self) -> (phase: RunnerPhase)
        ensures
            phase == self.phase(),
    {
        match self.stage {
            IterationStage::Connecting => RunnerPhase::Connecting,
            IterationStage::Running { .. } => RunnerPhase::Active,
            IterationStage::Leaving => RunnerPhase::Draining,
            IterationStage::Stopped => RunnerPhase::Terminated,
        }
    }

    /// Where the runner stands.
    pub fn current_stage(&self) -> (stage: IterationStage)
        ensures
            stage == self.stage(),
    {
        self.stage
    }

    /// The id of the runner's session.
    pub fn id(&self) -> (id: u32)
        ensures
            id == self.session_id(),
    {
        self.session_id
    }
}

/// The number of tasks a runner still has before it: every iteration not yet
/// ended, the leave, and the stop.
pub open spec fn tasks_ahead(repeat: u32, stage: IterationStage) -> nat {
    match stage {
        IterationStage::Connecting => (repeat + 2) as nat,
        IterationStage::Running { iteration } => (repeat - iteration + 2) as nat,
        IterationStage::Leaving => 1,
        IterationStage::Stopped => 0,
    }
}

/// Iterations are issued one at a time and in order: the first after the
/// connection stands, each further one after the one before it has ended,
/// and none beyond `repeat`.
pub proof fn lemma_iterations_in_order(runner: IterationRunner, event: IterationEvent)
    requires
        runner.well_formed(),
        runner.transition(event) is Some,
        runner.transition(event)->Some_0.1.next is Issue,
    ensures
        ({
            let (stage, action) = runner.transition(event)->Some_0;
            let iteration = action.next->iteration;
            &&& stage == IterationStage::Running { iteration }
            &&& 1 <= iteration <= runner.repeat()
            &&& (runner.stage() == IterationStage::Connecting && iteration == 1) || runner.stage()
                == (IterationStage::Running { iteration: (iteration - 1) as u32 })
        }),
{
}

/// A failed iteration is reported and changes nothing else: the runner goes
/// on exactly as after a successful one.
pub proof fn lemma_failure_does_not_stop(runner: IterationRunner, detail: String)
    requires
        runner.stage() is Running,
    ensures
        runner.transition(IterationEvent::Failed { detail }) is Some,
        runner.transition(IterationEvent::Succeeded) is Some,
        runner.transition(IterationEvent::Failed { detail })->Some_0.0 == runner.transition(
            IterationEvent::Succeeded,
        )->Some_0.0,
        runner.transition(IterationEvent::Failed { detail })->Some_0.1.next == runner.transition(
            IterationEvent::Succeeded,
        )->Some_0.1.next,
        runner.transition(IterationEvent::Failed { detail })->Some_0.1.emit is Line,
{
}

/// A session that was established is never dropped without a leave: the
/// runner stops only after a failed connection attempt or after the leave
/// has ended.
pub proof fn lemma_leave_before_stop(runner: IterationRunner, event: IterationEvent)
    requires
        runner.transition(event) is Some,
        runner.transition(event)->Some_0.1.next is Stop,
    ensures
        runner.stage() == IterationStage::Leaving || (runner.stage() == IterationStage::Connecting
            && event is ConnectFailed),
{
}

/// Every event that a runner accepts, but for a failed connection attempt,
/// takes it exactly one task further. A session that connects therefore
/// issues exactly `repeat` requests, leaves once, and stops.
pub proof fn lemma_one_task_per_event(runner: IterationRunner, event: IterationEvent)
    requires
        runner.well_formed(),
        runner.transition(event) is Some,
        !(event is ConnectFailed),
    ensures
        tasks_ahead(runner.repeat(), runner.transition(event)->Some_0.0) + 1 == tasks_ahead(
            runner.repeat(),
            runner.stage(),
        ),
{
}

/// A runner only moves forward through the lifecycle phases.
pub proof fn lemma_phase_never_goes_back(runner: IterationRunner, event: IterationEvent)
    requires
        runner.transition(event) is Some,
    ensures
        runner.phase().rank() <= phase_of_stage(runner.transition(event)->Some_0.0).rank(),
{
}

/// A call runner shows a result exactly for the iterations that succeed, and
/// a publish runner shows none.
pub proof fn lemma_result_per_success(runner: IterationRunner, event: IterationEvent)
    requires
        runner.transition(event) is Some,
    ensures
        runner.transition(event)->Some_0.1.emit is Result <==> (runner.kind()
            == IterationKind::Call && runner.stage() is Running && event is Succeeded),
        runner.transition(event)->Some_0.1.emit matches Emission::Result { session_id, iteration }
            ==> session_id == runner.session_id() && runner.stage()
            == (IterationStage::Running { iteration }),
{
}

/// Along every run of a fresh runner the iterations are issued as
/// `1, 2, ..` in order, each once. A runner that waits for an outcome has
/// issued the iterations up to the one it waits for; a runner that leaves
/// has issued all `repeat` of them; a runner that has stopped has issued
/// all of them, or none where its connection attempt failed.
pub proof fn lemma_issued_along_every_run(
    kind: IterationKind,
    session_id: u32,
    repeat: u32,
    events: Seq<IterationEvent>,
)
    ensures
        match stage_along(kind, session_id, repeat, events) {
            IterationStage::Connecting => issued_along(kind, session_id, repeat, events)
                == Seq::<u32>::empty(),
            IterationStage::Running { iteration } => 1 <= iteration <= repeat && issued_along(
                kind,
                session_id,
                repeat,
                events,
            ) == count_up(iteration as nat),
            IterationStage::Leaving => issued_along(kind, session_id, repeat, events) == count_up(
                repeat as nat,
            ),
            IterationStage::Stopped => issued_along(kind, session_id, repeat, events) == count_up(
                repeat as nat,
            ) || issued_along(kind, session_id, repeat, events) == Seq::<u32>::empty(),
        },
    decreases events.len(),
{
    if events.len() > 0 {
        let earlier = events.drop_last();
        lemma_issued_along_every_run(kind, session_id, repeat, earlier);
        let before = stage_along(kind, session_id, repeat, earlier);
        let issued = issued_along(kind, session_id, repeat, earlier);
        match iteration_transition(kind, session_id, repeat, before, events.last()) {
            Some((stage, action)) => {
                match action.next {
                    IterationTask::Issue { iteration } => {
                        assert(issued.push(iteration) =~= count_up(iteration as nat));
                    },
                    _ => {
                        assert(before == IterationStage::Connecting ==> issued =~= count_up(0));
                    },
                }
            },
            None => {},
        }
    }
}

/// Along every run of a fresh runner a result is shown only for an
/// iteration that was issued before, no more results are shown than
/// iterations were issued, and a publish runner shows none.
pub proof fn lemma_results_along_every_run(
    kind: IterationKind,
    session_id: u32,
    repeat: u32,
    events: Seq<IterationEvent>,
)
    ensures
        results_along(kind, session_id, repeat, events).len() <= issued_along(
            kind,
            session_id,
            repeat,
            events,
        ).len(),
        issued_along(kind, session_id, repeat, events).len() <= repeat,
        kind == IterationKind::Publish ==> results_along(kind, session_id, repeat, events).len()
            == 0,
        stage_along(kind, session_id, repeat, events) is Running ==> results_along(
            kind,
            session_id,
            repeat,
            events,
        ).len() < issued_along(kind, session_id, repeat, events).len(),
    decreases events.len(),
{
    lemma_issued_along_every_run(kind, session_id, repeat, events);
    if events.len() > 0 {
        let earlier = events.drop_last();
        lemma_results_along_every_run(kind, session_id, repeat, earlier);
        lemma_issued_along_every_run(kind, session_id, repeat, earlier);
    }
}

} // verus!
