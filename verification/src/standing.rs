//! The lifecycle of a session that holds a subscription or a registration
//! until it is told to stop or loses its transport.

use crate::diagnostic::Diagnostic;
use crate::phase::RunnerPhase;
use crate::signal::OnceLatch;
use vstd::prelude::*;

verus! {

/// What a standing session holds.
#[derive(Clone, Copy, Debug, PartialEq, Eq, Structural)]
pub enum StandingKind {
    /// A subscription to a topic, one of possibly several parallel ones.
    Subscribe,
    /// The registration of a procedure.
    Register,
}

/// Where a standing runner is.
#[derive(Clone, Copy, Debug, PartialEq, Eq, Structural)]
pub enum StandingStage {
    /// Waiting for the connection attempt to end.
    Connecting,
    /// Waiting for the router's answer to the subscribe or register request.
    Attaching,
    /// Blocked until shutdown is signalled or the transport is lost.
    Holding,
    /// Waiting for the graceful leave to end.
    Leaving,
    /// Finished.
    Stopped,
}

/// What has just happened to the session.
#[derive(Debug, PartialEq, Eq)]
pub enum StandingEvent {
    /// The session is established.
    Connected,
    /// The session could not be established.
    ConnectFailed { detail: String },
    /// The router confirmed the request.
    Attached,
    /// The router refused the request; `uri` names its reason.
    Rejected { uri: String },
    /// The request failed.
    AttachFailed { detail: String },
    /// The shutdown signal was found set.
    ShutdownObserved,
    /// The transport was lost without a leave.
    Disconnected { cause: String },
    /// The session was left gracefully.
    Left,
    /// The graceful leave failed.
    LeaveFailed { detail: String },
}

/// What the program does next for the session.
#[derive(Clone, Copy, Debug, PartialEq, Eq, Structural)]
pub enum StandingTask {
    /// Send the subscribe or register request and await the answer.
    Attach,
    /// Block until shutdown is signalled or the transport is lost.
    Hold,
    /// Leave the session gracefully.
    Leave,
    /// Nothing more; the session has terminated.
    Stop,
}

/// A session's report that its transport was lost without a leave.
#[derive(Debug, PartialEq, Eq)]
pub struct DisconnectEvent {
    /// The session that lost its transport.
    pub session_id: u32,
    /// What the endpoint said about the loss.
    pub cause: String,
}

/// A standing runner's answer to an event.
#[derive(Debug, PartialEq, Eq)]
pub struct StandingAction {
    /// The line to show, if any.
    pub line: Option<Diagnostic>,
    /// Whether to show, after `line`, how to end the command.
    pub exit_hint: bool,
    /// The loss to report to the shutdown coordinator, if any.
    pub notify: Option<DisconnectEvent>,
    /// What to do next.
    pub next: StandingTask,
}

/// One session of a subscribe or register command.
#[derive(Debug)]
pub struct StandingRunner {
    kind: StandingKind,
    session_id: u32,
    parallel: u32,
    target: String,
    stage: StandingStage,
}

/// The lifecycle phase that a stage belongs to.
pub open spec fn phase_of_standing(stage: StandingStage) -> RunnerPhase {
    match stage {
        StandingStage::Connecting => RunnerPhase::Connecting,
        StandingStage::Attaching => RunnerPhase::Active,
        StandingStage::Holding => RunnerPhase::Active,
        StandingStage::Leaving => RunnerPhase::Draining,
        StandingStage::Stopped => RunnerPhase::Terminated,
    }
}

/// An action that shows nothing and reports nothing.
pub open spec fn quiet_action(next: StandingTask) -> StandingAction {
    StandingAction { line: None, exit_hint: false, notify: None, next }
}

/// An action that shows one line.
pub open spec fn line_action(line: Diagnostic, next: StandingTask) -> StandingAction {
    StandingAction { line: Some(line), exit_hint: false, notify: None, next }
}

impl StandingRunner {
    /// What the session holds.
    pub closed spec fn kind(&self) -> StandingKind {
        self.kind
    }

    /// The id of the runner's session.
    pub closed spec fn session_id(&self) -> u32 {
        self.session_id
    }

    /// The number of sessions of the command.
    pub closed spec fn parallel(&self) -> u32 {
        self.parallel
    }

    /// The topic or procedure.
    pub closed spec fn target(&self) -> String {
        self.target
    }

    /// Where the runner is.
    pub closed spec fn stage(&self) -> StandingStage {
        self.stage
    }

    /// The runner's lifecycle phase.
    pub open spec fn phase(&self) -> RunnerPhase {
        phase_of_standing(self.stage())
    }

    /// The line that confirms the standing subscription or registration. A
    /// subscription names its session when the command has several.
    pub open spec fn confirmation(&self) -> Diagnostic {
        match self.kind() {
            StandingKind::Subscribe => Diagnostic::Subscribed {
                session: if self.parallel() > 1 {
                    Some(self.session_id())
                } else {
                    None
                },
                topic: self.target(),
            },
            StandingKind::Register => Diagnostic::Registered { procedure: self.target() },
        }
    }

    /// The runner's answer to `event`, given whether the exit hint has been
    /// shown before: the stage it moves to and the action it asks for, or
    /// `None` where the event cannot occur in its stage.
    ///
    /// A subscription that cannot be set up leaves; a registration that
    /// cannot be set up stops at once. A subscription that loses its
    /// transport reports the loss and stops without a leave, since there is
    /// nothing left to leave; a registration announces the loss and still
    /// attempts a leave. A leave that fails is reported, whatever led to it.
    pub open spec fn transition(&self, event: StandingEvent, hint_shown: bool) -> Option<
        (StandingStage, StandingAction),
    > {
        match (self.stage(), event) {
            (StandingStage::Connecting, StandingEvent::Connected) => Some(
                (StandingStage::Attaching, quiet_action(StandingTask::Attach)),
            ),
            (StandingStage::Connecting, StandingEvent::ConnectFailed { detail }) => Some(
                (
                    StandingStage::Stopped,
                    line_action(
                        Diagnostic::ConnectionError { session_id: self.session_id(), detail },
                        StandingTask::Stop,
                    ),
                ),
            ),
            (StandingStage::Attaching, StandingEvent::Attached) => Some(
                (
                    StandingStage::Holding,
                    StandingAction {
                        line: Some(self.confirmation()),
                        exit_hint: !hint_shown,
                        notify: None,
                        next: StandingTask::Hold,
                    },
                ),
            ),
            (StandingStage::Attaching, StandingEvent::Rejected { uri }) => Some(
                match self.kind() {
                    StandingKind::Subscribe => (
                        StandingStage::Leaving,
                        line_action(Diagnostic::Rejected { uri }, StandingTask::Leave),
                    ),
                    StandingKind::Register => (
                        StandingStage::Stopped,
                        line_action(Diagnostic::Rejected { uri }, StandingTask::Stop),
                    ),
                },
            ),
            (StandingStage::Attaching, StandingEvent::AttachFailed { detail }) => Some(
                match self.kind() {
                    StandingKind::Subscribe => (
                        StandingStage::Leaving,
                        line_action(
                            Diagnostic::SubscribeError { session_id: self.session_id(), detail },
                            StandingTask::Leave,
                        ),
                    ),
                    StandingKind::Register => (
                        StandingStage::Stopped,
                        line_action(Diagnostic::RegisterError { detail }, StandingTask::Stop),
                    ),
                },
            ),
            (StandingStage::Holding, StandingEvent::ShutdownObserved) => Some(
                match self.kind() {
                    StandingKind::Subscribe => (
                        StandingStage::Leaving,
                        quiet_action(StandingTask::Leave),
                    ),
                    StandingKind::Register => (
                        StandingStage::Leaving,
                        line_action(Diagnostic::Exiting, StandingTask::Leave),
                    ),
                },
            ),
            (StandingStage::Holding, StandingEvent::Disconnected { cause }) => Some(
                match self.kind() {
                    StandingKind::Subscribe => (
                        StandingStage::Stopped,
                        StandingAction {
                            line: None,
                            exit_hint: false,
                            notify: Some(
                                DisconnectEvent { session_id: self.session_id(), cause },
                            ),
                            next: StandingTask::Stop,
                        },
                    ),
                    StandingKind::Register => (
                        StandingStage::Leaving,
                        line_action(Diagnostic::LostConnection, StandingTask::Leave),
                    ),
                },
            ),
            (StandingStage::Leaving, StandingEvent::Left) => Some(
                (StandingStage::Stopped, quiet_action(StandingTask::Stop)),
            ),
            (StandingStage::Leaving, StandingEvent::LeaveFailed { detail }) => Some(
                (
                    StandingStage::Stopped,
                    line_action(
                        Diagnostic::LeaveError { session_id: self.session_id(), detail },
                        StandingTask::Stop,
                    ),
                ),
            ),
            _ => None,
        }
    }

    /// A runner for session `session_id` of `parallel` that holds `target`.
    /// It starts out connecting: the program's first task is to connect.
    pub fn new(kind: StandingKind, session_id: u32, parallel: u32, target: String) -> (runner:
        Self)
        ensures
            runner.kind() == kind,
            runner.session_id() == session_id,
            runner.parallel() == parallel,
            runner.target() == target,
            runner.stage() == StandingStage::Connecting,
    {
        StandingRunner { kind, session_id, parallel, target, stage: StandingStage::Connecting }
    }

    fn confirm(&self) -> (line: Diagnostic)
        ensures
            line == self.confirmation(),
    {
        match self.kind {
            StandingKind::Subscribe => Diagnostic::Subscribed {
                session: if self.parallel > 1 {
                    Some(self.session_id)
                } else {
                    None
                },
                topic: self.target.clone(),
            },
            StandingKind::Register => Diagnostic::Registered { procedure: self.target.clone() },
        }
    }

    /// Takes in what happened and answers with what to show, what to report
    /// and what to do next. `hint` is the latch that all sessions of the
    /// command share: the session whose confirmation fires it shows the exit
    /// hint, so that the hint appears once. An event that cannot occur in the
    /// runner's stage changes nothing and is answered with `None`.
    pub fn step(&mut self, event: StandingEvent, hint: &mut OnceLatch) -> (action: Option<
        StandingAction,
    >)
        ensures
            final(self).kind() == old(self).kind(),
            final(self).session_id() == old(self).session_id(),
            final(self).parallel() == old(self).parallel(),
            final(self).target() == old(self).target(),
            old(self).transition(event, old(hint).has_fired()) matches Some((stage, expected))
                ==> final(self).stage() == stage && action == Some(expected),
            old(self).transition(event, old(hint).has_fired()) is None ==> final(self).stage()
                == old(self).stage() && action is None,
            final(hint).has_fired() == (old(hint).has_fired() || (old(self).stage()
                == StandingStage::Attaching && event is Attached)),
    {
        match (self.stage, event) {
            (StandingStage::Connecting, StandingEvent::Connected) => {
                self.stage = StandingStage::Attaching;
                Some(
                    StandingAction {
                        line: None,
                        exit_hint: false,
                        notify: None,
                        next: StandingTask::Attach,
                    },
                )
            },
            (StandingStage::Connecting, StandingEvent::ConnectFailed { detail }) => {
                self.stage = StandingStage::Stopped;
                Some(
                    StandingAction {
                        line: Some(
                            Diagnostic::ConnectionError { session_id: self.session_id, detail },
                        ),
                        exit_hint: false,
                        notify: None,
                        next: StandingTask::Stop,
                    },
                )
            },
            (StandingStage::Attaching, StandingEvent::Attached) => {
                let first: bool = hint.try_fire();
                let line: Diagnostic = self.confirm();
                self.stage = StandingStage::Holding;
                Some(
                    StandingAction {
                        line: Some(line),
                        exit_hint: first,
                        notify: None,
                        next: StandingTask::Hold,
                    },
                )
            },
            (StandingStage::Attaching, StandingEvent::Rejected { uri }) => {
                let next: StandingTask = self.give_up();
                Some(
                    StandingAction {
                        line: Some(Diagnostic::Rejected { uri }),
                        exit_hint: false,
                        notify: None,
                        next,
                    },
                )
            },
            (StandingStage::Attaching, StandingEvent::AttachFailed { detail }) => {
                let line: Diagnostic = match self.kind {
                    StandingKind::Subscribe => Diagnostic::SubscribeError {
                        session_id: self.session_id,
                        detail,
                    },
                    StandingKind::Register => Diagnostic::RegisterError { detail },
                };
                let next: StandingTask = self.give_up();
                Some(StandingAction { line: Some(line), exit_hint: false, notify: None, next })
            },
            (StandingStage::Holding, StandingEvent::ShutdownObserved) => {
                match self.kind {
                    StandingKind::Subscribe => {
                        self.stage = StandingStage::Leaving;
                        Some(
                            StandingAction {
                                line: None,
                                exit_hint: false,
                                notify: None,
                                next: StandingTask::Leave,
                            },
                        )
                    },
                    StandingKind::Register => {
                        self.stage = StandingStage::Leaving;
                        Some(
                            StandingAction {
                                line: Some(Diagnostic::Exiting),
                                exit_hint: false,
                                notify: None,
                                next: StandingTask::Leave,
                            },
                        )
                    },
                }
            },
            (StandingStage::Holding, StandingEvent::Disconnected { cause }) => {
                match self.kind {
                    StandingKind::Subscribe => {
                        self.stage = StandingStage::Stopped;
                        Some(
                            StandingAction {
                                line: None,
                                exit_hint: false,
                                notify: Some(
                                    DisconnectEvent { session_id: self.session_id, cause },
                                ),
                                next: StandingTask::Stop,
                            },
                        )
                    },
                    StandingKind::Register => {
                        self.stage = StandingStage::Leaving;
                        Some(
                            StandingAction {
                                line: Some(Diagnostic::LostConnection),
                                exit_hint: false,
                                notify: None,
                                next: StandingTask::Leave,
                            },
                        )
                    },
                }
            },
            (StandingStage::Leaving, StandingEvent::Left) => {
                self.stage = StandingStage::Stopped;
                Some(
                    StandingAction {
                        line: None,
                        exit_hint: false,
                        notify: None,
                        next: StandingTask::Stop,
                    },
                )
            },
            (StandingStage::Leaving, StandingEvent::LeaveFailed { detail }) => {
                self.stage = StandingStage::Stopped;
                Some(
                    StandingAction {
                        line: Some(Diagnostic::LeaveError { session_id: self.session_id, detail }),
                        exit_hint: false,
                        notify: None,
                        next: StandingTask::Stop,
                    },
                )
            },
            _ => None,
        }
    }

    fn give_up(&mut self) -> (next: StandingTask)
        ensures
            final(self).kind() == old(self).kind(),
            final(self).session_id() == old(self).session_id(),
            final(self).parallel() == old(self).parallel(),
            final(self).target() == old(self).target(),
            old(self).kind() == StandingKind::Subscribe ==> final(self).stage()
                == (StandingStage::Leaving) && next == StandingTask::Leave,
            old(self).kind() == StandingKind::Register ==> final(self).stage()
                == StandingStage::Stopped && next == StandingTask::Stop,
    {
        match self.kind {
            StandingKind::Subscribe => {
                self.stage = StandingStage::Leaving;
                StandingTask::Leave
            },
            StandingKind::Register => {
                self.stage = StandingStage::Stopped;
                StandingTask::Stop
            },
        }
    }

    /// The runner's lifecycle phase.
    pub fn current_phase(&self) -> (phase: RunnerPhase)
        ensures
            phase == self.phase(),
    {
        match self.stage {
            StandingStage::Connecting => RunnerPhase::Connecting,
            StandingStage::Attaching => RunnerPhase::Active,
            StandingStage::Holding => RunnerPhase::Active,
            StandingStage::Leaving => RunnerPhase::Draining,
            StandingStage::Stopped => RunnerPhase::Terminated,
        }
    }

    /// Where the runner is.
    pub fn current_stage(&self) -> (stage: StandingStage)
        ensures
            stage == self.stage(),
    {
        self.stage
    }

    /// The id of the runner's session.
    pub fn id(&self) -> (id: u32)
        ensures
            id == self.session_id(),
    {
        self.session_id
    }
}

/// A subscription that observes the shutdown signal while it holds answers
/// with a graceful leave, and reports the leave's failure.
pub proof fn lemma_shutdown_leads_to_leave(runner: StandingRunner, hint_shown: bool)
    requires
        runner.stage() == StandingStage::Holding,
    ensures
        runner.transition(StandingEvent::ShutdownObserved, hint_shown) is Some,
        runner.transition(StandingEvent::ShutdownObserved, hint_shown)->Some_0.1.next
            == StandingTask::Leave,
        runner.transition(StandingEvent::ShutdownObserved, hint_shown)->Some_0.0 is Leaving,
{
}

/// A subscription that loses its transport tells the coordinator which
/// session it was and stops without a leave.
pub proof fn lemma_disconnect_is_reported(runner: StandingRunner, cause: String, hint_shown: bool)
    requires
        runner.stage() == StandingStage::Holding,
        runner.kind() == StandingKind::Subscribe,
    ensures
        runner.transition(StandingEvent::Disconnected { cause }, hint_shown) == Some(
            (
                StandingStage::Stopped,
                StandingAction {
                    line: None,
                    exit_hint: false,
                    notify: Some(DisconnectEvent { session_id: runner.session_id(), cause }),
                    next: StandingTask::Stop,
                },
            ),
        ),
{
}

/// The exit hint is asked for only with a confirmation, and only while the
/// shared latch has not fired: over all sessions of a command it is shown
/// once.
pub proof fn lemma_exit_hint_once(runner: StandingRunner, event: StandingEvent, hint_shown: bool)
    requires
        runner.transition(event, hint_shown) is Some,
        runner.transition(event, hint_shown)->Some_0.1.exit_hint,
    ensures
        !hint_shown,
        event is Attached,
        runner.stage() == StandingStage::Attaching,
{
}

/// A standing runner only moves forward through the lifecycle phases.
pub proof fn lemma_standing_phase_never_goes_back(
    runner: StandingRunner,
    event: StandingEvent,
    hint_shown: bool,
)
    requires
        runner.transition(event, hint_shown) is Some,
    ensures
        runner.phase().rank() <= phase_of_standing(
            runner.transition(event, hint_shown)->Some_0.0,
        ).rank(),
{
}

/// A standing session stops only after its leave has ended, or where there
/// is nothing to leave or the command does not leave: the connection
/// attempt failed, a subscription lost its transport, or a registration
/// could not be set up.
pub proof fn lemma_standing_stop_reasons(
    runner: StandingRunner,
    event: StandingEvent,
    hint_shown: bool,
)
    requires
        runner.transition(event, hint_shown) is Some,
        runner.transition(event, hint_shown)->Some_0.1.next == StandingTask::Stop,
    ensures
        runner.transition(event, hint_shown)->Some_0.0 == StandingStage::Stopped,
        runner.stage() is Leaving || (runner.stage() == StandingStage::Connecting
            && event is ConnectFailed) || (runner.stage() == StandingStage::Holding
            && runner.kind() == StandingKind::Subscribe && event is Disconnected) || (
        runner.stage() == StandingStage::Attaching && runner.kind() == StandingKind::Register),
{
}

/// Every leave that fails is reported, with the session it belongs to, and
/// the runner stops all the same.
pub proof fn lemma_failed_leave_is_always_shown(
    runner: StandingRunner,
    detail: String,
    hint_shown: bool,
)
    requires
        runner.stage() == StandingStage::Leaving,
    ensures
        runner.transition(StandingEvent::LeaveFailed { detail }, hint_shown) == Some(
            (
                StandingStage::Stopped,
                line_action(
                    Diagnostic::LeaveError { session_id: runner.session_id(), detail },
                    StandingTask::Stop,
                ),
            ),
        ),
{
}

} // verus!
