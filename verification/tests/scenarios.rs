use wcli::diagnostic::Diagnostic;
use wcli::phase::RunnerPhase;
use wcli::pool::{PoolStep, SessionPool};
use wcli::runner::{
    Emission, IterationEvent, IterationKind, IterationRunner, IterationTask,
};
use wcli::shutdown::{CoordinatorEvent, CoordinatorStep, ShutdownCoordinator};
use wcli::signal::OnceLatch;
use wcli::standing::{StandingEvent, StandingKind, StandingRunner, StandingTask};

enum Pending {
    Connect,
    Task(IterationTask),
}

struct Live {
    runner: IterationRunner,
    pending: Pending,
}

struct Outcome {
    launched: Vec<u32>,
    results: Vec<(u32, u32)>,
    lines: Vec<Diagnostic>,
    issued: Vec<(u32, u32)>,
    leaves: Vec<u32>,
    most_connecting: usize,
    most_in_flight: usize,
}

fn run_command(
    kind: IterationKind,
    repeat: u32,
    parallel: u32,
    concurrency: usize,
    connects: fn(u32) -> bool,
    succeeds: fn(u32, u32) -> bool,
) -> Outcome {
    let mut pool = SessionPool::new(parallel, concurrency).unwrap();
    let mut live: Vec<Live> = Vec::new();
    let mut outcome = Outcome {
        launched: vec![],
        results: vec![],
        lines: vec![],
        issued: vec![],
        leaves: vec![],
        most_connecting: 0,
        most_in_flight: 0,
    };
    let mut turn = 0usize;
    loop {
        outcome.most_connecting = outcome.most_connecting.max(pool.connecting_now());
        outcome.most_in_flight = outcome.most_in_flight.max(pool.in_flight());
        match pool.next_step() {
            PoolStep::Launch { session_id } => {
                outcome.launched.push(session_id);
                live.push(Live {
                    runner: IterationRunner::new(kind, session_id, repeat),
                    pending: Pending::Connect,
                });
            }
            PoolStep::Wait => {
                let pick = turn % live.len();
                turn += 1;
                let session = &mut live[pick];
                let id = session.runner.id();
                let event = match session.pending {
                    Pending::Connect => {
                        if connects(id) {
                            IterationEvent::Connected
                        } else {
                            IterationEvent::ConnectFailed { detail: "refused".to_string() }
                        }
                    }
                    Pending::Task(IterationTask::Issue { iteration }) => {
                        outcome.issued.push((id, iteration));
                        if succeeds(id, iteration) {
                            IterationEvent::Succeeded
                        } else {
                            IterationEvent::Failed { detail: "rejected".to_string() }
                        }
                    }
                    Pending::Task(IterationTask::Leave) => {
                        outcome.leaves.push(id);
                        IterationEvent::Left
                    }
                    Pending::Task(IterationTask::Stop) => unreachable!(),
                };
                let action = session.runner.step(event).expect("the event is due");
                match action.emit {
                    Emission::Silent => {}
                    Emission::Result { session_id, iteration } => {
                        outcome.results.push((session_id, iteration))
                    }
                    Emission::Line(line) => outcome.lines.push(line),
                }
                pool.advance(id, session.runner.current_phase());
                if action.next == IterationTask::Stop {
                    assert_eq!(pool.phase_of(id), Some(RunnerPhase::Terminated));
                    live.remove(pick);
                } else {
                    session.pending = Pending::Task(action.next);
                }
            }
            PoolStep::Done => break,
        }
    }
    assert!(live.is_empty());
    outcome
}

fn always(_: u32) -> bool {
    true
}

fn every_time(_: u32, _: u32) -> bool {
    true
}

fn all_but_second(id: u32) -> bool {
    id != 2
}

fn odd_iterations(_: u32, iteration: u32) -> bool {
    iteration % 2 == 1
}

#[test]
fn three_calls_on_each_of_two_sessions_one_at_a_time() {
    let outcome = run_command(IterationKind::Call, 3, 2, 1, always, every_time);
    assert_eq!(outcome.results.len(), 6);
    assert_eq!(outcome.results, vec![(1, 1), (1, 2), (1, 3), (2, 1), (2, 2), (2, 3)]);
    assert!(outcome.lines.is_empty());
    assert_eq!(outcome.most_connecting, 1);
    assert_eq!(outcome.most_in_flight, 1);
    assert_eq!(outcome.launched, vec![1, 2]);
    assert_eq!(outcome.leaves, vec![1, 2]);
}

#[test]
fn sessions_interleave_under_a_wider_cap_and_stay_ordered_within() {
    let outcome = run_command(IterationKind::Call, 3, 4, 2, always, every_time);
    assert_eq!(outcome.results.len(), 12);
    assert!(outcome.most_in_flight <= 2);
    assert!(outcome.most_connecting <= 2);
    for id in 1..=4u32 {
        let own: Vec<u32> =
            outcome.results.iter().filter(|(s, _)| *s == id).map(|(_, i)| *i).collect();
        assert_eq!(own, vec![1, 2, 3]);
    }
    assert_eq!(outcome.launched, vec![1, 2, 3, 4]);
}

#[test]
fn one_failed_connection_leaves_the_other_sessions_untouched() {
    let outcome = run_command(IterationKind::Call, 3, 4, 2, all_but_second, every_time);
    assert_eq!(
        outcome.lines,
        vec![Diagnostic::ConnectionError { session_id: 2, detail: "refused".to_string() }]
    );
    assert_eq!(outcome.results.len(), 9);
    for id in [1u32, 3, 4] {
        let own: Vec<u32> =
            outcome.results.iter().filter(|(s, _)| *s == id).map(|(_, i)| *i).collect();
        assert_eq!(own, vec![1, 2, 3]);
    }
    assert!(outcome.results.iter().all(|(s, _)| *s != 2));
    let mut leaves = outcome.leaves.clone();
    leaves.sort();
    assert_eq!(leaves, vec![1, 3, 4]);
    assert_eq!(outcome.launched, vec![1, 2, 3, 4]);
}

#[test]
fn failed_iterations_are_reported_and_the_rest_still_run() {
    let outcome = run_command(IterationKind::Call, 4, 2, 2, always, odd_iterations);
    assert_eq!(outcome.issued.len(), 8);
    assert_eq!(outcome.results.len(), 4);
    assert_eq!(outcome.lines.len(), 4);
    for line in &outcome.lines {
        match line {
            Diagnostic::CallError { iteration, .. } => assert!(iteration % 2 == 0),
            other => panic!("not a call error: {other:?}"),
        }
    }
    let mut leaves = outcome.leaves.clone();
    leaves.sort();
    assert_eq!(leaves, vec![1, 2]);
}

#[test]
fn publishes_run_silently() {
    let outcome = run_command(IterationKind::Publish, 5, 3, 3, always, every_time);
    assert!(outcome.results.is_empty());
    assert!(outcome.lines.is_empty());
    assert_eq!(outcome.issued.len(), 15);
    assert_eq!(outcome.launched, vec![1, 2, 3]);
}

#[test]
fn lost_transport_of_one_subscriber_shuts_the_others_down() {
    let mut coordinator = ShutdownCoordinator::new(3, 3).unwrap();
    let mut latch = OnceLatch::new();
    let mut runners: Vec<StandingRunner> = Vec::new();
    let mut hints = 0;
    loop {
        match coordinator.next_step() {
            CoordinatorStep::Launch { session_id } => {
                let mut runner = StandingRunner::new(
                    StandingKind::Subscribe,
                    session_id,
                    3,
                    "io.xconn.topic".to_string(),
                );
                let action = runner.step(StandingEvent::Connected, &mut latch).unwrap();
                assert_eq!(action.next, StandingTask::Attach);
                coordinator.on_event(CoordinatorEvent::Progress {
                    session_id,
                    phase: runner.current_phase(),
                });
                let action = runner.step(StandingEvent::Attached, &mut latch).unwrap();
                assert_eq!(action.next, StandingTask::Hold);
                if action.exit_hint {
                    hints += 1;
                }
                runners.push(runner);
            }
            CoordinatorStep::Wait => break,
            CoordinatorStep::Return => panic!("nothing has ended the command yet"),
        }
    }
    assert_eq!(runners.len(), 3);
    assert_eq!(hints, 1);
    assert!(!coordinator.shutdown_signalled());

    let action =
        runners[1].step(StandingEvent::Disconnected { cause: "reset".to_string() }, &mut latch)
            .unwrap();
    assert_eq!(action.next, StandingTask::Stop);
    let notice = action.notify.expect("the loss is reported");
    assert_eq!(notice.session_id, 2);
    let reaction = coordinator.on_event(CoordinatorEvent::Disconnect(notice));
    assert!(reaction.raised);
    assert_eq!(reaction.line, Some(Diagnostic::LostConnection));
    coordinator
        .on_event(CoordinatorEvent::Progress { session_id: 2, phase: RunnerPhase::Terminated });
    assert!(coordinator.shutdown_signalled());
    assert_eq!(coordinator.next_step(), CoordinatorStep::Wait);

    let mut left = Vec::new();
    for index in [0usize, 2] {
        let id = runners[index].id();
        let action = runners[index].step(StandingEvent::ShutdownObserved, &mut latch).unwrap();
        assert_eq!(action.next, StandingTask::Leave);
        let reaction = coordinator.on_event(CoordinatorEvent::Progress {
            session_id: id,
            phase: runners[index].current_phase(),
        });
        assert!(!reaction.raised);
        let action = runners[index].step(StandingEvent::Left, &mut latch).unwrap();
        assert_eq!(action.next, StandingTask::Stop);
        left.push(id);
        let reaction = coordinator.on_event(CoordinatorEvent::Progress {
            session_id: id,
            phase: runners[index].current_phase(),
        });
        assert!(!reaction.raised);
    }
    assert_eq!(left, vec![1, 3]);
    assert_eq!(coordinator.in_flight(), 0);
    assert_eq!(coordinator.next_step(), CoordinatorStep::Return);
}

#[test]
fn subscribers_that_all_fail_to_connect_end_the_command() {
    let mut coordinator = ShutdownCoordinator::new(2, 1).unwrap();
    let mut latch = OnceLatch::new();
    let mut raises = 0;
    let mut lines = Vec::new();
    loop {
        match coordinator.next_step() {
            CoordinatorStep::Launch { session_id } => {
                let mut runner = StandingRunner::new(
                    StandingKind::Subscribe,
                    session_id,
                    2,
                    "t".to_string(),
                );
                let action = runner
                    .step(StandingEvent::ConnectFailed { detail: "refused".to_string() }, &mut latch)
                    .unwrap();
                lines.push(action.line.unwrap().message());
                let reaction = coordinator.on_event(CoordinatorEvent::Progress {
                    session_id,
                    phase: runner.current_phase(),
                });
                assert_eq!(reaction.line, None);
                if reaction.raised {
                    raises += 1;
                }
            }
            CoordinatorStep::Wait => panic!("no session is live"),
            CoordinatorStep::Return => break,
        }
    }
    assert_eq!(raises, 1);
    assert_eq!(
        lines,
        vec!["Session 1 Connection Error: refused", "Session 2 Connection Error: refused"]
    );
    assert!(!latch.fired());
}
