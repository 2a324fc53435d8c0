use wcli::diagnostic::Diagnostic;
use wcli::phase::RunnerPhase;
use wcli::runner::{
    Emission, IterationAction, IterationEvent, IterationKind, IterationRunner, IterationStage,
    IterationTask,
};

fn action(emit: Emission, next: IterationTask) -> Option<IterationAction> {
    Some(IterationAction { emit, next })
}

#[test]
fn call_runner_runs_its_iterations_in_order() {
    let mut runner = IterationRunner::new(IterationKind::Call, 4, 3);
    assert_eq!(runner.id(), 4);
    assert_eq!(runner.current_stage(), IterationStage::Connecting);
    assert_eq!(runner.current_phase(), RunnerPhase::Connecting);
    assert_eq!(
        runner.step(IterationEvent::Connected),
        action(Emission::Silent, IterationTask::Issue { iteration: 1 })
    );
    assert_eq!(runner.current_phase(), RunnerPhase::Active);
    assert_eq!(
        runner.step(IterationEvent::Succeeded),
        action(
            Emission::Result { session_id: 4, iteration: 1 },
            IterationTask::Issue { iteration: 2 }
        )
    );
    assert_eq!(
        runner.step(IterationEvent::Succeeded),
        action(
            Emission::Result { session_id: 4, iteration: 2 },
            IterationTask::Issue { iteration: 3 }
        )
    );
    assert_eq!(runner.current_stage(), IterationStage::Running { iteration: 3 });
    assert_eq!(
        runner.step(IterationEvent::Succeeded),
        action(Emission::Result { session_id: 4, iteration: 3 }, IterationTask::Leave)
    );
    assert_eq!(runner.current_phase(), RunnerPhase::Draining);
    assert_eq!(runner.step(IterationEvent::Left), action(Emission::Silent, IterationTask::Stop));
    assert_eq!(runner.current_phase(), RunnerPhase::Terminated);
    assert_eq!(runner.current_stage(), IterationStage::Stopped);
}

#[test]
fn failed_iteration_is_reported_and_the_next_one_runs() {
    let mut runner = IterationRunner::new(IterationKind::Call, 2, 2);
    runner.step(IterationEvent::Connected);
    assert_eq!(
        runner.step(IterationEvent::Failed { detail: "boom".to_string() }),
        action(
            Emission::Line(Diagnostic::CallError {
                session_id: 2,
                iteration: 1,
                detail: "boom".to_string()
            }),
            IterationTask::Issue { iteration: 2 }
        )
    );
    assert_eq!(
        runner.step(IterationEvent::Failed { detail: "again".to_string() }),
        action(
            Emission::Line(Diagnostic::CallError {
                session_id: 2,
                iteration: 2,
                detail: "again".to_string()
            }),
            IterationTask::Leave
        )
    );
    assert_eq!(runner.current_stage(), IterationStage::Leaving);
}

#[test]
fn publish_runner_shows_nothing_on_success() {
    let mut runner = IterationRunner::new(IterationKind::Publish, 1, 1);
    assert_eq!(
        runner.step(IterationEvent::Connected),
        action(Emission::Silent, IterationTask::Issue { iteration: 1 })
    );
    assert_eq!(
        runner.step(IterationEvent::Succeeded),
        action(Emission::Silent, IterationTask::Leave)
    );
}

#[test]
fn publish_failure_is_a_publish_error() {
    let mut runner = IterationRunner::new(IterationKind::Publish, 9, 2);
    runner.step(IterationEvent::Connected);
    assert_eq!(
        runner.step(IterationEvent::Failed { detail: "denied".to_string() }),
        action(
            Emission::Line(Diagnostic::PublishError {
                session_id: 9,
                iteration: 1,
                detail: "denied".to_string()
            }),
            IterationTask::Issue { iteration: 2 }
        )
    );
}

#[test]
fn failed_connection_stops_the_runner_without_a_leave() {
    let mut runner = IterationRunner::new(IterationKind::Call, 7, 3);
    assert_eq!(
        runner.step(IterationEvent::ConnectFailed { detail: "refused".to_string() }),
        action(
            Emission::Line(Diagnostic::ConnectionError {
                session_id: 7,
                detail: "refused".to_string()
            }),
            IterationTask::Stop
        )
    );
    assert_eq!(runner.current_stage(), IterationStage::Stopped);
    assert_eq!(runner.step(IterationEvent::Connected), None);
    assert_eq!(runner.step(IterationEvent::Left), None);
}

#[test]
fn failed_leave_is_reported() {
    let mut runner = IterationRunner::new(IterationKind::Call, 3, 1);
    runner.step(IterationEvent::Connected);
    runner.step(IterationEvent::Succeeded);
    assert_eq!(
        runner.step(IterationEvent::LeaveFailed { detail: "gone".to_string() }),
        action(
            Emission::Line(Diagnostic::LeaveError { session_id: 3, detail: "gone".to_string() }),
            IterationTask::Stop
        )
    );
    assert_eq!(runner.current_stage(), IterationStage::Stopped);
}

#[test]
fn events_out_of_place_change_nothing() {
    let mut runner = IterationRunner::new(IterationKind::Call, 1, 2);
    assert_eq!(runner.step(IterationEvent::Succeeded), None);
    assert_eq!(runner.step(IterationEvent::Failed { detail: "x".to_string() }), None);
    assert_eq!(runner.step(IterationEvent::Left), None);
    assert_eq!(runner.step(IterationEvent::LeaveFailed { detail: "x".to_string() }), None);
    assert_eq!(runner.current_stage(), IterationStage::Connecting);
    runner.step(IterationEvent::Connected);
    assert_eq!(runner.step(IterationEvent::Connected), None);
    assert_eq!(runner.step(IterationEvent::ConnectFailed { detail: "x".to_string() }), None);
    assert_eq!(runner.step(IterationEvent::Left), None);
    assert_eq!(runner.current_stage(), IterationStage::Running { iteration: 1 });
    runner.step(IterationEvent::Succeeded);
    runner.step(IterationEvent::Succeeded);
    assert_eq!(runner.current_stage(), IterationStage::Leaving);
    assert_eq!(runner.step(IterationEvent::Succeeded), None);
    assert_eq!(runner.step(IterationEvent::Connected), None);
    assert_eq!(runner.current_stage(), IterationStage::Leaving);
}

#[test]
fn runner_without_iterations_connects_and_leaves() {
    let mut runner = IterationRunner::new(IterationKind::Publish, 1, 0);
    assert_eq!(
        runner.step(IterationEvent::Connected),
        action(Emission::Silent, IterationTask::Leave)
    );
    assert_eq!(runner.step(IterationEvent::Left), action(Emission::Silent, IterationTask::Stop));
}

#[test]
fn runner_issues_exactly_repeat_requests() {
    for repeat in [1u32, 2, 5, 17] {
        let mut runner = IterationRunner::new(IterationKind::Call, 1, repeat);
        let mut issued: Vec<u32> = Vec::new();
        let mut next = runner.step(IterationEvent::Connected).unwrap().next;
        let mut flip = false;
        while let IterationTask::Issue { iteration } = next {
            issued.push(iteration);
            flip = !flip;
            let event = if flip {
                IterationEvent::Succeeded
            } else {
                IterationEvent::Failed { detail: "e".to_string() }
            };
            next = runner.step(event).unwrap().next;
        }
        assert_eq!(next, IterationTask::Leave);
        assert_eq!(issued, (1..=repeat).collect::<Vec<u32>>());
    }
}
