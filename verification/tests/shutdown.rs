use wcli::diagnostic::Diagnostic;
use wcli::error::ConfigError;
use wcli::phase::RunnerPhase;
use wcli::shutdown::{CoordinatorEvent, CoordinatorStep, Reaction, ShutdownCoordinator};
use wcli::standing::DisconnectEvent;

fn nothing() -> Reaction {
    Reaction { line: None, raised: false }
}

fn progress(session_id: u32, phase: RunnerPhase) -> CoordinatorEvent {
    CoordinatorEvent::Progress { session_id, phase }
}

#[test]
fn coordinator_rejects_zero_counts() {
    assert!(matches!(ShutdownCoordinator::new(0, 1), Err(ConfigError::ZeroParallel)));
    assert!(matches!(ShutdownCoordinator::new(2, 0), Err(ConfigError::ZeroConcurrency)));
}

#[test]
fn interrupt_sets_the_signal_once() {
    let mut coordinator = ShutdownCoordinator::new(2, 2).unwrap();
    assert_eq!(coordinator.next_step(), CoordinatorStep::Launch { session_id: 1 });
    assert_eq!(coordinator.next_step(), CoordinatorStep::Launch { session_id: 2 });
    assert_eq!(coordinator.next_step(), CoordinatorStep::Wait);
    assert!(!coordinator.shutdown_signalled());
    assert_eq!(
        coordinator.on_event(CoordinatorEvent::Interrupt),
        Reaction { line: Some(Diagnostic::Exiting), raised: true }
    );
    assert!(coordinator.shutdown_signalled());
    assert_eq!(coordinator.on_event(CoordinatorEvent::Interrupt), nothing());
    assert_eq!(
        coordinator.on_event(CoordinatorEvent::Disconnect(DisconnectEvent {
            session_id: 1,
            cause: "x".to_string()
        })),
        nothing()
    );
    assert!(coordinator.shutdown_signalled());
    assert_eq!(coordinator.next_step(), CoordinatorStep::Wait);
    assert_eq!(coordinator.on_event(progress(1, RunnerPhase::Terminated)), nothing());
    assert_eq!(coordinator.next_step(), CoordinatorStep::Wait);
    assert_eq!(coordinator.on_event(progress(2, RunnerPhase::Terminated)), nothing());
    assert_eq!(coordinator.next_step(), CoordinatorStep::Return);
}

#[test]
fn disconnect_sets_the_signal_and_is_announced() {
    let mut coordinator = ShutdownCoordinator::new(1, 1).unwrap();
    assert_eq!(coordinator.next_step(), CoordinatorStep::Launch { session_id: 1 });
    assert_eq!(
        coordinator.on_event(CoordinatorEvent::Disconnect(DisconnectEvent {
            session_id: 1,
            cause: "reset".to_string()
        })),
        Reaction { line: Some(Diagnostic::LostConnection), raised: true }
    );
    assert_eq!(coordinator.on_event(CoordinatorEvent::Interrupt), nothing());
    assert_eq!(coordinator.next_step(), CoordinatorStep::Wait);
    assert_eq!(coordinator.on_event(progress(1, RunnerPhase::Terminated)), nothing());
    assert_eq!(coordinator.next_step(), CoordinatorStep::Return);
}

#[test]
fn natural_end_of_every_session_sets_the_signal_silently() {
    let mut coordinator = ShutdownCoordinator::new(2, 1).unwrap();
    assert_eq!(coordinator.next_step(), CoordinatorStep::Launch { session_id: 1 });
    assert_eq!(coordinator.next_step(), CoordinatorStep::Wait);
    assert_eq!(coordinator.on_event(progress(1, RunnerPhase::Terminated)), nothing());
    assert!(!coordinator.shutdown_signalled());
    assert_eq!(coordinator.next_step(), CoordinatorStep::Launch { session_id: 2 });
    assert_eq!(
        coordinator.on_event(progress(2, RunnerPhase::Terminated)),
        Reaction { line: None, raised: true }
    );
    assert!(coordinator.shutdown_signalled());
    assert_eq!(coordinator.next_step(), CoordinatorStep::Return);
    assert_eq!(coordinator.on_event(CoordinatorEvent::Interrupt), nothing());
    assert_eq!(coordinator.next_step(), CoordinatorStep::Return);
}

#[test]
fn sessions_left_to_start_are_started_after_the_signal() {
    let mut coordinator = ShutdownCoordinator::new(2, 1).unwrap();
    assert_eq!(coordinator.next_step(), CoordinatorStep::Launch { session_id: 1 });
    assert_eq!(
        coordinator.on_event(CoordinatorEvent::Disconnect(DisconnectEvent {
            session_id: 1,
            cause: "reset".to_string()
        })),
        Reaction { line: Some(Diagnostic::LostConnection), raised: true }
    );
    assert_eq!(coordinator.next_step(), CoordinatorStep::Wait);
    assert_eq!(coordinator.on_event(progress(1, RunnerPhase::Terminated)), nothing());
    assert_eq!(coordinator.next_step(), CoordinatorStep::Launch { session_id: 2 });
    assert_eq!(coordinator.launched_count(), 2);
    assert_eq!(coordinator.phase_of(2), Some(RunnerPhase::Connecting));
    assert_eq!(coordinator.next_step(), CoordinatorStep::Wait);
    assert_eq!(coordinator.on_event(progress(2, RunnerPhase::Active)), nothing());
    assert_eq!(coordinator.on_event(progress(2, RunnerPhase::Draining)), nothing());
    assert_eq!(coordinator.next_step(), CoordinatorStep::Wait);
    assert_eq!(coordinator.on_event(progress(2, RunnerPhase::Terminated)), nothing());
    assert_eq!(coordinator.next_step(), CoordinatorStep::Return);
    assert_eq!(coordinator.launched_count(), 2);
    assert_eq!(coordinator.in_flight(), 0);
}

#[test]
fn interrupt_before_the_last_launch_still_uses_every_id() {
    let mut coordinator = ShutdownCoordinator::new(4, 2).unwrap();
    let mut ids = Vec::new();
    let mut live: Vec<u32> = Vec::new();
    let mut interrupted = false;
    loop {
        match coordinator.next_step() {
            CoordinatorStep::Launch { session_id } => {
                ids.push(session_id);
                live.push(session_id);
                if !interrupted {
                    interrupted = true;
                    assert!(coordinator.on_event(CoordinatorEvent::Interrupt).raised);
                }
            }
            CoordinatorStep::Wait => {
                let id = live.remove(0);
                assert!(!coordinator.on_event(progress(id, RunnerPhase::Terminated)).raised);
                assert!(coordinator.in_flight() <= 2);
            }
            CoordinatorStep::Return => break,
        }
    }
    assert_eq!(ids, vec![1, 2, 3, 4]);
    assert!(live.is_empty());
    assert!(coordinator.shutdown_signalled());
}

#[test]
fn the_time_for_draining_is_ten_seconds() {
    assert_eq!(wcli::shutdown::DRAIN_SECONDS, 10);
}

#[test]
fn drain_ends_when_its_time_is_over() {
    let mut coordinator = ShutdownCoordinator::new(2, 2).unwrap();
    coordinator.next_step();
    coordinator.next_step();
    assert_eq!(coordinator.on_event(CoordinatorEvent::DrainExpired), nothing());
    assert_eq!(coordinator.next_step(), CoordinatorStep::Wait);
    coordinator.on_event(CoordinatorEvent::Interrupt);
    assert_eq!(coordinator.next_step(), CoordinatorStep::Wait);
    coordinator.on_event(progress(1, RunnerPhase::Terminated));
    assert_eq!(coordinator.next_step(), CoordinatorStep::Wait);
    assert_eq!(coordinator.in_flight(), 1);
    assert_eq!(coordinator.on_event(CoordinatorEvent::DrainExpired), nothing());
    assert_eq!(coordinator.next_step(), CoordinatorStep::Return);
    assert_eq!(coordinator.in_flight(), 1);
}

#[test]
fn progress_of_unknown_sessions_is_ignored() {
    let mut coordinator = ShutdownCoordinator::new(2, 2).unwrap();
    assert_eq!(coordinator.on_event(progress(1, RunnerPhase::Terminated)), nothing());
    assert_eq!(coordinator.next_step(), CoordinatorStep::Launch { session_id: 1 });
    assert_eq!(coordinator.on_event(progress(2, RunnerPhase::Terminated)), nothing());
    assert_eq!(coordinator.on_event(progress(0, RunnerPhase::Terminated)), nothing());
    assert_eq!(coordinator.in_flight(), 1);
    assert!(!coordinator.shutdown_signalled());
}
