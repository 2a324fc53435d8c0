use wcli::error::ConfigError;
use wcli::limiter::ConcurrencyLimiter;
use wcli::phase::RunnerPhase;
use wcli::pool::{PoolStep, SessionPool};
use wcli::signal::{OnceLatch, ShutdownSignal};

#[test]
fn limiter_grants_up_to_its_capacity() {
    let mut limiter = ConcurrencyLimiter::new(2);
    assert_eq!(limiter.limit(), 2);
    assert_eq!(limiter.held(), 0);
    assert!(limiter.try_acquire());
    assert!(limiter.try_acquire());
    assert!(!limiter.try_acquire());
    assert_eq!(limiter.held(), 2);
    assert!(limiter.release());
    assert_eq!(limiter.held(), 1);
    assert!(limiter.try_acquire());
    assert!(limiter.release());
    assert!(limiter.release());
    assert!(!limiter.release());
    assert_eq!(limiter.held(), 0);
}

#[test]
fn limiter_without_slots_grants_nothing() {
    let mut limiter = ConcurrencyLimiter::new(0);
    assert!(!limiter.try_acquire());
    assert!(!limiter.release());
    assert_eq!(limiter.held(), 0);
}

#[test]
fn latch_fires_once() {
    let mut latch = OnceLatch::new();
    assert!(!latch.fired());
    assert!(latch.try_fire());
    assert!(latch.fired());
    assert!(!latch.try_fire());
    assert!(!latch.try_fire());
    assert!(latch.fired());
}

#[test]
fn shutdown_signal_is_set_once_and_stays_set() {
    let mut signal = ShutdownSignal::new();
    assert!(!signal.raised());
    assert!(signal.raise());
    assert!(signal.raised());
    assert!(!signal.raise());
    assert!(signal.raised());
}

#[test]
fn phases_only_move_forward() {
    let order = [
        RunnerPhase::Connecting,
        RunnerPhase::Active,
        RunnerPhase::Draining,
        RunnerPhase::Terminated,
    ];
    for (i, a) in order.iter().enumerate() {
        assert_eq!(a.position() as usize, i);
        for (j, b) in order.iter().enumerate() {
            assert_eq!(a.can_become(*b), i < j);
        }
    }
}

#[test]
fn pool_rejects_zero_counts() {
    assert!(matches!(SessionPool::new(0, 1), Err(ConfigError::ZeroParallel)));
    assert!(matches!(SessionPool::new(0, 0), Err(ConfigError::ZeroParallel)));
    assert!(matches!(SessionPool::new(1, 0), Err(ConfigError::ZeroConcurrency)));
    assert!(SessionPool::new(1, 1).is_ok());
}

#[test]
fn pool_launches_while_slots_are_free() {
    let mut pool = SessionPool::new(3, 2).unwrap();
    assert_eq!(pool.next_step(), PoolStep::Launch { session_id: 1 });
    assert_eq!(pool.next_step(), PoolStep::Launch { session_id: 2 });
    assert_eq!(pool.next_step(), PoolStep::Wait);
    assert_eq!(pool.next_step(), PoolStep::Wait);
    assert_eq!(pool.launched_count(), 2);
    assert_eq!(pool.in_flight(), 2);
    assert_eq!(pool.connecting_now(), 2);
    assert!(pool.advance(1, RunnerPhase::Active));
    assert_eq!(pool.connecting_now(), 1);
    assert_eq!(pool.next_step(), PoolStep::Wait);
    assert!(pool.advance(1, RunnerPhase::Terminated));
    assert_eq!(pool.in_flight(), 1);
    assert_eq!(pool.next_step(), PoolStep::Launch { session_id: 3 });
    assert_eq!(pool.next_step(), PoolStep::Wait);
    assert!(pool.advance(2, RunnerPhase::Terminated));
    assert!(pool.advance(3, RunnerPhase::Draining));
    assert!(!pool.finished());
    assert!(pool.advance(3, RunnerPhase::Terminated));
    assert!(pool.finished());
    assert_eq!(pool.next_step(), PoolStep::Done);
    assert_eq!(pool.next_step(), PoolStep::Done);
}

#[test]
fn pool_accepts_only_forward_progress_of_started_sessions() {
    let mut pool = SessionPool::new(2, 2).unwrap();
    assert!(!pool.advance(1, RunnerPhase::Active));
    assert_eq!(pool.phase_of(1), None);
    assert_eq!(pool.next_step(), PoolStep::Launch { session_id: 1 });
    assert_eq!(pool.phase_of(1), Some(RunnerPhase::Connecting));
    assert_eq!(pool.phase_of(0), None);
    assert_eq!(pool.phase_of(2), None);
    assert!(!pool.advance(0, RunnerPhase::Active));
    assert!(!pool.advance(2, RunnerPhase::Active));
    assert!(!pool.advance(1, RunnerPhase::Connecting));
    assert!(pool.advance(1, RunnerPhase::Draining));
    assert!(!pool.advance(1, RunnerPhase::Active));
    assert!(!pool.advance(1, RunnerPhase::Draining));
    assert_eq!(pool.phase_of(1), Some(RunnerPhase::Draining));
    assert!(pool.advance(1, RunnerPhase::Terminated));
    assert!(!pool.advance(1, RunnerPhase::Terminated));
    assert_eq!(pool.in_flight(), 0);
    assert_eq!(pool.phase_of(1), Some(RunnerPhase::Terminated));
}

fn drive(parallel: u32, concurrency: usize) -> (Vec<u32>, usize, usize) {
    let mut pool = SessionPool::new(parallel, concurrency).unwrap();
    let mut ids: Vec<u32> = Vec::new();
    let mut live: Vec<u32> = Vec::new();
    let mut most_in_flight = 0;
    let mut most_connecting = 0;
    let mut turn = 0usize;
    loop {
        most_in_flight = most_in_flight.max(pool.in_flight());
        most_connecting = most_connecting.max(pool.connecting_now());
        match pool.next_step() {
            PoolStep::Launch { session_id } => {
                ids.push(session_id);
                live.push(session_id);
            }
            PoolStep::Wait => {
                let pick = turn % live.len();
                turn += 1;
                let id = live[pick];
                let next = match pool.phase_of(id).unwrap() {
                    RunnerPhase::Connecting => RunnerPhase::Active,
                    RunnerPhase::Active => RunnerPhase::Draining,
                    _ => RunnerPhase::Terminated,
                };
                assert!(pool.advance(id, next));
                if next == RunnerPhase::Terminated {
                    live.remove(pick);
                }
            }
            PoolStep::Done => break,
        }
    }
    (ids, most_in_flight, most_connecting)
}

#[test]
fn every_session_id_is_used_exactly_once() {
    for (parallel, concurrency) in [(1, 1), (5, 2), (4, 4), (3, 10), (7, 1), (16, 3)] {
        let (ids, _, _) = drive(parallel, concurrency);
        let expected: Vec<u32> = (1..=parallel).collect();
        assert_eq!(ids, expected);
    }
}

#[test]
fn never_more_sessions_in_flight_than_the_cap() {
    for (parallel, concurrency) in [(1, 1), (5, 2), (4, 4), (3, 10), (7, 1), (16, 3)] {
        let (_, most_in_flight, most_connecting) = drive(parallel, concurrency);
        assert!(most_in_flight <= concurrency);
        assert!(most_connecting <= concurrency);
        assert_eq!(most_in_flight, concurrency.min(parallel as usize));
    }
}
