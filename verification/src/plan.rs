//! What has to hold of a command before its first session is created.
//!
//! A command that cannot run as configured is refused here, with a
//! configuration error and with nothing started. A command that can run
//! gets its serializer and the pool or coordinator that will admit its
//! sessions, neither of which has started one.

use crate::config::{
    lowercase_of, serializer_of, CallConfig, ConnectionConfig, PublishConfig, SerializerKind,
    SubscribeConfig,
};
use crate::error::ConfigError;
use crate::phase::RunnerPhase;
use crate::pool::SessionPool;
use crate::shutdown::{fresh_state, ShutdownCoordinator};
use vstd::prelude::*;

verus! {

/// The first count that is zero, as the error it gives: repeat before
/// parallel before concurrency.
pub open spec fn counts_error(repeat: u32, parallel: u32, concurrency: usize) -> Option<
    ConfigError,
> {
    if repeat == 0 {
        Some(ConfigError::ZeroRepeat)
    } else if parallel == 0 {
        Some(ConfigError::ZeroParallel)
    } else if concurrency == 0 {
        Some(ConfigError::ZeroConcurrency)
    } else {
        None
    }
}

/// Whether `r` is what a command with these counts and this serializer name
/// is answered with: the error of its counts if one is zero; else the error
/// of its serializer if the name, in lower case, selects none; else the
/// serializer.
pub open spec fn answers(
    r: Result<SerializerKind, ConfigError>,
    repeat: u32,
    parallel: u32,
    concurrency: usize,
    serializer: Seq<char>,
) -> bool {
    match counts_error(repeat, parallel, concurrency) {
        Some(error) => r == Err::<SerializerKind, ConfigError>(error),
        None => match serializer_of(lowercase_of(serializer)) {
            Some(kind) => r == Ok::<SerializerKind, ConfigError>(kind),
            None => r matches Err(ConfigError::UnknownSerializer { name }) && name@
                == lowercase_of(serializer),
        },
    }
}

fn check(
    conn: &ConnectionConfig,
    repeat: u32,
    parallel: u32,
    concurrency: usize,
) -> (r: Result<SerializerKind, ConfigError>)
    ensures
        answers(r, repeat, parallel, concurrency, conn.serializer@),
{
    if repeat == 0 {
        Err(ConfigError::ZeroRepeat)
    } else if parallel == 0 {
        Err(ConfigError::ZeroParallel)
    } else if concurrency == 0 {
        Err(ConfigError::ZeroConcurrency)
    } else {
        conn.create_serializer()
    }
}

fn pool_for(parallel: u32, concurrency: usize) -> (r: Result<SessionPool, ConfigError>)
    requires
        parallel > 0,
        concurrency > 0,
    ensures
        r is Ok,
        r->Ok_0.well_formed(),
        r->Ok_0.parallel() == parallel,
        r->Ok_0.concurrency() == concurrency,
        r->Ok_0.phases() == Seq::<RunnerPhase>::empty(),
{
    SessionPool::new(parallel, concurrency)
}

/// Admits a call command. Every configuration error comes from here, before
/// any session is created: the pool that is handed out has started none.
pub fn prepare_call(conn: &ConnectionConfig, config: &CallConfig) -> (r: Result<
    (SerializerKind, SessionPool),
    ConfigError,
>)
    ensures
        answers(
            match r {
                Ok((kind, _)) => Ok(kind),
                Err(error) => Err(error),
            },
            config.repeat,
            config.parallel,
            config.concurrency,
            conn.serializer@,
        ),
        r matches Ok((_, pool)) ==> pool.well_formed() && pool.parallel() == config.parallel
            && pool.concurrency() == config.concurrency && pool.phases() == Seq::<
            RunnerPhase,
        >::empty(),
{
    match check(conn, config.repeat, config.parallel, config.concurrency) {
        Ok(kind) => match pool_for(config.parallel, config.concurrency) {
            Ok(pool) => Ok((kind, pool)),
            Err(error) => Err(error),
        },
        Err(error) => Err(error),
    }
}

/// Admits a publish command, as a call command is admitted.
pub fn prepare_publish(conn: &ConnectionConfig, config: &PublishConfig) -> (r: Result<
    (SerializerKind, SessionPool),
    ConfigError,
>)
    ensures
        answers(
            match r {
                Ok((kind, _)) => Ok(kind),
                Err(error) => Err(error),
            },
            config.repeat,
            config.parallel,
            config.concurrency,
            conn.serializer@,
        ),
        r matches Ok((_, pool)) ==> pool.well_formed() && pool.parallel() == config.parallel
            && pool.concurrency() == config.concurrency && pool.phases() == Seq::<
            RunnerPhase,
        >::empty(),
{
    match check(conn, config.repeat, config.parallel, config.concurrency) {
        Ok(kind) => match pool_for(config.parallel, config.concurrency) {
            Ok(pool) => Ok((kind, pool)),
            Err(error) => Err(error),
        },
        Err(error) => Err(error),
    }
}

/// Admits a subscribe command, whose sessions each hold one subscription:
/// its counts are those of a command that repeats once. The coordinator
/// that is handed out has started no session and signalled nothing.
pub fn prepare_subscribe(conn: &ConnectionConfig, config: &SubscribeConfig) -> (r: Result<
    (SerializerKind, ShutdownCoordinator),
    ConfigError,
>)
    ensures
        answers(
            match r {
                Ok((kind, _)) => Ok(kind),
                Err(error) => Err(error),
            },
            1,
            config.parallel,
            config.concurrency,
            conn.serializer@,
        ),
        r matches Ok((_, coordinator)) ==> coordinator.well_formed() && coordinator.state()
            == fresh_state(config.parallel as nat, config.concurrency as nat),
{
    match check(conn, 1, config.parallel, config.concurrency) {
        Ok(kind) => match ShutdownCoordinator::new(config.parallel, config.concurrency) {
            Ok(coordinator) => Ok((kind, coordinator)),
            Err(error) => Err(error),
        },
        Err(error) => Err(error),
    }
}

/// Admits a register command, which has one session and no counts.
pub fn prepare_register(conn: &ConnectionConfig) -> (r: Result<SerializerKind, ConfigError>)
    ensures
        answers(r, 1, 1, 1, conn.serializer@),
{
    check(conn, 1, 1, 1)
}

/// A command is refused exactly if one of its counts is zero or its
/// serializer is unknown; the counts are looked at first.
pub proof fn lemma_refused_exactly_when_misconfigured(
    r: Result<SerializerKind, ConfigError>,
    repeat: u32,
    parallel: u32,
    concurrency: usize,
    serializer: Seq<char>,
)
    requires
        answers(r, repeat, parallel, concurrency, serializer),
    ensures
        r is Err <==> repeat == 0 || parallel == 0 || concurrency == 0 || serializer_of(
            lowercase_of(serializer),
        ) is None,
        r matches Err(ConfigError::UnknownSerializer { .. }) ==> repeat > 0 && parallel > 0
            && concurrency > 0,
{
}

} // verus!
