//! The command line as plain data.

use crate::config::{CallConfig, PublishConfig, SubscribeConfig};
use vstd::prelude::*;

verus! {

/// The options that every command shares, and the command itself.
#[derive(Debug)]
pub struct Cli {
    /// The URL of the router to connect to.
    pub url: String,
    /// The realm to join.
    pub realm: String,
    /// The authid to use, if authenticating.
    pub authid: Option<String>,
    /// The authrole to use, if authenticating.
    pub authrole: Option<String>,
    /// The secret to use in challenge-response authentication.
    pub secret: Option<String>,
    /// The ed25519 private key, in hex, for cryptosign.
    pub private_key: Option<String>,
    /// The ticket when using ticket authentication.
    pub ticket: Option<String>,
    /// The serializer to use: `json`, `msgpack` or `cbor`.
    pub serializer: String,
    /// The command to run.
    pub command: Commands,
}

/// The commands of the client.
#[derive(Debug)]
pub enum Commands {
    /// Call a procedure.
    Call {
        procedure: String,
        args: Vec<String>,
        kwargs: Vec<String>,
        options: Vec<String>,
        repeat: u32,
        parallel: u32,
        concurrency: usize,
    },
    /// Register a procedure.
    Register { procedure: String },
    /// Subscribe to a topic.
    Subscribe { topic: String, parallel: u32, concurrency: usize },
    /// Publish to a topic.
    Publish {
        topic: String,
        args: Vec<String>,
        kwargs: Vec<String>,
        options: Vec<String>,
        repeat: u32,
        parallel: u32,
        concurrency: usize,
        acknowledge: bool,
    },
    /// Generate a cryptosign key pair, and write it to files where a name
    /// is given.
    Keygen { output_file: Option<String> },
}

/// A command with its own configuration, ready to run.
#[derive(Debug)]
pub enum Job {
    /// Generate a key pair.
    Keygen { output_file: Option<String> },
    /// Run calls.
    Call(CallConfig),
    /// Hold a registration.
    Register { procedure: String },
    /// Hold subscriptions.
    Subscribe(SubscribeConfig),
    /// Run publishes.
    Publish(PublishConfig),
}

impl Commands {
    /// The job that a command stands for: the same values, grouped as the
    /// command's configuration.
    pub open spec fn job_of(self) -> Job {
        match self {
            Commands::Call { procedure, args, kwargs, options, repeat, parallel, concurrency } => {
                Job::Call(
                    CallConfig { procedure, args, kwargs, options, repeat, parallel, concurrency },
                )
            },
            Commands::Register { procedure } => Job::Register { procedure },
            Commands::Subscribe { topic, parallel, concurrency } => Job::Subscribe(
                SubscribeConfig { topic, parallel, concurrency },
            ),
            Commands::Publish {
                topic,
                args,
                kwargs,
                options,
                repeat,
                parallel,
                concurrency,
                acknowledge,
            } => Job::Publish(
                PublishConfig {
                    topic,
                    args,
                    kwargs,
                    options,
                    repeat,
                    parallel,
                    concurrency,
                    acknowledge,
                },
            ),
            Commands::Keygen { output_file } => Job::Keygen { output_file },
        }
    }

    /// Turns the command into its job.
    pub fn into_job(self) -> (job: Job)
        ensures
            job == self.job_of(),
    {
        match self {
            Commands::Call { procedure, args, kwargs, options, repeat, parallel, concurrency } => {
                Job::Call(
                    CallConfig { procedure, args, kwargs, options, repeat, parallel, concurrency },
                )
            },
            Commands::Register { procedure } => Job::Register { procedure },
            Commands::Subscribe { topic, parallel, concurrency } => Job::Subscribe(
                SubscribeConfig { topic, parallel, concurrency },
            ),
            Commands::Publish {
                topic,
                args,
                kwargs,
                options,
                repeat,
                parallel,
                concurrency,
                acknowledge,
            } => Job::Publish(
                PublishConfig {
                    topic,
                    args,
                    kwargs,
                    options,
                    repeat,
                    parallel,
                    concurrency,
                    acknowledge,
                },
            ),
            Commands::Keygen { output_file } => Job::Keygen { output_file },
        }
    }
}

} // verus!
