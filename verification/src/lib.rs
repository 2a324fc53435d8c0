//! Verified core of a command-line client for a routed publish/subscribe and
//! remote-procedure-call protocol.
//!
//! The crate holds the decisions of the client: how argument tokens become
//! typed values, how requests are assembled, how results are rendered, and how
//! a group of sessions is admitted, driven and shut down. The surrounding
//! program performs the I/O that these decisions ask for.

pub mod cli;
pub mod config;
pub mod diagnostic;
pub mod error;
pub mod keygen;
pub mod limiter;
pub mod literal;
pub mod phase;
pub mod plan;
pub mod pool;
pub mod report;
pub mod request;
pub mod runner;
pub mod shutdown;
pub mod signal;
pub mod standing;
pub mod text;
