//! Errors that stop a command before any session is created.

use vstd::prelude::*;

verus! {

/// A command that cannot be run as given.
#[derive(Debug, PartialEq, Eq)]
pub enum ConfigError {
    /// The serializer name, lower-cased, is none of the supported ones.
    UnknownSerializer { name: String },
    /// Zero iterations per session were asked for.
    ZeroRepeat,
    /// Zero sessions were asked for.
    ZeroParallel,
    /// An admission cap of zero would never let a session start.
    ZeroConcurrency,
}

impl ConfigError {
    /// The text shown to the user for this error.
    pub open spec fn message_text(&self) -> Seq<char> {
        match self {
            ConfigError::UnknownSerializer { name } => "Unknown serializer '"@ + name@
                + "'. Valid options: json, msgpack, cbor"@,
            ConfigError::ZeroRepeat => "repeat must be at least 1"@,
            ConfigError::ZeroParallel => "parallel must be at least 1"@,
            ConfigError::ZeroConcurrency => "concurrency must be at least 1"@,
        }
    }

    /// Renders the error for the user.
    pub fn message(&self) -> (text: String)
        ensures
            text@ == self.message_text(),
    {
        match self {
            ConfigError::UnknownSerializer { name } => {
                let mut text = String::from_str("Unknown serializer '");
                text.append(name.as_str());
                text.append("'. Valid options: json, msgpack, cbor");
                text
            },
            ConfigError::ZeroRepeat => String::from_str("repeat must be at least 1"),
            ConfigError::ZeroParallel => String::from_str("parallel must be at least 1"),
            ConfigError::ZeroConcurrency => String::from_str("concurrency must be at least 1"),
        }
    }
}

} // verus!
