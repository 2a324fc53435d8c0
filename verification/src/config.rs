//! Connection and command configuration.

use crate::cli::Cli;
use crate::error::ConfigError;
use crate::text::text_equals;
use vstd::prelude::*;
use vstd::std_specs::convert::FromSpecImpl;

verus! {

/// Where and as whom to connect.
#[derive(Debug)]
pub struct ConnectionConfig {
    pub url: String,
    pub realm: String,
    pub authid: Option<String>,
    pub authrole: Option<String>,
    pub secret: Option<String>,
    pub private_key: Option<String>,
    pub ticket: Option<String>,
    pub serializer: String,
}

/// What a call command does.
#[derive(Debug)]
pub struct CallConfig {
    pub procedure: String,
    pub args: Vec<String>,
    pub kwargs: Vec<String>,
    pub options: Vec<String>,
    pub repeat: u32,
    pub parallel: u32,
    pub concurrency: usize,
}

/// What a publish command does.
#[derive(Debug)]
pub struct PublishConfig {
    pub topic: String,
    pub args: Vec<String>,
    pub kwargs: Vec<String>,
    pub options: Vec<String>,
    pub repeat: u32,
    pub parallel: u32,
    pub concurrency: usize,
    pub acknowledge: bool,
}

/// What a subscribe command does.
#[derive(Debug)]
pub struct SubscribeConfig {
    pub topic: String,
    pub parallel: u32,
    pub concurrency: usize,
}

/// The wire format of a session.
#[derive(Clone, Copy, Debug, PartialEq, Eq, Structural)]
pub enum SerializerKind {
    Json,
    MsgPack,
    Cbor,
}

/// How a session authenticates, with the credential it uses.
#[derive(Debug, PartialEq, Eq)]
pub enum AuthMethod {
    /// Cryptosign with an ed25519 private key in hex.
    CryptoSign { authid: String, private_key: String },
    /// Challenge-response with a shared secret.
    ChallengeResponse { authid: String, secret: String },
    /// A ticket.
    Ticket { authid: String, ticket: String },
    /// No credential.
    Anonymous { authid: String },
}

/// The lower-case form of a text, as the standard library's `to_lowercase`
/// gives it.
pub uninterp spec fn lowercase_of(s: Seq<char>) -> Seq<char>;

/// Calls `str::to_lowercase`. The contract names its result and claims
/// nothing else of it.
#[verifier::external_body]
fn to_lowercase(s: &str) -> (lower: String)
    ensures
        lower@ == lowercase_of(s@),
{
    s.to_lowercase()
}

/// The serializer that a lower-case name selects.
pub open spec fn serializer_of(name: Seq<char>) -> Option<SerializerKind> {
    if name == "json"@ {
        Some(SerializerKind::Json)
    } else if name == "msgpack"@ {
        Some(SerializerKind::MsgPack)
    } else if name == "cbor"@ {
        Some(SerializerKind::Cbor)
    } else {
        None
    }
}

/// Selects the serializer by its lower-case name; any other name is an
/// error that carries the name.
pub fn serializer_named(name: String) -> (r: Result<SerializerKind, ConfigError>)
    ensures
        match serializer_of(name@) {
            Some(kind) => r == Ok::<SerializerKind, ConfigError>(kind),
            None => r == Err::<SerializerKind, ConfigError>(
                ConfigError::UnknownSerializer { name },
            ),
        },
{
    if text_equals(name.as_str(), "json") {
        Ok(SerializerKind::Json)
    } else if text_equals(name.as_str(), "msgpack") {
        Ok(SerializerKind::MsgPack)
    } else if text_equals(name.as_str(), "cbor") {
        Ok(SerializerKind::Cbor)
    } else {
        Err(ConfigError::UnknownSerializer { name })
    }
}

/// Accepts the counts of a command if each is at least one. A count of zero
/// is reported in the order repeat, parallel, concurrency.
pub fn check_counts(repeat: u32, parallel: u32, concurrency: usize) -> (r: Result<
    (),
    ConfigError,
>)
    ensures
        repeat == 0 ==> r == Err::<(), ConfigError>(ConfigError::ZeroRepeat),
        repeat > 0 && parallel == 0 ==> r == Err::<(), ConfigError>(ConfigError::ZeroParallel),
        repeat > 0 && parallel > 0 && concurrency == 0 ==> r == Err::<(), ConfigError>(
            ConfigError::ZeroConcurrency,
        ),
        repeat > 0 && parallel > 0 && concurrency > 0 ==> r == Ok::<(), ConfigError>(()),
{
    if repeat == 0 {
        Err(ConfigError::ZeroRepeat)
    } else if parallel == 0 {
        Err(ConfigError::ZeroParallel)
    } else if concurrency == 0 {
        Err(ConfigError::ZeroConcurrency)
    } else {
        Ok(())
    }
}

fn clone_text(text: &Option<String>) -> (copy: Option<String>)
    ensures
        copy == *text,
{
    match text {
        Some(t) => Some(t.clone()),
        None => None,
    }
}

impl ConnectionConfig {
    /// The authid that is sent: the configured one, or the empty text.
    pub open spec fn authid_text(&self) -> Seq<char> {
        match self.authid {
            Some(authid) => authid@,
            None => Seq::empty(),
        }
    }

    /// Selects the serializer by the configured name, whatever its case.
    pub fn create_serializer(&self) -> (r: Result<SerializerKind, ConfigError>)
        ensures
            match serializer_of(lowercase_of(self.serializer@)) {
                Some(kind) => r == Ok::<SerializerKind, ConfigError>(kind),
                None => r matches Err(ConfigError::UnknownSerializer { name }) && name@
                    == lowercase_of(self.serializer@),
            },
    {
        serializer_named(to_lowercase(self.serializer.as_str()))
    }

    /// Chooses how to authenticate. The first credential that is configured
    /// decides, in the order private key, secret, ticket; without any, the
    /// session is anonymous.
    pub fn create_authenticator(&self) -> (method: AuthMethod)
        ensures
            match (self.private_key, self.secret, self.ticket) {
                (Some(key), _, _) => method matches AuthMethod::CryptoSign { authid, private_key }
                    && authid@ == self.authid_text() && private_key == key,
                (None, Some(shared), _) => method matches AuthMethod::ChallengeResponse {
                    authid,
                    secret,
                } && authid@ == self.authid_text() && secret == shared,
                (None, None, Some(given)) => method matches AuthMethod::Ticket { authid, ticket }
                    && authid@ == self.authid_text() && ticket == given,
                (None, None, None) => method matches AuthMethod::Anonymous { authid } && authid@
                    == self.authid_text(),
            },
    {
        let authid: String = match &self.authid {
            Some(authid) => authid.clone(),
            None => String::new(),
        };
        match &self.private_key {
            Some(key) => {
                return AuthMethod::CryptoSign { authid, private_key: key.clone() };
            },
            None => {},
        }
        match &self.secret {
            Some(secret) => {
                return AuthMethod::ChallengeResponse { authid, secret: secret.clone() };
            },
            None => {},
        }
        match &self.ticket {
            Some(ticket) => {
                return AuthMethod::Ticket { authid, ticket: ticket.clone() };
            },
            None => {},
        }
        AuthMethod::Anonymous { authid }
    }

    /// The extra values sent with the authentication: the role, under the
    /// key `authrole`, where one is configured.
    pub fn build_auth_extra(&self) -> (extra: Vec<(String, String)>)
        ensures
            match self.authrole {
                Some(role) => extra@.len() == 1 && extra@[0].0@ == "authrole"@ && extra@[0].1
                    == role,
                None => extra@.len() == 0,
            },
    {
        let mut extra: Vec<(String, String)> = Vec::new();
        match &self.authrole {
            Some(role) => {
                extra.push((String::from_str("authrole"), role.clone()));
            },
            None => {},
        }
        extra
    }
}

impl From<&Cli> for ConnectionConfig {
    fn from(cli: &Cli) -> (config: ConnectionConfig) {
        ConnectionConfig {
            url: cli.url.clone(),
            realm: cli.realm.clone(),
            authid: clone_text(&cli.authid),
            authrole: clone_text(&cli.authrole),
            secret: clone_text(&cli.secret),
            private_key: clone_text(&cli.private_key),
            ticket: clone_text(&cli.ticket),
            serializer: cli.serializer.clone(),
        }
    }
}

impl FromSpecImpl<&Cli> for ConnectionConfig {
    open spec fn obeys_from_spec() -> bool {
        true
    }

    open spec fn from_spec(cli: &Cli) -> ConnectionConfig {
        ConnectionConfig {
            url: cli.url,
            realm: cli.realm,
            authid: cli.authid,
            authrole: cli.authrole,
            secret: cli.secret,
            private_key: cli.private_key,
            ticket: cli.ticket,
            serializer: cli.serializer,
        }
    }
}

impl CallConfig {
    /// Accepts the configuration if its counts are at least one.
    pub fn validate(&self) -> (r: Result<(), ConfigError>)
        ensures
            r is Ok <==> self.repeat > 0 && self.parallel > 0 && self.concurrency > 0,
            self.repeat == 0 ==> r == Err::<(), ConfigError>(ConfigError::ZeroRepeat),
            self.repeat > 0 && self.parallel == 0 ==> r == Err::<(), ConfigError>(
                ConfigError::ZeroParallel,
            ),
            self.repeat > 0 && self.parallel > 0 && self.concurrency == 0 ==> r == Err::<
                (),
                ConfigError,
            >(ConfigError::ZeroConcurrency),
    {
        check_counts(self.repeat, self.parallel, self.concurrency)
    }
}

impl PublishConfig {
    /// Accepts the configuration if its counts are at least one.
    pub fn validate(&self) -> (r: Result<(), ConfigError>)
        ensures
            r is Ok <==> self.repeat > 0 && self.parallel > 0 && self.concurrency > 0,
            self.repeat == 0 ==> r == Err::<(), ConfigError>(ConfigError::ZeroRepeat),
            self.repeat > 0 && self.parallel == 0 ==> r == Err::<(), ConfigError>(
                ConfigError::ZeroParallel,
            ),
            self.repeat > 0 && self.parallel > 0 && self.concurrency == 0 ==> r == Err::<
                (),
                ConfigError,
            >(ConfigError::ZeroConcurrency),
    {
        check_counts(self.repeat, self.parallel, self.concurrency)
    }
}

impl SubscribeConfig {
    /// Accepts the configuration if its counts are at least one.
    pub fn validate(&self) -> (r: Result<(), ConfigError>)
        ensures
            r is Ok <==> self.parallel > 0 && self.concurrency > 0,
            self.parallel == 0 ==> r == Err::<(), ConfigError>(ConfigError::ZeroParallel),
            self.parallel > 0 && self.concurrency == 0 ==> r == Err::<(), ConfigError>(
                ConfigError::ZeroConcurrency,
            ),
    {
        check_counts(1, self.parallel, self.concurrency)
    }
}

} // verus!
