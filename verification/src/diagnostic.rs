//! The lines the client shows besides results: errors tagged with the
//! session and iteration they belong to, and the few status notices.

use crate::text::{decimal, decimal_digits};
use vstd::prelude::*;

verus! {

/// The stream a line is written to.
#[derive(Clone, Copy, Debug, PartialEq, Eq, Structural)]
pub enum Stream {
    /// Standard output.
    Output,
    /// Standard error.
    Error,
}

/// One line for the user. The `detail` of an error is the text of the
/// failure as the session endpoint reported it.
#[derive(Debug, PartialEq, Eq)]
pub enum Diagnostic {
    /// A session could not be established.
    ConnectionError { session_id: u32, detail: String },
    /// A call was rejected or failed.
    CallError { session_id: u32, iteration: u32, detail: String },
    /// A publish was rejected or failed.
    PublishError { session_id: u32, iteration: u32, detail: String },
    /// A call result could not be rendered.
    ResultSerializationError { session_id: u32, iteration: u32, detail: String },
    /// An event could not be rendered.
    EventSerializationError { detail: String },
    /// An invocation could not be rendered.
    InvocationSerializationError { detail: String },
    /// A graceful leave failed.
    LeaveError { session_id: u32, detail: String },
    /// A subscribe request failed.
    SubscribeError { session_id: u32, detail: String },
    /// A register request failed.
    RegisterError { detail: String },
    /// The router refused a request; `uri` names its reason.
    Rejected { uri: String },
    /// A subscription stands. The session is named when there are several.
    Subscribed { session: Option<u32>, topic: String },
    /// A registration stands.
    Registered { procedure: String },
    /// How to end a standing command; shown once.
    ExitHint,
    /// The user asked the command to end.
    Exiting,
    /// A session lost its transport.
    LostConnection,
}

/// `"Session <id>"`, the tag that opens a line about one session.
pub open spec fn session_tag(session_id: u32) -> Seq<char> {
    "Session "@ + decimal_digits(session_id as nat)
}

/// `"Session <id> Iteration <n>"`, the tag that opens a line about one
/// iteration of one session.
pub open spec fn iteration_tag(session_id: u32, iteration: u32) -> Seq<char> {
    session_tag(session_id) + " Iteration "@ + decimal_digits(iteration as nat)
}

fn append_session_tag(text: &mut String, session_id: u32)
    ensures
        final(text)@ == old(text)@ + session_tag(session_id),
{
    text.append("Session ");
    let number: String = decimal(session_id as u64);
    text.append(number.as_str());
    assert(final(text)@ =~= old(text)@ + session_tag(session_id));
}

fn append_iteration_tag(text: &mut String, session_id: u32, iteration: u32)
    ensures
        final(text)@ == old(text)@ + iteration_tag(session_id, iteration),
{
    append_session_tag(text, session_id);
    text.append(" Iteration ");
    let number: String = decimal(iteration as u64);
    text.append(number.as_str());
    assert(final(text)@ =~= old(text)@ + iteration_tag(session_id, iteration));
}

impl Diagnostic {
    /// The text of the line.
    pub open spec fn text(&self) -> Seq<char> {
        match self {
            Diagnostic::ConnectionError { session_id, detail } => session_tag(*session_id)
                + " Connection Error: "@ + detail@,
            Diagnostic::CallError { session_id, iteration, detail } => iteration_tag(
                *session_id,
                *iteration,
            ) + " Call Error: "@ + detail@,
            Diagnostic::PublishError { session_id, iteration, detail } => iteration_tag(
                *session_id,
                *iteration,
            ) + " Publish Error: "@ + detail@,
            Diagnostic::ResultSerializationError { session_id, iteration, detail } => iteration_tag(
                *session_id,
                *iteration,
            ) + " Error serializing result: "@ + detail@,
            Diagnostic::EventSerializationError { detail } => "Error serializing event: "@
                + detail@,
            Diagnostic::InvocationSerializationError { detail } => "Error serializing invocation: "@
                + detail@,
            Diagnostic::LeaveError { session_id, detail } => session_tag(*session_id)
                + " Error leaving: "@ + detail@,
            Diagnostic::SubscribeError { session_id, detail } => session_tag(*session_id)
                + " Subscribe Error: "@ + detail@,
            Diagnostic::RegisterError { detail } => "Error registering procedure: "@ + detail@,
            Diagnostic::Rejected { uri } => uri@,
            Diagnostic::Subscribed { session: Some(id), topic } => session_tag(*id)
                + ": Subscribed to topic '"@ + topic@ + "'"@,
            Diagnostic::Subscribed { session: None, topic } => "Subscribed to topic '"@
                + topic@ + "'"@,
            Diagnostic::Registered { procedure } => "Registered procedure '"@ + procedure@ + "'"@,
            Diagnostic::ExitHint => "Press Ctrl+C to exit"@,
            Diagnostic::Exiting => "Exiting..."@,
            Diagnostic::LostConnection => "Lost connection to router"@,
        }
    }

    /// The stream the line belongs to: every failure goes to standard error,
    /// confirmations and notices to standard output.
    pub open spec fn stream_of(&self) -> Stream {
        match self {
            Diagnostic::Subscribed { .. } => Stream::Output,
            Diagnostic::Registered { .. } => Stream::Output,
            Diagnostic::ExitHint => Stream::Output,
            Diagnostic::Exiting => Stream::Output,
            _ => Stream::Error,
        }
    }

    /// Renders the line.
    pub fn message(&self) -> (line: String)
        ensures
            line@ == self.text(),
    {
        let mut line: String = String::new();
        match self {
            Diagnostic::ConnectionError { session_id, detail } => {
                append_session_tag(&mut line, *session_id);
                line.append(" Connection Error: ");
                line.append(detail.as_str());
            },
            Diagnostic::CallError { session_id, iteration, detail } => {
                append_iteration_tag(&mut line, *session_id, *iteration);
                line.append(" Call Error: ");
                line.append(detail.as_str());
            },
            Diagnostic::PublishError { session_id, iteration, detail } => {
                append_iteration_tag(&mut line, *session_id, *iteration);
                line.append(" Publish Error: ");
                line.append(detail.as_str());
            },
            Diagnostic::ResultSerializationError { session_id, iteration, detail } => {
                append_iteration_tag(&mut line, *session_id, *iteration);
                line.append(" Error serializing result: ");
                line.append(detail.as_str());
            },
            Diagnostic::EventSerializationError { detail } => {
                line.append("Error serializing event: ");
                line.append(detail.as_str());
            },
            Diagnostic::InvocationSerializationError { detail } => {
                line.append("Error serializing invocation: ");
                line.append(detail.as_str());
            },
            Diagnostic::LeaveError { session_id, detail } => {
                append_session_tag(&mut line, *session_id);
                line.append(" Error leaving: ");
                line.append(detail.as_str());
            },
            Diagnostic::SubscribeError { session_id, detail } => {
                append_session_tag(&mut line, *session_id);
                line.append(" Subscribe Error: ");
                line.append(detail.as_str());
            },
            Diagnostic::RegisterError { detail } => {
                line.append("Error registering procedure: ");
                line.append(detail.as_str());
            },
            Diagnostic::Rejected { uri } => {
                line.append(uri.as_str());
            },
            Diagnostic::Subscribed { session: Some(id), topic } => {
                append_session_tag(&mut line, *id);
                line.append(": Subscribed to topic '");
                line.append(topic.as_str());
                line.append("'");
            },
            Diagnostic::Subscribed { session: None, topic } => {
                line.append("Subscribed to topic '");
                line.append(topic.as_str());
                line.append("'");
            },
            Diagnostic::Registered { procedure } => {
                line.append("Registered procedure '");
                line.append(procedure.as_str());
                line.append("'");
            },
            Diagnostic::ExitHint => {
                line.append("Press Ctrl+C to exit");
            },
            Diagnostic::Exiting => {
                line.append("Exiting...");
            },
            Diagnostic::LostConnection => {
                line.append("Lost connection to router");
            },
        }
        assert(line@ =~= self.text());
        line
    }

    /// The stream the line belongs to.
    pub fn stream(&self) -> (stream: Stream)
        ensures
            stream == self.stream_of(),
    {
        match self {
            Diagnostic::Subscribed { .. } => Stream::Output,
            Diagnostic::Registered { .. } => Stream::Output,
            Diagnostic::ExitHint => Stream::Output,
            Diagnostic::Exiting => Stream::Output,
            _ => Stream::Error,
        }
    }
}

} // verus!
