//! What the tasks serving one overlay-client connection do with each thing
//! that happens on the socket.
use vstd::prelude::*;
use crate::comet::Response;
use crate::text::str_eq;

verus! {

/// What the inbound task read from the socket.
pub enum InboundEvent {
    /// A text frame that parsed as a reply.
    Reply(Response),
    /// A text frame that did not parse; the parser's message.
    Malformed(String),
    Ping(Vec<u8>),
    /// The client sent a close frame.
    Close,
    /// Reading failed; `closed` tells a connection already gone from another
    /// failure.
    ReadError { closed: bool, message: String },
    /// The stream ended.
    End,
    /// Any other frame.
    Other,
}

/// What the inbound task does next.
pub enum InboundAction {
    /// Hand the reply to the correlator and read on.
    Forward(Response),
    /// Send a close frame with the protocol-error code and this reason, signal
    /// shutdown and stop.
    CloseProtocol(String),
    /// Answer with a pong carrying this payload and read on.
    Pong(Vec<u8>),
    /// Signal shutdown and stop.
    Shutdown,
    /// Report this error, signal shutdown and stop.
    ReportAndShutdown(String),
    /// Read on.
    Ignore,
}

pub open spec fn invalid_state_reason() -> Seq<char> {
    "Invalid state"@
}

pub open spec fn malformed_prefix() -> Seq<char> {
    "Malformed response: "@
}

/// The inbound task's decision for one event on the connection registered
/// under the token `state`. A reply under any other token is a protocol
/// violation that closes the connection.
pub fn inbound_action(state: &str, event: InboundEvent) -> (r: InboundAction)
    ensures
        match event {
            InboundEvent::Reply(resp) => if resp.state@ == state@ {
                r == InboundAction::Forward(resp)
            } else {
                r matches InboundAction::CloseProtocol(reason) && reason@ == invalid_state_reason()
            },
            InboundEvent::Malformed(err) => r matches InboundAction::CloseProtocol(reason)
                && reason@ == malformed_prefix() + err@,
            InboundEvent::Ping(data) => r == InboundAction::Pong(data),
            InboundEvent::Close => r is Shutdown,
            InboundEvent::ReadError { closed, message } => if closed {
                r is Shutdown
            } else {
                r == InboundAction::ReportAndShutdown(message)
            },
            InboundEvent::End => r is Shutdown,
            InboundEvent::Other => r is Ignore,
        },
{
    match event {
        InboundEvent::Reply(resp) => {
            if str_eq(resp.state.as_str(), state) {
                InboundAction::Forward(resp)
            } else {
                InboundAction::CloseProtocol(String::from_str("Invalid state"))
            }
        },
        InboundEvent::Malformed(err) => {
            InboundAction::CloseProtocol(String::from_str("Malformed response: ").concat(err.as_str()))
        },
        InboundEvent::Ping(data) => InboundAction::Pong(data),
        InboundEvent::Close => InboundAction::Shutdown,
        InboundEvent::ReadError { closed, message } => {
            if closed {
                InboundAction::Shutdown
            } else {
                InboundAction::ReportAndShutdown(message)
            }
        },
        InboundEvent::End => InboundAction::Shutdown,
        InboundEvent::Other => InboundAction::Ignore,
    }
}

/// How a write to the socket went.
pub enum WriteOutcome {
    Written,
    /// The connection was already closed.
    Closed,
    /// Another failure, with its message.
    Failed(String),
}

/// What a task does after a write: whether to report an error, whether to
/// signal shutdown to the other tasks, and whether to stop.
pub struct AfterWrite {
    pub report: Option<String>,
    pub signal_shutdown: bool,
    pub stop: bool,
}

/// The outbound task goes on after a failed write, which it reports, and
/// stops once the connection is gone.
pub fn outbound_after_write(outcome: WriteOutcome) -> (r: AfterWrite)
    ensures
        match outcome {
            WriteOutcome::Written => r.report is None && !r.signal_shutdown && !r.stop,
            WriteOutcome::Closed => r.report is None && !r.signal_shutdown && r.stop,
            WriteOutcome::Failed(e) => r.report == Some(e) && !r.signal_shutdown && !r.stop,
        },
{
    match outcome {
        WriteOutcome::Written => AfterWrite { report: None, signal_shutdown: false, stop: false },
        WriteOutcome::Closed => AfterWrite { report: None, signal_shutdown: false, stop: true },
        WriteOutcome::Failed(e) => AfterWrite { report: Some(e), signal_shutdown: false, stop: false },
    }
}

/// The ping task stops on any failed write and signals shutdown to the
/// other tasks; a failure other than a closed connection is also reported.
pub fn ping_after_write(outcome: WriteOutcome) -> (r: AfterWrite)
    ensures
        match outcome {
            WriteOutcome::Written => r.report is None && !r.signal_shutdown && !r.stop,
            WriteOutcome::Closed => r.report is None && r.signal_shutdown && r.stop,
            WriteOutcome::Failed(e) => r.report == Some(e) && r.signal_shutdown && r.stop,
        },
{
    match outcome {
        WriteOutcome::Written => AfterWrite { report: None, signal_shutdown: false, stop: false },
        WriteOutcome::Closed => AfterWrite { report: None, signal_shutdown: true, stop: true },
        WriteOutcome::Failed(e) => AfterWrite { report: Some(e), signal_shutdown: true, stop: true },
    }
}

/// After answering a ping, the inbound task stops on any failed write and
/// reports one that did not come from a closed connection.
pub fn pong_after_write(outcome: WriteOutcome) -> (r: AfterWrite)
    ensures
        match outcome {
            WriteOutcome::Written => r.report is None && !r.signal_shutdown && !r.stop,
            WriteOutcome::Closed => r.report is None && !r.signal_shutdown && r.stop,
            WriteOutcome::Failed(e) => r.report == Some(e) && !r.signal_shutdown && r.stop,
        },
{
    match outcome {
        WriteOutcome::Written => AfterWrite { report: None, signal_shutdown: false, stop: false },
        WriteOutcome::Closed => AfterWrite { report: None, signal_shutdown: false, stop: true },
        WriteOutcome::Failed(e) => AfterWrite { report: Some(e), signal_shutdown: false, stop: true },
    }
}

} // verus!
