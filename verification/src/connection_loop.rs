//! The daemon's side of one client connection: the opening handshake, then requests read
//! one at a time, each authorized and supervised, until the client leaves, a request closes
//! the connection, or the daemon drains. A step takes what just happened and returns the
//! next state and the commands that the connection task carries out; a command whose I/O
//! fails ends the connection with that error.

use vstd::prelude::*;
use crate::supervision::{is_mutation, owned_kind, uses_fence, ConnectionAction, Operation, UnaryState, unary_start};

verus! {

/// How reading the first byte of a connection went.
#[derive(Debug, Clone, Copy, PartialEq, Eq, Structural)]
pub enum FirstByte {
    Read,
    EndOfStream,
    TimedOut,
    Failed,
}

/// How reading a whole frame went: a line, an invalid or oversized frame, or nothing (the
/// stream ended, or the frame did not complete in time).
#[derive(Debug, Clone, Copy, PartialEq, Eq, Structural)]
pub enum FrameRead {
    Line,
    Invalid,
    Nothing,
}

/// How authorizing a request went: refused (the refusal is already answered), not a known
/// operation, or authorized for an operation.
#[derive(Debug, Clone, Copy, PartialEq, Eq, Structural)]
pub enum Authorization {
    Refused,
    Unregistered,
    Authorized(Operation),
}

/// Where a connection stands.
#[derive(Debug, Clone, Copy, PartialEq, Eq, Structural)]
pub enum ConnectionLoopState {
    AwaitingFirstByte,
    AwaitingHello,
    DecodingHello,
    Reading,
    DecodingEnvelope,
    Authorizing,
    Supervising,
    Stopped,
    Failed,
}

/// What happened on a connection.
#[derive(Debug, Clone, Copy, PartialEq, Eq, Structural)]
pub enum ConnectionEvent {
    FirstByteRead(FirstByte),
    HelloRead(FrameRead),
    /// The client's hello: whether it decoded, names this runtime, and speaks this version.
    Hello { decoded: bool, same_runtime: bool, same_version: bool },
    RequestRead(FrameRead),
    /// The request envelope: whether it decoded, and whether requests are draining.
    Envelope { decoded: bool, draining: bool },
    Authorized(Authorization),
    /// The supervision ended: with an action for the connection, or with an error.
    Supervised(Option<ConnectionAction>),
}

/// A command for the connection task.
#[derive(Debug, Clone, Copy, PartialEq, Eq, Structural)]
pub enum ConnectionCommand {
    ReadFirstByte,
    ReadHello,
    DecodeHello,
    /// Refuse the handshake: the client asked for another runtime.
    RejectStaleRuntime,
    /// Refuse the handshake: the client speaks another protocol version.
    RejectIncompatibleVersion,
    AcceptHandshake,
    ReadRequest,
    /// Answer an invalid request frame (whether the answer goes out does not matter).
    RejectInvalidFrame,
    DecodeEnvelope,
    /// Answer that the daemon is shutting down.
    SendShuttingDown,
    Authorize,
    /// Answer that the operation is not one the daemon serves.
    RejectUnregistered,
    /// Supervise the request from this state.
    Supervise(UnaryState),
    /// End the connection normally.
    Stop,
    /// End the connection with an error.
    Fail,
}

/// One step of a connection.
///
/// The first byte must come in time, else the connection ends quietly; a failed read is an
/// error. The hello frame must then complete; an invalid one is an error, a missing one ends
/// quietly. A hello for another runtime, or in another protocol version, is refused and the
/// connection ends; otherwise the handshake is accepted. Each request frame is then read:
/// an invalid one is answered and ends the connection with an error, the end of the stream
/// ends it. An envelope that does not decode is an error; while requests drain, it is
/// answered as shutting down and the connection ends. A refused request is skipped, an
/// unknown operation answered; an authorized one is supervised, after which the connection
/// reads on or closes as the supervision says.
pub open spec fn connection_next(state: ConnectionLoopState, event: ConnectionEvent) -> (ConnectionLoopState, Seq<ConnectionCommand>) {
    match (state, event) {
        (ConnectionLoopState::AwaitingFirstByte, ConnectionEvent::FirstByteRead(b)) => match b {
            FirstByte::Read => (ConnectionLoopState::AwaitingHello, seq![ConnectionCommand::ReadHello]),
            FirstByte::Failed => (ConnectionLoopState::Failed, seq![ConnectionCommand::Fail]),
            _ => (ConnectionLoopState::Stopped, seq![ConnectionCommand::Stop]),
        },
        (ConnectionLoopState::AwaitingHello, ConnectionEvent::HelloRead(f)) => match f {
            FrameRead::Line => (ConnectionLoopState::DecodingHello, seq![ConnectionCommand::DecodeHello]),
            FrameRead::Invalid => (ConnectionLoopState::Failed, seq![ConnectionCommand::Fail]),
            FrameRead::Nothing => (ConnectionLoopState::Stopped, seq![ConnectionCommand::Stop]),
        },
        (ConnectionLoopState::DecodingHello, ConnectionEvent::Hello { decoded, same_runtime, same_version }) => if !decoded {
            (ConnectionLoopState::Failed, seq![ConnectionCommand::Fail])
        } else if !same_runtime {
            (ConnectionLoopState::Stopped, seq![ConnectionCommand::RejectStaleRuntime, ConnectionCommand::Stop])
        } else if !same_version {
            (ConnectionLoopState::Stopped, seq![ConnectionCommand::RejectIncompatibleVersion, ConnectionCommand::Stop])
        } else {
            (ConnectionLoopState::Reading, seq![ConnectionCommand::AcceptHandshake, ConnectionCommand::ReadRequest])
        },
        (ConnectionLoopState::Reading, ConnectionEvent::RequestRead(f)) => match f {
            FrameRead::Line => (ConnectionLoopState::DecodingEnvelope, seq![ConnectionCommand::DecodeEnvelope]),
            FrameRead::Invalid => (
                ConnectionLoopState::Failed,
                seq![ConnectionCommand::RejectInvalidFrame, ConnectionCommand::Fail],
            ),
            FrameRead::Nothing => (ConnectionLoopState::Stopped, seq![ConnectionCommand::Stop]),
        },
        (ConnectionLoopState::DecodingEnvelope, ConnectionEvent::Envelope { decoded, draining }) => if !decoded {
            (ConnectionLoopState::Failed, seq![ConnectionCommand::Fail])
        } else if draining {
            (ConnectionLoopState::Stopped, seq![ConnectionCommand::SendShuttingDown, ConnectionCommand::Stop])
        } else {
            (ConnectionLoopState::Authorizing, seq![ConnectionCommand::Authorize])
        },
        (ConnectionLoopState::Authorizing, ConnectionEvent::Authorized(a)) => match a {
            Authorization::Refused => (ConnectionLoopState::Reading, seq![ConnectionCommand::ReadRequest]),
            Authorization::Unregistered => (
                ConnectionLoopState::Reading,
                seq![ConnectionCommand::RejectUnregistered, ConnectionCommand::ReadRequest],
            ),
            Authorization::Authorized(op) => (
                ConnectionLoopState::Supervising,
                seq![ConnectionCommand::Supervise(UnaryState::Start {
                    fenced: uses_fence(is_mutation(op), op == Operation::ShutdownDaemon),
                    owned: owned_kind(op) is Some,
                })],
            ),
        },
        (ConnectionLoopState::Supervising, ConnectionEvent::Supervised(outcome)) => match outcome {
            Some(ConnectionAction::Continue) => (ConnectionLoopState::Reading, seq![ConnectionCommand::ReadRequest]),
            Some(ConnectionAction::Close) => (ConnectionLoopState::Stopped, seq![ConnectionCommand::Stop]),
            None => (ConnectionLoopState::Failed, seq![ConnectionCommand::Fail]),
        },
        _ => (state, Seq::empty()),
    }
}

/// One step of a connection (see `connection_next`); an event that does not belong to the
/// state changes nothing.
pub fn connection_step(state: ConnectionLoopState, event: ConnectionEvent) -> (r: (ConnectionLoopState, Vec<ConnectionCommand>))
    ensures
        (r.0, r.1@) == connection_next(state, event),
{
    match (state, event) {
        (ConnectionLoopState::AwaitingFirstByte, ConnectionEvent::FirstByteRead(b)) => match b {
            FirstByte::Read => (ConnectionLoopState::AwaitingHello, vec![ConnectionCommand::ReadHello]),
            FirstByte::Failed => (ConnectionLoopState::Failed, vec![ConnectionCommand::Fail]),
            _ => (ConnectionLoopState::Stopped, vec![ConnectionCommand::Stop]),
        },
        (ConnectionLoopState::AwaitingHello, ConnectionEvent::HelloRead(f)) => match f {
            FrameRead::Line => (ConnectionLoopState::DecodingHello, vec![ConnectionCommand::DecodeHello]),
            FrameRead::Invalid => (ConnectionLoopState::Failed, vec![ConnectionCommand::Fail]),
            FrameRead::Nothing => (ConnectionLoopState::Stopped, vec![ConnectionCommand::Stop]),
        },
        (ConnectionLoopState::DecodingHello, ConnectionEvent::Hello { decoded, same_runtime, same_version }) => if !decoded {
            (ConnectionLoopState::Failed, vec![ConnectionCommand::Fail])
        } else if !same_runtime {
            (ConnectionLoopState::Stopped, vec![ConnectionCommand::RejectStaleRuntime, ConnectionCommand::Stop])
        } else if !same_version {
            (ConnectionLoopState::Stopped, vec![ConnectionCommand::RejectIncompatibleVersion, ConnectionCommand::Stop])
        } else {
            (ConnectionLoopState::Reading, vec![ConnectionCommand::AcceptHandshake, ConnectionCommand::ReadRequest])
        },
        (ConnectionLoopState::Reading, ConnectionEvent::RequestRead(f)) => match f {
            FrameRead::Line => (ConnectionLoopState::DecodingEnvelope, vec![ConnectionCommand::DecodeEnvelope]),
            FrameRead::Invalid => (
                ConnectionLoopState::Failed,
                vec![ConnectionCommand::RejectInvalidFrame, ConnectionCommand::Fail],
            ),
            FrameRead::Nothing => (ConnectionLoopState::Stopped, vec![ConnectionCommand::Stop]),
        },
        (ConnectionLoopState::DecodingEnvelope, ConnectionEvent::Envelope { decoded, draining }) => if !decoded {
            (ConnectionLoopState::Failed, vec![ConnectionCommand::Fail])
        } else if draining {
            (ConnectionLoopState::Stopped, vec![ConnectionCommand::SendShuttingDown, ConnectionCommand::Stop])
        } else {
            (ConnectionLoopState::Authorizing, vec![ConnectionCommand::Authorize])
        },
        (ConnectionLoopState::Authorizing, ConnectionEvent::Authorized(a)) => match a {
            Authorization::Refused => (ConnectionLoopState::Reading, vec![ConnectionCommand::ReadRequest]),
            Authorization::Unregistered => (
                ConnectionLoopState::Reading,
                vec![ConnectionCommand::RejectUnregistered, ConnectionCommand::ReadRequest],
            ),
            Authorization::Authorized(op) => (
                ConnectionLoopState::Supervising,
                vec![ConnectionCommand::Supervise(unary_start(op))],
            ),
        },
        (ConnectionLoopState::Supervising, ConnectionEvent::Supervised(outcome)) => match outcome {
            Some(ConnectionAction::Continue) => (ConnectionLoopState::Reading, vec![ConnectionCommand::ReadRequest]),
            Some(ConnectionAction::Close) => (ConnectionLoopState::Stopped, vec![ConnectionCommand::Stop]),
            None => (ConnectionLoopState::Failed, vec![ConnectionCommand::Fail]),
        },
        _ => (state, Vec::new()),
    }
}

/// A connection that has stopped or failed stays so, whatever happens next.
pub proof fn lemma_connection_end_is_final(state: ConnectionLoopState, event: ConnectionEvent)
    requires
        state == ConnectionLoopState::Stopped || state == ConnectionLoopState::Failed,
    ensures
        connection_next(state, event) == (state, Seq::<ConnectionCommand>::empty()),
{
}

/// A request is supervised only after its envelope decoded while requests were not
/// draining and it was authorized: the only step that starts a supervision is authorizing
/// an operation.
pub proof fn lemma_supervision_needs_authorization(state: ConnectionLoopState, event: ConnectionEvent)
    ensures
        connection_next(state, event).0 == ConnectionLoopState::Supervising && state != ConnectionLoopState::Supervising
            ==> state == ConnectionLoopState::Authorizing && event matches ConnectionEvent::Authorized(
            Authorization::Authorized(_),
        ),
{
}

} // verus!
