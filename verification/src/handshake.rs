//! The client's side of the opening handshake with the daemon: the failures of each I/O
//! step, and the verdict on the daemon's answer. No operation is sent before the handshake
//! succeeds, so every failure here says so.

use vstd::prelude::*;
use crate::client_errors::is_local_failure;
use crate::ipc_errors::{IpcClientError, IpcClientPhase, LocalIpcError, LocalIpcErrorCode, LocalIpcErrorKind, ProtocolError, opt_view};

verus! {

/// How an I/O step of the handshake failed.
#[derive(Debug, Clone, Copy, PartialEq, Eq, Structural)]
pub enum HandshakeIoFailure {
    /// The hello could not be encoded.
    Encode,
    /// Writing the hello failed.
    Write,
    /// Flushing the hello failed.
    Flush,
    /// Reading the answer failed in the transport.
    ReadTransport,
    /// The answer was an invalid or oversized frame.
    ReadFrame,
    /// The daemon closed the connection before answering.
    Closed,
    /// The answer did not decode.
    Decode,
}

/// The phase, code, message, guidance and retry flag of a failed handshake step.
pub open spec fn handshake_failure_parts(f: HandshakeIoFailure) -> (IpcClientPhase, LocalIpcErrorCode, Seq<char>, Seq<char>, bool) {
    match f {
        HandshakeIoFailure::Encode => (
            IpcClientPhase::RequestEncode,
            LocalIpcErrorCode::Frame,
            "Cadder could not encode its local daemon handshake; no operation was sent."@,
            "Report this Cadder handshake serialization error."@,
            false,
        ),
        HandshakeIoFailure::Write => (
            IpcClientPhase::RequestWrite,
            LocalIpcErrorCode::TransportWrite,
            "Cadder lost the local connection while sending the daemon handshake; no operation was sent."@,
            "Retry the connection once."@,
            true,
        ),
        HandshakeIoFailure::Flush => (
            IpcClientPhase::RequestWrite,
            LocalIpcErrorCode::TransportWrite,
            "Cadder could not finish sending the local daemon handshake; no operation was sent."@,
            "Retry the connection once."@,
            true,
        ),
        HandshakeIoFailure::ReadTransport => (
            IpcClientPhase::ResponseRead,
            LocalIpcErrorCode::TransportRead,
            "Cadder lost the local connection while waiting for the daemon handshake; no operation was sent."@,
            "Reconnect to the selected runtime endpoint once."@,
            true,
        ),
        HandshakeIoFailure::ReadFrame => (
            IpcClientPhase::ResponseRead,
            LocalIpcErrorCode::Frame,
            "Cadder rejected an invalid or oversized daemon handshake response; no operation was sent."@,
            "Restart the Cadder daemon with a compatible build, then retry."@,
            false,
        ),
        HandshakeIoFailure::Closed => (
            IpcClientPhase::ResponseRead,
            LocalIpcErrorCode::UnexpectedEof,
            "The daemon closed the connection before confirming its local endpoint; no operation was sent."@,
            "Retry the connection once."@,
            true,
        ),
        HandshakeIoFailure::Decode => (
            IpcClientPhase::ResponseDecode,
            LocalIpcErrorCode::Frame,
            "Cadder could not decode the daemon handshake response; no operation was sent."@,
            "Restart the Cadder daemon with a compatible build, then retry."@,
            false,
        ),
    }
}

/// Whether `r` is the transport failure of the handshake with these parts, for the hello
/// `request_id` of the operation `hello_operation`.
pub open spec fn is_handshake_failure(
    r: IpcClientError,
    parts: (IpcClientPhase, LocalIpcErrorCode, Seq<char>, Seq<char>, bool),
    request_id: Seq<char>,
    hello_operation: Seq<char>,
) -> bool {
    is_local_failure(
        r,
        LocalIpcErrorKind::Transport,
        parts.0,
        parts.1,
        parts.2,
        parts.3,
        parts.4,
        Some(request_id),
        Some(hello_operation),
    )
}

fn transport_failure(
    phase: IpcClientPhase,
    code: LocalIpcErrorCode,
    message: &str,
    guidance: &str,
    retryable: bool,
    request_id: &str,
    hello_operation: &str,
) -> (r: IpcClientError)
    ensures
        is_handshake_failure(r, (phase, code, message@, guidance@, retryable), request_id@, hello_operation@),
{
    IpcClientError::Local(
        LocalIpcError {
            kind: LocalIpcErrorKind::Transport,
            phase,
            code,
            message: message.to_owned(),
            guidance: Some(guidance.to_owned()),
            retryable,
            request_id: Some(request_id.to_owned()),
            operation: Some(hello_operation.to_owned()),
        },
    )
}

/// The error for a failed handshake step, for the hello `request_id`; `hello_operation` is
/// the protocol's name of the opening exchange.
pub fn handshake_failure(failure: HandshakeIoFailure, request_id: &str, hello_operation: &str) -> (r: IpcClientError)
    ensures
        is_handshake_failure(r, handshake_failure_parts(failure), request_id@, hello_operation@),
{
    match failure {
        HandshakeIoFailure::Encode => transport_failure(
            IpcClientPhase::RequestEncode,
            LocalIpcErrorCode::Frame,
            "Cadder could not encode its local daemon handshake; no operation was sent.",
            "Report this Cadder handshake serialization error.",
            false,
            request_id,
            hello_operation,
        ),
        HandshakeIoFailure::Write => transport_failure(
            IpcClientPhase::RequestWrite,
            LocalIpcErrorCode::TransportWrite,
            "Cadder lost the local connection while sending the daemon handshake; no operation was sent.",
            "Retry the connection once.",
            true,
            request_id,
            hello_operation,
        ),
        HandshakeIoFailure::Flush => transport_failure(
            IpcClientPhase::RequestWrite,
            LocalIpcErrorCode::TransportWrite,
            "Cadder could not finish sending the local daemon handshake; no operation was sent.",
            "Retry the connection once.",
            true,
            request_id,
            hello_operation,
        ),
        HandshakeIoFailure::ReadTransport => transport_failure(
            IpcClientPhase::ResponseRead,
            LocalIpcErrorCode::TransportRead,
            "Cadder lost the local connection while waiting for the daemon handshake; no operation was sent.",
            "Reconnect to the selected runtime endpoint once.",
            true,
            request_id,
            hello_operation,
        ),
        HandshakeIoFailure::ReadFrame => transport_failure(
            IpcClientPhase::ResponseRead,
            LocalIpcErrorCode::Frame,
            "Cadder rejected an invalid or oversized daemon handshake response; no operation was sent.",
            "Restart the Cadder daemon with a compatible build, then retry.",
            false,
            request_id,
            hello_operation,
        ),
        HandshakeIoFailure::Closed => transport_failure(
            IpcClientPhase::ResponseRead,
            LocalIpcErrorCode::UnexpectedEof,
            "The daemon closed the connection before confirming its local endpoint; no operation was sent.",
            "Retry the connection once.",
            true,
            request_id,
            hello_operation,
        ),
        HandshakeIoFailure::Decode => transport_failure(
            IpcClientPhase::ResponseDecode,
            LocalIpcErrorCode::Frame,
            "Cadder could not decode the daemon handshake response; no operation was sent.",
            "Restart the Cadder daemon with a compatible build, then retry.",
            false,
            request_id,
            hello_operation,
        ),
    }
}

/// The daemon's answer to the hello.
#[derive(Debug, Clone)]
pub enum ServerHandshakeFrame {
    /// Accepted: the answer's request identifier, the daemon's runtime and its protocol
    /// version.
    Accepted { request_id: String, runtime_id: String, protocol_version: u32 },
    /// Rejected: the daemon's error, and its runtime.
    Rejected { error: ProtocolError, runtime_id: String },
}

/// The message of a handshake answer that names another request.
pub open spec fn wrong_request_message(rejected: bool) -> Seq<char> {
    if rejected {
        "The daemon handshake rejection used a different request ID."@
    } else {
        "The daemon handshake response used a different request ID."@
    }
}

/// The parts of a handshake answer that breaks the protocol.
pub open spec fn violation_parts(message: Seq<char>) -> (IpcClientPhase, LocalIpcErrorCode, Seq<char>, Seq<char>, bool) {
    (
        IpcClientPhase::ResponseValidate,
        LocalIpcErrorCode::ProtocolViolation,
        message,
        "Restart the Cadder daemon with a compatible build, then retry."@,
        false,
    )
}

/// The parts of a handshake answer from a daemon of another runtime.
pub open spec fn stale_parts() -> (IpcClientPhase, LocalIpcErrorCode, Seq<char>, Seq<char>, bool) {
    (
        IpcClientPhase::ResponseValidate,
        LocalIpcErrorCode::StaleInstance,
        "The connected daemon does not own the selected runtime endpoint; no operation was sent."@,
        "Reconnect to the selected runtime endpoint once."@,
        true,
    )
}

/// The message of an accepted handshake in another protocol version.
pub open spec fn incompatible_version_message() -> Seq<char> {
    "The daemon accepted a handshake whose published protocol range is incompatible."@
}

/// The verdict on the daemon's answer, for the hello `request_id` sent to `runtime_id` in
/// protocol version `version`.
///
/// An acceptance must answer this request, come from this runtime and use this version;
/// then the session uses that version. A rejection must answer this request and come from
/// this runtime; then it is the daemon's own error. An answer to another request breaks the
/// protocol; one from another runtime is a stale endpoint; an acceptance in another version
/// breaks the protocol.
pub open spec fn handshake_verdict_holds(
    frame: ServerHandshakeFrame,
    request_id: Seq<char>,
    runtime_id: Seq<char>,
    version: u32,
    hello_operation: Seq<char>,
    r: Result<u32, IpcClientError>,
) -> bool {
    match frame {
        ServerHandshakeFrame::Accepted { request_id: answered, runtime_id: runtime, protocol_version } => if answered@
            != request_id {
            r matches Err(e) && is_handshake_failure(e, violation_parts(wrong_request_message(false)), request_id, hello_operation)
        } else if runtime@ != runtime_id {
            r matches Err(e) && is_handshake_failure(e, stale_parts(), request_id, hello_operation)
        } else if protocol_version != version {
            r matches Err(e) && is_handshake_failure(e, violation_parts(incompatible_version_message()), request_id, hello_operation)
        } else {
            r == Ok::<u32, IpcClientError>(protocol_version)
        },
        ServerHandshakeFrame::Rejected { error, runtime_id: runtime } => if opt_view(error.request_id) != Some(request_id) {
            r matches Err(e) && is_handshake_failure(e, violation_parts(wrong_request_message(true)), request_id, hello_operation)
        } else if runtime@ != runtime_id {
            r matches Err(e) && is_handshake_failure(e, stale_parts(), request_id, hello_operation)
        } else {
            r matches Err(IpcClientError::Daemon(d)) && d == error
        },
    }
}

fn same_text(a: &String, b: &str) -> (r: bool)
    ensures
        r == (a@ == b@),
{
    crate::ordered::text_eq(a.as_str(), b)
}

/// Judges the daemon's answer to the hello (see `handshake_verdict_holds`): the negotiated
/// protocol version, or why the handshake failed.
pub fn handshake_verdict(
    frame: ServerHandshakeFrame,
    request_id: &str,
    runtime_id: &str,
    version: u32,
    hello_operation: &str,
) -> (r: Result<u32, IpcClientError>)
    ensures
        handshake_verdict_holds(frame, request_id@, runtime_id@, version, hello_operation@, r),
{
    match frame {
        ServerHandshakeFrame::Accepted { request_id: answered, runtime_id: runtime, protocol_version } => {
            if !same_text(&answered, request_id) {
                Err(
                    transport_failure(
                        IpcClientPhase::ResponseValidate,
                        LocalIpcErrorCode::ProtocolViolation,
                        "The daemon handshake response used a different request ID.",
                        "Restart the Cadder daemon with a compatible build, then retry.",
                        false,
                        request_id,
                        hello_operation,
                    ),
                )
            } else if !same_text(&runtime, runtime_id) {
                Err(stale_failure(request_id, hello_operation))
            } else if protocol_version != version {
                Err(
                    transport_failure(
                        IpcClientPhase::ResponseValidate,
                        LocalIpcErrorCode::ProtocolViolation,
                        "The daemon accepted a handshake whose published protocol range is incompatible.",
                        "Restart the Cadder daemon with a compatible build, then retry.",
                        false,
                        request_id,
                        hello_operation,
                    ),
                )
            } else {
                Ok(protocol_version)
            }
        },
        ServerHandshakeFrame::Rejected { error, runtime_id: runtime } => {
            let answers = match &error.request_id {
                Some(id) => same_text(id, request_id),
                None => false,
            };
            if !answers {
                Err(
                    transport_failure(
                        IpcClientPhase::ResponseValidate,
                        LocalIpcErrorCode::ProtocolViolation,
                        "The daemon handshake rejection used a different request ID.",
                        "Restart the Cadder daemon with a compatible build, then retry.",
                        false,
                        request_id,
                        hello_operation,
                    ),
                )
            } else if !same_text(&runtime, runtime_id) {
                Err(stale_failure(request_id, hello_operation))
            } else {
                Err(IpcClientError::Daemon(error))
            }
        },
    }
}

fn stale_failure(request_id: &str, hello_operation: &str) -> (r: IpcClientError)
    ensures
        is_handshake_failure(r, stale_parts(), request_id@, hello_operation@),
{
    transport_failure(
        IpcClientPhase::ResponseValidate,
        LocalIpcErrorCode::StaleInstance,
        "The connected daemon does not own the selected runtime endpoint; no operation was sent.",
        "Reconnect to the selected runtime endpoint once.",
        true,
        request_id,
        hello_operation,
    )
}

} // verus!
