//! The local failures of a client session, phase by phase: resolving and connecting to the
//! endpoint, framing and sending a request, and reading, decoding and validating the
//! response. Each carries its phase, code, operator message and guidance, whether a retry is
//! safe, and the request it concerns.

use vstd::prelude::*;
use crate::ipc_errors::{
    IoErrorClass, IpcClientError, IpcClientPhase, LocalIpcError, LocalIpcErrorCode, LocalIpcErrorKind,
    daemon_not_ready_error, opt_view,
};

verus! {

/// The request a failure concerns: its operation and identifier.
#[derive(Debug, Clone)]
pub struct ClientRequestContext {
    pub operation: String,
    pub request_id: String,
}

/// Whether `r` is the local failure with these fields.
pub open spec fn is_local_failure(
    r: IpcClientError,
    kind: LocalIpcErrorKind,
    phase: IpcClientPhase,
    code: LocalIpcErrorCode,
    message: Seq<char>,
    guidance: Seq<char>,
    retryable: bool,
    request_id: Option<Seq<char>>,
    operation: Option<Seq<char>>,
) -> bool {
    match r {
        IpcClientError::Local(e) => {
            &&& e.kind == kind
            &&& e.phase == phase
            &&& e.code == code
            &&& e.message@ == message
            &&& opt_view(e.guidance) == Some(guidance)
            &&& e.retryable == retryable
            &&& opt_view(e.request_id) == request_id
            &&& opt_view(e.operation) == operation
        },
        IpcClientError::Daemon(_) => false,
    }
}

fn local_failure(
    kind: LocalIpcErrorKind,
    phase: IpcClientPhase,
    code: LocalIpcErrorCode,
    message: &str,
    guidance: &str,
    retryable: bool,
    request_id: Option<String>,
    operation: Option<String>,
) -> (r: IpcClientError)
    ensures
        is_local_failure(r, kind, phase, code, message@, guidance@, retryable, opt_view(request_id), opt_view(operation)),
{
    IpcClientError::Local(
        LocalIpcError {
            kind,
            phase,
            code,
            message: message.to_owned(),
            guidance: Some(guidance.to_owned()),
            retryable,
            request_id,
            operation,
        },
    )
}

fn context_fields(request: &ClientRequestContext) -> (r: (Option<String>, Option<String>))
    ensures
        opt_view(r.0) == Some(request.request_id@),
        opt_view(r.1) == Some(request.operation@),
{
    (Some(request.request_id.clone()), Some(request.operation.clone()))
}

/// The endpoint of the selected runtime could not be resolved.
pub fn endpoint_resolution_error() -> (r: IpcClientError)
    ensures
        is_local_failure(
            r,
            LocalIpcErrorKind::Transport,
            IpcClientPhase::EndpointResolve,
            LocalIpcErrorCode::InvalidEndpoint,
            "Cadder could not resolve the local daemon endpoint; no request was sent."@,
            "Select a valid Cadder runtime directory, then retry."@,
            false,
            None,
            None,
        ),
{
    local_failure(
        LocalIpcErrorKind::Transport,
        IpcClientPhase::EndpointResolve,
        LocalIpcErrorCode::InvalidEndpoint,
        "Cadder could not resolve the local daemon endpoint; no request was sent.",
        "Select a valid Cadder runtime directory, then retry.",
        false,
        None,
        None,
    )
}

/// How a failed connection is classified by its I/O failure: a permission problem, a
/// timeout, a daemon that does not accept connections yet, or another transport failure.
pub open spec fn connect_class(io: IoErrorClass) -> (LocalIpcErrorKind, LocalIpcErrorCode, Seq<char>, bool) {
    if io == IoErrorClass::PermissionDenied {
        (
            LocalIpcErrorKind::Transport,
            LocalIpcErrorCode::PermissionDenied,
            "Use the account that owns this Cadder runtime or select an accessible profile."@,
            false,
        )
    } else if io == IoErrorClass::TimedOut {
        (LocalIpcErrorKind::Timeout, LocalIpcErrorCode::Timeout, "Check the daemon status, then retry once it is ready."@, true)
    } else if io == IoErrorClass::NotFound || io == IoErrorClass::ConnectionRefused || io == IoErrorClass::ConnectionReset
        || io == IoErrorClass::ConnectionAborted || io == IoErrorClass::NotConnected || io == IoErrorClass::AddrNotAvailable {
        (
            LocalIpcErrorKind::Transport,
            LocalIpcErrorCode::DaemonUnavailable,
            "Start the Cadder daemon for this runtime, then retry."@,
            true,
        )
    } else {
        (
            LocalIpcErrorKind::Transport,
            LocalIpcErrorCode::TransportConnect,
            "Inspect the local IPC endpoint and runtime diagnostics before retrying."@,
            false,
        )
    }
}

/// The message of a failed connection, by its code.
pub open spec fn connect_message(code: LocalIpcErrorCode) -> Seq<char> {
    if code == LocalIpcErrorCode::PermissionDenied {
        "Cadder cannot access the selected daemon endpoint; no request was sent."@
    } else if code == LocalIpcErrorCode::Timeout {
        "The Cadder daemon connection did not complete before the local deadline; no request was sent."@
    } else if code == LocalIpcErrorCode::DaemonUnavailable {
        "The Cadder daemon is unavailable; no request was sent."@
    } else {
        "Cadder could not connect to the selected daemon endpoint; no request was sent."@
    }
}

fn connect_classification(io: IoErrorClass) -> (r: (LocalIpcErrorKind, LocalIpcErrorCode, &'static str, bool))
    ensures
        (r.0, r.1, r.2@, r.3) == connect_class(io),
{
    if io == IoErrorClass::PermissionDenied {
        (
            LocalIpcErrorKind::Transport,
            LocalIpcErrorCode::PermissionDenied,
            "Use the account that owns this Cadder runtime or select an accessible profile.",
            false,
        )
    } else if io == IoErrorClass::TimedOut {
        (LocalIpcErrorKind::Timeout, LocalIpcErrorCode::Timeout, "Check the daemon status, then retry once it is ready.", true)
    } else if daemon_not_ready_error(io) {
        (LocalIpcErrorKind::Transport, LocalIpcErrorCode::DaemonUnavailable, "Start the Cadder daemon for this runtime, then retry.", true)
    } else {
        (
            LocalIpcErrorKind::Transport,
            LocalIpcErrorCode::TransportConnect,
            "Inspect the local IPC endpoint and runtime diagnostics before retrying.",
            false,
        )
    }
}

/// Connecting to the endpoint failed with an I/O failure of class `io`.
pub fn connection_error(io: IoErrorClass) -> (r: IpcClientError)
    ensures
        ({
            let (kind, code, guidance, retryable) = connect_class(io);
            is_local_failure(r, kind, IpcClientPhase::Connect, code, connect_message(code), guidance, retryable, None, None)
        }),
{
    let (kind, code, guidance, retryable) = connect_classification(io);
    let message = if code == LocalIpcErrorCode::PermissionDenied {
        "Cadder cannot access the selected daemon endpoint; no request was sent."
    } else if code == LocalIpcErrorCode::Timeout {
        "The Cadder daemon connection did not complete before the local deadline; no request was sent."
    } else if code == LocalIpcErrorCode::DaemonUnavailable {
        "The Cadder daemon is unavailable; no request was sent."
    } else {
        "Cadder could not connect to the selected daemon endpoint; no request was sent."
    };
    local_failure(kind, IpcClientPhase::Connect, code, message, guidance, retryable, None, None)
}

/// The endpoint was not confirmed before the connection deadline; `hello_operation` is the
/// protocol's name of the opening exchange.
pub fn connection_timeout_error(hello_operation: &str) -> (r: IpcClientError)
    ensures
        is_local_failure(
            r,
            LocalIpcErrorKind::Timeout,
            IpcClientPhase::Connect,
            LocalIpcErrorCode::Timeout,
            "Cadder could not confirm the local daemon endpoint before the connection deadline; no request was sent."@,
            "Check the daemon status, then retry once it is ready."@,
            true,
            None,
            Some(hello_operation@),
        ),
{
    local_failure(
        LocalIpcErrorKind::Timeout,
        IpcClientPhase::Connect,
        LocalIpcErrorCode::Timeout,
        "Cadder could not confirm the local daemon endpoint before the connection deadline; no request was sent.",
        "Check the daemon status, then retry once it is ready.",
        true,
        None,
        Some(hello_operation.to_owned()),
    )
}

/// Sending the peer-authentication preface failed with an I/O failure of class `io`.
pub fn peer_authentication_preface_error(io: IoErrorClass) -> (r: IpcClientError)
    ensures
        ({
            let (kind, code, guidance, retryable) = connect_class(io);
            is_local_failure(
                r,
                kind,
                IpcClientPhase::Connect,
                code,
                "Cadder could not open a connection to the selected runtime; no request was sent."@,
                guidance,
                retryable,
                None,
                None,
            )
        }),
{
    let (kind, code, guidance, retryable) = connect_classification(io);
    local_failure(
        kind,
        IpcClientPhase::Connect,
        code,
        "Cadder could not open a connection to the selected runtime; no request was sent.",
        guidance,
        retryable,
        None,
        None,
    )
}

/// A request does not fit one bounded frame; nothing was sent.
pub fn request_frame_error(request: &ClientRequestContext) -> (r: IpcClientError)
    ensures
        is_local_failure(
            r,
            LocalIpcErrorKind::Transport,
            IpcClientPhase::RequestEncode,
            LocalIpcErrorCode::Frame,
            "Cadder rejected a request that does not fit one bounded IPC frame; nothing was sent."@,
            "Reduce the request payload below 1 MiB and retry the operation."@,
            false,
            Some(request.request_id@),
            Some(request.operation@),
        ),
{
    let (id, op) = context_fields(request);
    local_failure(
        LocalIpcErrorKind::Transport,
        IpcClientPhase::RequestEncode,
        LocalIpcErrorCode::Frame,
        "Cadder rejected a request that does not fit one bounded IPC frame; nothing was sent.",
        "Reduce the request payload below 1 MiB and retry the operation.",
        false,
        id,
        op,
    )
}

/// The connection was lost while sending; `retryable` says whether the operation may be
/// retried after a lost outcome.
pub fn request_write_error(request: &ClientRequestContext, retryable: bool) -> (r: IpcClientError)
    ensures
        is_local_failure(
            r,
            LocalIpcErrorKind::Transport,
            IpcClientPhase::RequestWrite,
            LocalIpcErrorCode::TransportWrite,
            "Cadder lost the daemon connection while sending the request; the operation outcome is unknown."@,
            "Check the current daemon state before retrying the operation."@,
            retryable,
            Some(request.request_id@),
            Some(request.operation@),
        ),
{
    let (id, op) = context_fields(request);
    local_failure(
        LocalIpcErrorKind::Transport,
        IpcClientPhase::RequestWrite,
        LocalIpcErrorCode::TransportWrite,
        "Cadder lost the daemon connection while sending the request; the operation outcome is unknown.",
        "Check the current daemon state before retrying the operation.",
        retryable,
        id,
        op,
    )
}

/// The connection was lost before a complete response arrived.
pub fn response_read_error(request: &ClientRequestContext, retryable: bool) -> (r: IpcClientError)
    ensures
        is_local_failure(
            r,
            LocalIpcErrorKind::Transport,
            IpcClientPhase::ResponseRead,
            LocalIpcErrorCode::TransportRead,
            "Cadder lost the daemon connection before receiving a complete response; the operation outcome is unknown."@,
            "Check the current daemon state before retrying the operation."@,
            retryable,
            Some(request.request_id@),
            Some(request.operation@),
        ),
{
    let (id, op) = context_fields(request);
    local_failure(
        LocalIpcErrorKind::Transport,
        IpcClientPhase::ResponseRead,
        LocalIpcErrorCode::TransportRead,
        "Cadder lost the daemon connection before receiving a complete response; the operation outcome is unknown.",
        "Check the current daemon state before retrying the operation.",
        retryable,
        id,
        op,
    )
}

/// The response was not one valid bounded frame.
pub fn response_frame_error(request: &ClientRequestContext) -> (r: IpcClientError)
    ensures
        is_local_failure(
            r,
            LocalIpcErrorKind::Transport,
            IpcClientPhase::ResponseRead,
            LocalIpcErrorCode::Frame,
            "Cadder rejected an invalid or oversized daemon response; the operation outcome is unknown."@,
            "Inspect daemon diagnostics and verify that the client and daemon use compatible framing limits."@,
            false,
            Some(request.request_id@),
            Some(request.operation@),
        ),
{
    let (id, op) = context_fields(request);
    local_failure(
        LocalIpcErrorKind::Transport,
        IpcClientPhase::ResponseRead,
        LocalIpcErrorCode::Frame,
        "Cadder rejected an invalid or oversized daemon response; the operation outcome is unknown.",
        "Inspect daemon diagnostics and verify that the client and daemon use compatible framing limits.",
        false,
        id,
        op,
    )
}

/// The daemon closed the connection before responding.
pub fn response_eof_error(request: &ClientRequestContext, retryable: bool) -> (r: IpcClientError)
    ensures
        is_local_failure(
            r,
            LocalIpcErrorKind::Transport,
            IpcClientPhase::ResponseRead,
            LocalIpcErrorCode::UnexpectedEof,
            "The daemon closed the connection before returning a response; the operation outcome is unknown."@,
            "Check the current daemon state before retrying the operation."@,
            retryable,
            Some(request.request_id@),
            Some(request.operation@),
        ),
{
    let (id, op) = context_fields(request);
    local_failure(
        LocalIpcErrorKind::Transport,
        IpcClientPhase::ResponseRead,
        LocalIpcErrorCode::UnexpectedEof,
        "The daemon closed the connection before returning a response; the operation outcome is unknown.",
        "Check the current daemon state before retrying the operation.",
        retryable,
        id,
        op,
    )
}

/// The response could not be decoded.
pub fn response_decode_error(request: &ClientRequestContext) -> (r: IpcClientError)
    ensures
        is_local_failure(
            r,
            LocalIpcErrorKind::Transport,
            IpcClientPhase::ResponseDecode,
            LocalIpcErrorCode::Frame,
            "Cadder could not decode the daemon response; the operation outcome is unknown."@,
            "Verify that the Cadder client and daemon versions are compatible, then inspect daemon diagnostics."@,
            false,
            Some(request.request_id@),
            Some(request.operation@),
        ),
{
    let (id, op) = context_fields(request);
    local_failure(
        LocalIpcErrorKind::Transport,
        IpcClientPhase::ResponseDecode,
        LocalIpcErrorCode::Frame,
        "Cadder could not decode the daemon response; the operation outcome is unknown.",
        "Verify that the Cadder client and daemon versions are compatible, then inspect daemon diagnostics.",
        false,
        id,
        op,
    )
}

/// The response violated the protocol, for the reason given.
pub fn response_validation_error(request: &ClientRequestContext, message: &str) -> (r: IpcClientError)
    ensures
        is_local_failure(
            r,
            LocalIpcErrorKind::Transport,
            IpcClientPhase::ResponseValidate,
            LocalIpcErrorCode::ProtocolViolation,
            message@,
            "Verify that the Cadder client and daemon versions are compatible, then inspect daemon diagnostics."@,
            false,
            Some(request.request_id@),
            Some(request.operation@),
        ),
{
    let (id, op) = context_fields(request);
    local_failure(
        LocalIpcErrorKind::Transport,
        IpcClientPhase::ResponseValidate,
        LocalIpcErrorCode::ProtocolViolation,
        message,
        "Verify that the Cadder client and daemon versions are compatible, then inspect daemon diagnostics.",
        false,
        id,
        op,
    )
}

/// The request was not sent completely before the deadline.
pub fn request_write_timeout_error(request: &ClientRequestContext, retryable: bool) -> (r: IpcClientError)
    ensures
        is_local_failure(
            r,
            LocalIpcErrorKind::Timeout,
            IpcClientPhase::RequestWrite,
            LocalIpcErrorCode::Timeout,
            "Cadder could not send the complete request before the local deadline; the operation outcome is unknown."@,
            "Check the current daemon state before retrying the operation."@,
            retryable,
            Some(request.request_id@),
            Some(request.operation@),
        ),
{
    let (id, op) = context_fields(request);
    local_failure(
        LocalIpcErrorKind::Timeout,
        IpcClientPhase::RequestWrite,
        LocalIpcErrorCode::Timeout,
        "Cadder could not send the complete request before the local deadline; the operation outcome is unknown.",
        "Check the current daemon state before retrying the operation.",
        retryable,
        id,
        op,
    )
}

/// The response did not arrive completely before the deadline.
pub fn response_timeout_error(request: &ClientRequestContext, retryable: bool) -> (r: IpcClientError)
    ensures
        is_local_failure(
            r,
            LocalIpcErrorKind::Timeout,
            IpcClientPhase::ResponseRead,
            LocalIpcErrorCode::Timeout,
            "The daemon did not return a complete response before the local deadline; the operation outcome is unknown."@,
            "Check the current daemon state before retrying the operation."@,
            retryable,
            Some(request.request_id@),
            Some(request.operation@),
        ),
{
    let (id, op) = context_fields(request);
    local_failure(
        LocalIpcErrorKind::Timeout,
        IpcClientPhase::ResponseRead,
        LocalIpcErrorCode::Timeout,
        "The daemon did not return a complete response before the local deadline; the operation outcome is unknown.",
        "Check the current daemon state before retrying the operation.",
        retryable,
        id,
        op,
    )
}

/// The session was closed by an earlier failure; nothing was sent.
pub fn connection_no_longer_usable(request: &ClientRequestContext) -> (r: IpcClientError)
    ensures
        is_local_failure(
            r,
            LocalIpcErrorKind::Transport,
            IpcClientPhase::Connect,
            LocalIpcErrorCode::ConnectionClosed,
            "This Cadder client session is closed; no new request was sent."@,
            "Open a new Cadder client session, then retry if the operation is safe."@,
            true,
            Some(request.request_id@),
            Some(request.operation@),
        ),
{
    let (id, op) = context_fields(request);
    local_failure(
        LocalIpcErrorKind::Transport,
        IpcClientPhase::Connect,
        LocalIpcErrorCode::ConnectionClosed,
        "This Cadder client session is closed; no new request was sent.",
        "Open a new Cadder client session, then retry if the operation is safe.",
        true,
        id,
        op,
    )
}

/// The started daemon did not become ready before the deadline.
pub fn daemon_readiness_timeout(message: &str) -> (r: IpcClientError)
    ensures
        is_local_failure(
            r,
            LocalIpcErrorKind::Timeout,
            IpcClientPhase::DaemonReadiness,
            LocalIpcErrorCode::Timeout,
            message@,
            "Run cadderd in foreground diagnostic mode, correct any startup error, then retry."@,
            true,
            None,
            Some("start-daemon"@),
        ),
{
    local_failure(
        LocalIpcErrorKind::Timeout,
        IpcClientPhase::DaemonReadiness,
        LocalIpcErrorCode::Timeout,
        message,
        "Run cadderd in foreground diagnostic mode, correct any startup error, then retry.",
        true,
        None,
        Some("start-daemon".to_owned()),
    )
}

} // verus!
