//! Failures observed by a local IPC client, with their stable machine codes.

use vstd::prelude::*;

verus! {

/// Stable machine code for a local IPC failure.
#[derive(Debug, Clone, Copy, PartialEq, Eq, Structural)]
pub enum LocalIpcErrorCode {
    ConnectionClosed,
    DaemonNotFound,
    DaemonStartFailed,
    DaemonUnavailable,
    DiscoveryReadFailed,
    DiscoveryUnavailable,
    Frame,
    IncompatibleProtocol,
    InvalidDiscovery,
    InvalidEndpoint,
    InvalidInput,
    InvalidRequest,
    InvalidRuntime,
    PermissionDenied,
    ProtocolViolation,
    StaleInstance,
    Timeout,
    TransportConnect,
    TransportRead,
    TransportWrite,
    UnexpectedEof,
}

/// The serialized name of a code.
pub open spec fn code_name(code: LocalIpcErrorCode) -> Seq<char> {
    match code {
        LocalIpcErrorCode::ConnectionClosed => "connection_closed"@,
        LocalIpcErrorCode::DaemonNotFound => "daemon_not_found"@,
        LocalIpcErrorCode::DaemonStartFailed => "daemon_start_failed"@,
        LocalIpcErrorCode::DaemonUnavailable => "daemon_unavailable"@,
        LocalIpcErrorCode::DiscoveryReadFailed => "discovery_read_failed"@,
        LocalIpcErrorCode::DiscoveryUnavailable => "discovery_unavailable"@,
        LocalIpcErrorCode::Frame => "frame"@,
        LocalIpcErrorCode::IncompatibleProtocol => "incompatible_protocol"@,
        LocalIpcErrorCode::InvalidDiscovery => "invalid_discovery"@,
        LocalIpcErrorCode::InvalidEndpoint => "invalid_endpoint"@,
        LocalIpcErrorCode::InvalidInput => "invalid_input"@,
        LocalIpcErrorCode::InvalidRequest => "invalid_request"@,
        LocalIpcErrorCode::InvalidRuntime => "invalid_runtime"@,
        LocalIpcErrorCode::PermissionDenied => "permission_denied"@,
        LocalIpcErrorCode::ProtocolViolation => "protocol_violation"@,
        LocalIpcErrorCode::StaleInstance => "stale_instance"@,
        LocalIpcErrorCode::Timeout => "timeout"@,
        LocalIpcErrorCode::TransportConnect => "transport_connect"@,
        LocalIpcErrorCode::TransportRead => "transport_read"@,
        LocalIpcErrorCode::TransportWrite => "transport_write"@,
        LocalIpcErrorCode::UnexpectedEof => "unexpected_eof"@,
    }
}

impl LocalIpcErrorCode {
    pub fn as_str(self) -> (r: &'static str)
        ensures
            r@ == code_name(self),
    {
        match self {
            LocalIpcErrorCode::ConnectionClosed => "connection_closed",
            LocalIpcErrorCode::DaemonNotFound => "daemon_not_found",
            LocalIpcErrorCode::DaemonStartFailed => "daemon_start_failed",
            LocalIpcErrorCode::DaemonUnavailable => "daemon_unavailable",
            LocalIpcErrorCode::DiscoveryReadFailed => "discovery_read_failed",
            LocalIpcErrorCode::DiscoveryUnavailable => "discovery_unavailable",
            LocalIpcErrorCode::Frame => "frame",
            LocalIpcErrorCode::IncompatibleProtocol => "incompatible_protocol",
            LocalIpcErrorCode::InvalidDiscovery => "invalid_discovery",
            LocalIpcErrorCode::InvalidEndpoint => "invalid_endpoint",
            LocalIpcErrorCode::InvalidInput => "invalid_input",
            LocalIpcErrorCode::InvalidRequest => "invalid_request",
            LocalIpcErrorCode::InvalidRuntime => "invalid_runtime",
            LocalIpcErrorCode::PermissionDenied => "permission_denied",
            LocalIpcErrorCode::ProtocolViolation => "protocol_violation",
            LocalIpcErrorCode::StaleInstance => "stale_instance",
            LocalIpcErrorCode::Timeout => "timeout",
            LocalIpcErrorCode::TransportConnect => "transport_connect",
            LocalIpcErrorCode::TransportRead => "transport_read",
            LocalIpcErrorCode::TransportWrite => "transport_write",
            LocalIpcErrorCode::UnexpectedEof => "unexpected_eof",
        }
    }
}

/// Distinct codes have distinct names, so a name identifies its code.
pub proof fn lemma_code_names_are_unique(a: LocalIpcErrorCode, b: LocalIpcErrorCode)
    requires
        code_name(a) == code_name(b),
    ensures
        a == b,
{
    reveal_strlit("connection_closed");
    reveal_strlit("daemon_not_found");
    reveal_strlit("daemon_start_failed");
    reveal_strlit("daemon_unavailable");
    reveal_strlit("discovery_read_failed");
    reveal_strlit("discovery_unavailable");
    reveal_strlit("frame");
    reveal_strlit("incompatible_protocol");
    reveal_strlit("invalid_discovery");
    reveal_strlit("invalid_endpoint");
    reveal_strlit("invalid_input");
    reveal_strlit("invalid_request");
    reveal_strlit("invalid_runtime");
    reveal_strlit("permission_denied");
    reveal_strlit("protocol_violation");
    reveal_strlit("stale_instance");
    reveal_strlit("timeout");
    reveal_strlit("transport_connect");
    reveal_strlit("transport_read");
    reveal_strlit("transport_write");
    reveal_strlit("unexpected_eof");
    if a != b {
        let x = code_name(a);
        let y = code_name(b);
        assert(x.len() != y.len() || x[0] != y[0] || x[1] != y[1] || x[2] != y[2] || x[3] != y[3]
            || x[4] != y[4] || x[5] != y[5] || x[6] != y[6] || x[7] != y[7] || x[8] != y[8]
            || x[9] != y[9] || x[10] != y[10] || x[11] != y[11] || x[12] != y[12]);
    }
}

/// High-level class of a failure produced by the local client rather than the daemon.
#[derive(Debug, Clone, Copy, PartialEq, Eq, Structural)]
pub enum LocalIpcErrorKind {
    Discovery,
    Transport,
    Timeout,
}

/// The local client phase that failed before a valid daemon outcome arrived.
#[derive(Debug, Clone, Copy, PartialEq, Eq, Structural)]
pub enum IpcClientPhase {
    DiscoveryRead,
    DiscoveryDecode,
    EndpointResolve,
    Connect,
    DaemonLaunch,
    DaemonReadiness,
    RequestEncode,
    RequestWrite,
    ResponseRead,
    ResponseDecode,
    ResponseValidate,
}

/// Structured details for a local IPC failure.
#[derive(Debug, Clone)]
pub struct LocalIpcError {
    pub kind: LocalIpcErrorKind,
    pub phase: IpcClientPhase,
    pub code: LocalIpcErrorCode,
    pub message: String,
    pub guidance: Option<String>,
    pub retryable: bool,
    pub request_id: Option<String>,
    pub operation: Option<String>,
}

pub open spec fn opt_view(s: Option<String>) -> Option<Seq<char>> {
    match s {
        Some(v) => Some(v@),
        None => None,
    }
}

pub(crate) fn opt_as_str(s: &Option<String>) -> (r: Option<&str>)
    ensures
        match *s {
            Some(v) => r is Some && r->0@ == v@,
            None => r is None,
        },
{
    match s {
        Some(v) => Some(v.as_str()),
        None => None,
    }
}

impl LocalIpcError {
    pub fn kind(&self) -> (r: LocalIpcErrorKind)
        ensures
            r == self.kind,
    {
        self.kind
    }

    pub fn phase(&self) -> (r: IpcClientPhase)
        ensures
            r == self.phase,
    {
        self.phase
    }

    pub fn code(&self) -> (r: LocalIpcErrorCode)
        ensures
            r == self.code,
    {
        self.code
    }

    pub fn message(&self) -> (r: &str)
        ensures
            r@ == self.message@,
    {
        self.message.as_str()
    }

    pub fn guidance(&self) -> (r: Option<&str>)
        ensures
            match self.guidance {
                Some(v) => r is Some && r->0@ == v@,
                None => r is None,
            },
    {
        opt_as_str(&self.guidance)
    }

    pub fn retryable(&self) -> (r: bool)
        ensures
            r == self.retryable,
    {
        self.retryable
    }

    pub fn request_id(&self) -> (r: Option<&str>)
        ensures
            match self.request_id {
                Some(v) => r is Some && r->0@ == v@,
                None => r is None,
            },
    {
        opt_as_str(&self.request_id)
    }

    pub fn operation(&self) -> (r: Option<&str>)
        ensures
            match self.operation {
                Some(v) => r is Some && r->0@ == v@,
                None => r is None,
            },
    {
        opt_as_str(&self.operation)
    }
}

/// The kinds of error a daemon reports on the wire.
#[derive(Debug, Clone, Copy, PartialEq, Eq, Structural)]
pub enum ProtocolErrorKind {
    AccessDenied,
    Conflict,
    Frame,
    IncompatibleProtocolVersion,
    Internal,
    ProtocolViolation,
    ShuttingDown,
    StaleInstance,
    Timeout,
    UnsupportedCapability,
}

/// An error reported by the daemon.
#[derive(Debug, Clone)]
pub struct ProtocolError {
    pub kind: ProtocolErrorKind,
    pub code: String,
    pub message: String,
    pub guidance: Option<String>,
    pub retryable: bool,
    pub request_id: Option<String>,
    pub denied_operation: Option<String>,
}

/// A failure observed by a Cadder IPC client: the daemon's own error, or a local one.
#[derive(Debug, Clone)]
pub enum IpcClientError {
    Daemon(ProtocolError),
    Local(LocalIpcError),
}

impl IpcClientError {
    /// The stable machine code.
    pub fn code(&self) -> (r: &str)
        ensures
            match *self {
                IpcClientError::Daemon(e) => r@ == e.code@,
                IpcClientError::Local(e) => r@ == code_name(e.code),
            },
    {
        match self {
            IpcClientError::Daemon(error) => error.code.as_str(),
            IpcClientError::Local(error) => error.code.as_str(),
        }
    }

    pub fn message(&self) -> (r: &str)
        ensures
            match *self {
                IpcClientError::Daemon(e) => r@ == e.message@,
                IpcClientError::Local(e) => r@ == e.message@,
            },
    {
        match self {
            IpcClientError::Daemon(error) => error.message.as_str(),
            IpcClientError::Local(error) => error.message.as_str(),
        }
    }

    pub fn guidance(&self) -> (r: Option<&str>)
        ensures
            match *self {
                IpcClientError::Daemon(e) => match e.guidance {
                    Some(v) => r is Some && r->0@ == v@,
                    None => r is None,
                },
                IpcClientError::Local(e) => match e.guidance {
                    Some(v) => r is Some && r->0@ == v@,
                    None => r is None,
                },
            },
    {
        match self {
            IpcClientError::Daemon(error) => opt_as_str(&error.guidance),
            IpcClientError::Local(error) => opt_as_str(&error.guidance),
        }
    }

    pub fn retryable(&self) -> (r: bool)
        ensures
            match *self {
                IpcClientError::Daemon(e) => r == e.retryable,
                IpcClientError::Local(e) => r == e.retryable,
            },
    {
        match self {
            IpcClientError::Daemon(error) => error.retryable,
            IpcClientError::Local(error) => error.retryable,
        }
    }

    pub fn request_id(&self) -> (r: Option<&str>)
        ensures
            match *self {
                IpcClientError::Daemon(e) => match e.request_id {
                    Some(v) => r is Some && r->0@ == v@,
                    None => r is None,
                },
                IpcClientError::Local(e) => match e.request_id {
                    Some(v) => r is Some && r->0@ == v@,
                    None => r is None,
                },
            },
    {
        match self {
            IpcClientError::Daemon(error) => opt_as_str(&error.request_id),
            IpcClientError::Local(error) => opt_as_str(&error.request_id),
        }
    }

    /// The local operation, or the operation the daemon reported as denied.
    pub fn operation(&self) -> (r: Option<&str>)
        ensures
            match *self {
                IpcClientError::Daemon(e) => match e.denied_operation {
                    Some(v) => r is Some && r->0@ == v@,
                    None => r is None,
                },
                IpcClientError::Local(e) => match e.operation {
                    Some(v) => r is Some && r->0@ == v@,
                    None => r is None,
                },
            },
    {
        match self {
            IpcClientError::Daemon(error) => opt_as_str(&error.denied_operation),
            IpcClientError::Local(error) => opt_as_str(&error.operation),
        }
    }

    pub fn daemon_error(&self) -> (r: Option<&ProtocolError>)
        ensures
            match *self {
                IpcClientError::Daemon(e) => r == Some(&e),
                IpcClientError::Local(_) => r is None,
            },
    {
        match self {
            IpcClientError::Daemon(error) => Some(error),
            IpcClientError::Local(_) => None,
        }
    }

    pub fn local_error(&self) -> (r: Option<&LocalIpcError>)
        ensures
            match *self {
                IpcClientError::Daemon(_) => r is None,
                IpcClientError::Local(e) => r == Some(&e),
            },
    {
        match self {
            IpcClientError::Daemon(_) => None,
            IpcClientError::Local(error) => Some(error),
        }
    }

    pub open spec fn spec_permission_denied(&self) -> bool {
        match *self {
            IpcClientError::Daemon(e) => e.kind == ProtocolErrorKind::AccessDenied || e.code@
                == "permission_denied"@,
            IpcClientError::Local(e) => e.code == LocalIpcErrorCode::PermissionDenied,
        }
    }

    /// Access failed at the local transport or at the daemon policy.
    pub fn is_permission_denied(&self) -> (r: bool)
        ensures
            r == self.spec_permission_denied(),
    {
        match self {
            IpcClientError::Daemon(error) => {
                error.kind == ProtocolErrorKind::AccessDenied || error.code
                    == "permission_denied".to_owned()
            },
            IpcClientError::Local(error) => error.code == LocalIpcErrorCode::PermissionDenied,
        }
    }

    pub open spec fn spec_daemon_unavailable(&self) -> bool {
        match *self {
            IpcClientError::Daemon(_) => false,
            IpcClientError::Local(e) => e.code == LocalIpcErrorCode::DaemonUnavailable || e.code
                == LocalIpcErrorCode::DiscoveryUnavailable,
        }
    }

    /// The selected runtime has no reachable daemon endpoint.
    pub fn is_daemon_unavailable(&self) -> (r: bool)
        ensures
            r == self.spec_daemon_unavailable(),
    {
        match self {
            IpcClientError::Daemon(_) => false,
            IpcClientError::Local(error) => error.code == LocalIpcErrorCode::DaemonUnavailable
                || error.code == LocalIpcErrorCode::DiscoveryUnavailable,
        }
    }

    pub open spec fn spec_protocol_incompatible(&self) -> bool {
        match *self {
            IpcClientError::Daemon(e) => e.kind == ProtocolErrorKind::IncompatibleProtocolVersion,
            IpcClientError::Local(e) => e.code == LocalIpcErrorCode::IncompatibleProtocol,
        }
    }

    /// The client and daemon protocol contracts cannot interoperate unchanged.
    pub fn is_protocol_incompatible(&self) -> (r: bool)
        ensures
            r == self.spec_protocol_incompatible(),
    {
        match self {
            IpcClientError::Daemon(error) => error.kind == ProtocolErrorKind::IncompatibleProtocolVersion,
            IpcClientError::Local(error) => error.code == LocalIpcErrorCode::IncompatibleProtocol,
        }
    }

    pub open spec fn spec_stale_instance(&self) -> bool {
        match *self {
            IpcClientError::Daemon(e) => e.kind == ProtocolErrorKind::StaleInstance,
            IpcClientError::Local(e) => e.code == LocalIpcErrorCode::StaleInstance,
        }
    }

    /// Discovery and the connected daemon identified different live instances.
    pub fn is_stale_instance(&self) -> (r: bool)
        ensures
            r == self.spec_stale_instance(),
    {
        match self {
            IpcClientError::Daemon(error) => error.kind == ProtocolErrorKind::StaleInstance,
            IpcClientError::Local(error) => error.code == LocalIpcErrorCode::StaleInstance,
        }
    }
}

/// The class of an operating-system I/O failure that the client distinguishes.
#[derive(Debug, Clone, Copy, PartialEq, Eq, Structural)]
pub enum IoErrorClass {
    NotFound,
    PermissionDenied,
    ConnectionRefused,
    ConnectionReset,
    ConnectionAborted,
    NotConnected,
    AddrNotAvailable,
    Interrupted,
    TimedOut,
    Other,
}

/// The daemon is not accepting connections yet.
pub fn daemon_not_ready_error(kind: IoErrorClass) -> (r: bool)
    ensures
        r == (kind == IoErrorClass::NotFound || kind == IoErrorClass::ConnectionRefused || kind
            == IoErrorClass::ConnectionReset || kind == IoErrorClass::ConnectionAborted || kind
            == IoErrorClass::NotConnected || kind == IoErrorClass::AddrNotAvailable),
{
    match kind {
        IoErrorClass::NotFound | IoErrorClass::ConnectionRefused | IoErrorClass::ConnectionReset
        | IoErrorClass::ConnectionAborted | IoErrorClass::NotConnected
        | IoErrorClass::AddrNotAvailable => true,
        _ => false,
    }
}

} // verus!
