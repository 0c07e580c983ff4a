use cadder::client_errors::{
    connection_error, connection_no_longer_usable, connection_timeout_error, daemon_readiness_timeout,
    endpoint_resolution_error, peer_authentication_preface_error, request_frame_error, request_write_error,
    request_write_timeout_error, response_decode_error, response_eof_error, response_frame_error, response_read_error,
    response_timeout_error, response_validation_error, ClientRequestContext,
};
use cadder::ipc_errors::{daemon_not_ready_error, IoErrorClass, IpcClientPhase, LocalIpcErrorCode};
use cadder::launch::{daemon_launch_error, daemon_not_ready_yet};

fn context(operation: &str) -> ClientRequestContext {
    ClientRequestContext { operation: operation.to_string(), request_id: "request-1".to_string() }
}

#[test]
fn local_protocol_errors_keep_phase_code_context_and_retryability() {
    let ordinary = context("query-state");
    let errors = vec![
        endpoint_resolution_error(),
        connection_error(IoErrorClass::PermissionDenied),
        connection_error(IoErrorClass::TimedOut),
        connection_error(IoErrorClass::NotFound),
        connection_error(IoErrorClass::Other),
        connection_timeout_error("client-hello"),
        peer_authentication_preface_error(IoErrorClass::PermissionDenied),
        peer_authentication_preface_error(IoErrorClass::TimedOut),
        peer_authentication_preface_error(IoErrorClass::NotFound),
        peer_authentication_preface_error(IoErrorClass::Other),
        request_frame_error(&ordinary),
        request_write_error(&ordinary, true),
        response_read_error(&ordinary, true),
        response_frame_error(&ordinary),
        response_eof_error(&ordinary, true),
        response_decode_error(&ordinary),
        response_validation_error(&ordinary, "invalid response"),
        request_write_timeout_error(&ordinary, true),
        response_timeout_error(&ordinary, true),
        connection_no_longer_usable(&ordinary),
        daemon_launch_error(LocalIpcErrorCode::DaemonStartFailed, "start failed", "retry manually"),
        daemon_readiness_timeout("readiness failed"),
    ];

    for error in &errors {
        assert!(!error.code().is_empty());
        assert!(!error.message().is_empty());
        assert!(error.local_error().is_some());
    }
    let permission = errors[1].local_error().unwrap();
    assert_eq!(permission.code(), LocalIpcErrorCode::PermissionDenied);
    assert!(!permission.retryable());
    let unavailable = errors[3].local_error().unwrap();
    assert_eq!(unavailable.code(), LocalIpcErrorCode::DaemonUnavailable);
    assert!(unavailable.retryable());
    let frame = errors[10].local_error().unwrap();
    assert_eq!(frame.phase(), IpcClientPhase::RequestEncode);
    assert_eq!(frame.request_id(), Some("request-1"));
    assert_eq!(frame.operation(), Some("query-state"));
    for kind in [
        IoErrorClass::NotFound,
        IoErrorClass::ConnectionRefused,
        IoErrorClass::ConnectionReset,
        IoErrorClass::ConnectionAborted,
        IoErrorClass::NotConnected,
        IoErrorClass::AddrNotAvailable,
    ] {
        assert!(daemon_not_ready_error(kind));
    }
    assert!(!daemon_not_ready_error(IoErrorClass::PermissionDenied));
}

#[test]
fn launch_readiness_retries_connection_timeouts() {
    let timeout = connection_timeout_error("client-hello");
    assert!(daemon_not_ready_yet(&timeout));

    let permanent = connection_error(IoErrorClass::Other);
    assert!(!daemon_not_ready_yet(&permanent));
}

#[test]
fn typed_error_local_codes_are_unique_and_match_the_serialized_contract() {
    let cases = [
        (LocalIpcErrorCode::ConnectionClosed, "connection_closed"),
        (LocalIpcErrorCode::DaemonNotFound, "daemon_not_found"),
        (LocalIpcErrorCode::DaemonStartFailed, "daemon_start_failed"),
        (LocalIpcErrorCode::DaemonUnavailable, "daemon_unavailable"),
        (LocalIpcErrorCode::DiscoveryReadFailed, "discovery_read_failed"),
        (LocalIpcErrorCode::DiscoveryUnavailable, "discovery_unavailable"),
        (LocalIpcErrorCode::Frame, "frame"),
        (LocalIpcErrorCode::IncompatibleProtocol, "incompatible_protocol"),
        (LocalIpcErrorCode::InvalidDiscovery, "invalid_discovery"),
        (LocalIpcErrorCode::InvalidEndpoint, "invalid_endpoint"),
        (LocalIpcErrorCode::InvalidInput, "invalid_input"),
        (LocalIpcErrorCode::InvalidRequest, "invalid_request"),
        (LocalIpcErrorCode::InvalidRuntime, "invalid_runtime"),
        (LocalIpcErrorCode::PermissionDenied, "permission_denied"),
        (LocalIpcErrorCode::ProtocolViolation, "protocol_violation"),
        (LocalIpcErrorCode::StaleInstance, "stale_instance"),
        (LocalIpcErrorCode::Timeout, "timeout"),
        (LocalIpcErrorCode::TransportConnect, "transport_connect"),
        (LocalIpcErrorCode::TransportRead, "transport_read"),
        (LocalIpcErrorCode::TransportWrite, "transport_write"),
        (LocalIpcErrorCode::UnexpectedEof, "unexpected_eof"),
    ];
    let mut unique = std::collections::BTreeSet::new();

    for (code, expected) in cases {
        assert_eq!(code.as_str(), expected);
        assert!(unique.insert(expected));
    }
}
