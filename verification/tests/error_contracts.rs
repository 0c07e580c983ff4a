use anyhow::Context;
use cadder::ipc_errors::{IpcClientError, ProtocolError, ProtocolErrorKind};
use cadder::operator::{
    daemon_error_indicates_unavailable, error_indicates_permission, format_error_chain, AppExit, OperatorError,
};

fn protocol(kind: ProtocolErrorKind, code: &str, message: &str, denied_operation: Option<&str>) -> IpcClientError {
    IpcClientError::Daemon(ProtocolError {
        kind,
        code: code.to_string(),
        message: message.to_string(),
        guidance: None,
        retryable: false,
        request_id: None,
        denied_operation: denied_operation.map(str::to_string),
    })
}

#[test]
fn tests_app_exit_values_remain_stable() {
    assert_eq!(AppExit::Success.code(), 0);
    assert_eq!(AppExit::InvalidUsage.code(), 2);
    assert_eq!(AppExit::DaemonUnavailable.code(), 3);
    assert_eq!(AppExit::DaemonStartFailure.code(), 4);
    assert_eq!(AppExit::TargetNotFound.code(), 5);
    assert_eq!(AppExit::ConflictOrRejected.code(), 6);
    assert_eq!(AppExit::PermissionOrElevation.code(), 7);
    assert_eq!(AppExit::UnsupportedOperation.code(), 8);
    assert_eq!(AppExit::IpcFailure.code(), 9);
}

#[test]
fn error_typed_error_permission_maps_to_permission_exit_code() {
    let error = protocol(ProtocolErrorKind::AccessDenied, "access_denied", "Permission denied.", Some("start-daemon"));
    let mapped = OperatorError::daemon_start("daemon start", "runtime", error);
    assert_eq!(mapped.kind, AppExit::PermissionOrElevation);
}

#[test]
fn error_typed_error_unknown_daemon_error_maps_to_ipc_failure() {
    let error = protocol(ProtocolErrorKind::Internal, "internal", "Unexpected daemon envelope.", None);
    let mapped = OperatorError::daemon_request("logs show", "runtime", "query retained logs", error);
    assert_eq!(mapped.kind, AppExit::IpcFailure);
    assert!(mapped.message.contains("Unexpected daemon envelope"));
    assert!(mapped.guidance.as_deref().is_some_and(|guidance| guidance.contains("Inspect cadderd diagnostics")));
}

#[test]
fn error_typed_error_incompatible_protocol_maps_to_unsupported_exit_code() {
    let error = protocol(
        ProtocolErrorKind::IncompatibleProtocolVersion,
        "incompatible_protocol_version",
        "The daemon speaks protocol version 0.",
        None,
    );
    let mapped = OperatorError::daemon_request("status", "runtime", "query state", error);
    assert_eq!(mapped.kind, AppExit::UnsupportedOperation);
    assert!(mapped.daemon_error.is_some());
}

#[test]
fn error_typed_error_daemon_start_failure_keeps_stable_exit_code() {
    let error = protocol(ProtocolErrorKind::Internal, "daemon_start_failed", "Spawn failed.", None);
    let mapped = OperatorError::daemon_start("daemon start", "runtime", error);
    assert_eq!(mapped.kind, AppExit::DaemonStartFailure);
    assert!(mapped.message.contains("Spawn failed."));
    assert!(!mapped.message.ends_with(".."));
}

#[test]
fn error_operator_error_constructors_keep_stable_contracts() {
    let unsupported =
        OperatorError::unsupported("iis handoff", "not supported".to_string(), Some("retry elsewhere".to_string()));
    assert_eq!(unsupported.kind, AppExit::UnsupportedOperation);
    assert_eq!(unsupported.message, "not supported");

    let target = OperatorError::target_not_found("domains enable", "missing".to_string(), None);
    assert_eq!(target.kind, AppExit::TargetNotFound);

    let conflict = OperatorError::conflict_or_rejected("domains enable", "busy".to_string(), None);
    assert_eq!(conflict.kind, AppExit::ConflictOrRejected);
}

#[test]
fn error_daemon_request_and_permission_detection_cover_permission_and_unavailable_kinds() {
    let permission = anyhow::Error::from(std::io::Error::new(std::io::ErrorKind::PermissionDenied, "access is denied"));
    let permission_error = protocol(ProtocolErrorKind::AccessDenied, "access_denied", "Access is denied.", Some("query-history"));
    let mapped = OperatorError::daemon_request("history show", "runtime", "query history", permission_error);
    assert_eq!(mapped.kind, AppExit::PermissionOrElevation);
    assert!(error_indicates_permission(&permission));

    let unavailable = protocol(ProtocolErrorKind::Internal, "daemon_unavailable", "The daemon is unavailable.", None);
    assert!(!daemon_error_indicates_unavailable(&unavailable));

    let text_permission = anyhow::Error::msg("Access is denied while opening pipe");
    assert!(error_indicates_permission(&text_permission));
    let chained = Err::<(), _>(anyhow::Error::msg("outer")).context("outer").unwrap_err();
    assert_eq!(format_error_chain(&chained), "outer");
}

#[test]
fn tests_typed_error_permission_maps_to_permission_exit_code() {
    let error = protocol(ProtocolErrorKind::AccessDenied, "access_denied", "Permission denied.", Some("start-daemon"));
    let mapped = OperatorError::daemon_start("daemon start", "runtime", error);
    assert_eq!(mapped.kind, AppExit::PermissionOrElevation);
}

#[test]
fn tests_typed_error_unknown_daemon_error_maps_to_ipc_failure() {
    let error = protocol(ProtocolErrorKind::Internal, "internal", "Unexpected daemon envelope.", None);
    let mapped = OperatorError::daemon_request("logs show", "runtime", "query retained logs", error);
    assert_eq!(mapped.kind, AppExit::IpcFailure);
    assert!(mapped.message.contains("Unexpected daemon envelope"));
    assert!(mapped.guidance.as_deref().is_some_and(|guidance| guidance.contains("Inspect cadderd diagnostics")));
}

#[test]
fn tests_typed_error_incompatible_protocol_maps_to_unsupported_exit_code() {
    let error = protocol(
        ProtocolErrorKind::IncompatibleProtocolVersion,
        "incompatible_protocol_version",
        "The daemon speaks protocol version 0.",
        None,
    );
    let mapped = OperatorError::daemon_request("status", "runtime", "query state", error);
    assert_eq!(mapped.kind, AppExit::UnsupportedOperation);
    assert!(mapped.daemon_error.is_some());
}

#[test]
fn tests_typed_error_daemon_start_failure_keeps_stable_exit_code() {
    let error = protocol(ProtocolErrorKind::Internal, "daemon_start_failed", "Spawn failed.", None);
    let mapped = OperatorError::daemon_start("daemon start", "runtime", error);
    assert_eq!(mapped.kind, AppExit::DaemonStartFailure);
    assert!(mapped.message.contains("Spawn failed."));
    assert!(!mapped.message.ends_with(".."));
}

#[test]
fn tests_operator_error_constructors_keep_stable_contracts() {
    let unsupported =
        OperatorError::unsupported("unsupported operation", "not supported".to_string(), Some("retry elsewhere".to_string()));
    assert_eq!(unsupported.kind, AppExit::UnsupportedOperation);
    assert_eq!(unsupported.message, "not supported");

    let target = OperatorError::target_not_found("domains enable", "missing".to_string(), None);
    assert_eq!(target.kind, AppExit::TargetNotFound);

    let conflict = OperatorError::conflict_or_rejected("domains enable", "busy".to_string(), None);
    assert_eq!(conflict.kind, AppExit::ConflictOrRejected);
}

#[test]
fn tests_daemon_request_and_permission_detection_cover_permission_and_unavailable_kinds() {
    let permission = anyhow::Error::from(std::io::Error::new(std::io::ErrorKind::PermissionDenied, "access is denied"));
    let permission_error = protocol(ProtocolErrorKind::AccessDenied, "access_denied", "Access is denied.", Some("query-history"));
    let mapped = OperatorError::daemon_request("history show", "runtime", "query history", permission_error);
    assert_eq!(mapped.kind, AppExit::PermissionOrElevation);
    assert!(error_indicates_permission(&permission));

    let unavailable = protocol(ProtocolErrorKind::Internal, "daemon_unavailable", "The daemon is unavailable.", None);
    assert!(!daemon_error_indicates_unavailable(&unavailable));

    let text_permission = anyhow::Error::msg("Access is denied while opening pipe");
    assert!(error_indicates_permission(&text_permission));
    let chained = Err::<(), _>(anyhow::Error::msg("outer")).context("outer").unwrap_err();
    assert_eq!(format_error_chain(&chained), "outer");
}

#[test]
fn io_permission_causes_are_found_anywhere_in_the_chain() {
    let io = anyhow::Error::from(std::io::Error::new(std::io::ErrorKind::PermissionDenied, "blocked"));
    let wrapped = io.context("open the runtime directory");
    assert!(error_indicates_permission(&wrapped));
    let not_found = anyhow::Error::from(std::io::Error::new(std::io::ErrorKind::NotFound, "gone")).context("read file");
    assert!(!error_indicates_permission(&not_found));
    assert_eq!(format_error_chain(&not_found), "read file: gone");
}
