use cadder::ipc_errors::{IpcClientError, IpcClientPhase, LocalIpcError, LocalIpcErrorCode, LocalIpcErrorKind, ProtocolError, ProtocolErrorKind};
use cadder::operator::{
    app_exit_for_ipc, connection_state_from_error, domain_resolve_failure, join_error_messages, sentence,
    text_indicates_permission, unavailable_status, AppExit, ConnectionStateView, DomainResolveError, DomainSelector, LogsTarget,
    OperatorError,
};

fn local(code: LocalIpcErrorCode, guidance: Option<&str>) -> IpcClientError {
    IpcClientError::Local(LocalIpcError {
        kind: LocalIpcErrorKind::Transport,
        phase: IpcClientPhase::Connect,
        code,
        message: "connect failed".to_string(),
        guidance: guidance.map(str::to_string),
        retryable: false,
        request_id: None,
        operation: Some("query-state".to_string()),
    })
}

fn daemon(kind: ProtocolErrorKind, code: &str) -> IpcClientError {
    IpcClientError::Daemon(ProtocolError {
        kind,
        code: code.to_string(),
        message: "request refused!".to_string(),
        guidance: None,
        retryable: false,
        request_id: Some("req-1".to_string()),
        denied_operation: None,
    })
}

#[test]
fn selector_and_logs_target_contracts_are_stable() {
    let selector = DomainSelector { domain: "App.Localhost".to_string(), registration: Some("shim-1".to_string()) };
    let target = LogsTarget::Domain(selector.clone());

    assert_eq!(selector.clone(), selector);
    assert_eq!(target.clone(), LogsTarget::Domain(selector));
    assert!(format!("{target:?}").contains("Domain"));
    assert_eq!(LogsTarget::Runtime, LogsTarget::Runtime.clone());
    assert_eq!(
        LogsTarget::Entrypoint { registration_id: "shim-1".to_string() },
        LogsTarget::Entrypoint { registration_id: "shim-1".to_string() }.clone()
    );
}

#[test]
fn app_exit_values_remain_stable() {
    assert_eq!(AppExit::Success.code(), 0);
    assert_eq!(AppExit::InvalidUsage.code(), 2);
    assert_eq!(AppExit::DaemonUnavailable.code(), 3);
    assert_eq!(AppExit::DaemonStartFailure.code(), 4);
    assert_eq!(AppExit::TargetNotFound.code(), 5);
    assert_eq!(AppExit::ConflictOrRejected.code(), 6);
    assert_eq!(AppExit::PermissionOrElevation.code(), 7);
    assert_eq!(AppExit::UnsupportedOperation.code(), 8);
    assert_eq!(AppExit::IpcFailure.code(), 9);
}

#[test]
fn sentences_end_with_punctuation() {
    assert_eq!(sentence("  failed "), "failed.");
    assert_eq!(sentence("done!"), "done!");
    assert_eq!(sentence(""), ".");
}

#[test]
fn ipc_failures_map_to_exit_outcomes() {
    assert_eq!(app_exit_for_ipc(&local(LocalIpcErrorCode::PermissionDenied, None)), AppExit::PermissionOrElevation);
    assert_eq!(app_exit_for_ipc(&local(LocalIpcErrorCode::DaemonUnavailable, None)), AppExit::DaemonUnavailable);
    assert_eq!(app_exit_for_ipc(&daemon(ProtocolErrorKind::Conflict, "conflict")), AppExit::ConflictOrRejected);
    assert_eq!(
        app_exit_for_ipc(&daemon(ProtocolErrorKind::UnsupportedCapability, "unsupported")),
        AppExit::UnsupportedOperation
    );
    assert_eq!(app_exit_for_ipc(&daemon(ProtocolErrorKind::Internal, "internal")), AppExit::IpcFailure);
}

#[test]
fn daemon_requests_explain_unavailable_daemons() {
    let error = OperatorError::daemon_request("status", "/run/cadder", "query state", local(LocalIpcErrorCode::DaemonUnavailable, None));
    assert_eq!(error.kind, AppExit::DaemonUnavailable);
    assert_eq!(error.message, "Cadder daemon is unavailable for runtime `/run/cadder`.");
    assert_eq!(error.guidance.as_deref(), Some("Open Cadder and start it from Status, then retry."));
    assert!(error.local_error.is_some());
}

#[test]
fn daemon_requests_add_diagnostics_guidance_to_ipc_failures() {
    let error = OperatorError::daemon_request("status", "/run/cadder", "query state", daemon(ProtocolErrorKind::Internal, "internal"));
    assert_eq!(error.kind, AppExit::IpcFailure);
    assert_eq!(error.message, "Could not query state: request refused!");
    assert_eq!(
        error.guidance.as_deref(),
        Some("Inspect cadderd diagnostics for runtime `/run/cadder`, correct the reported protocol or transport error, then retry.")
    );
    assert!(error.daemon_error.is_some());
}

#[test]
fn daemon_start_failures_distinguish_permission_problems() {
    let denied = OperatorError::daemon_start("start", "/run/cadder", local(LocalIpcErrorCode::PermissionDenied, None));
    assert_eq!(denied.kind, AppExit::PermissionOrElevation);
    assert_eq!(denied.message, "Could not start cadderd: connect failed.");
    let failed = OperatorError::daemon_start("start", "/run/cadder", local(LocalIpcErrorCode::DaemonStartFailed, Some("Retry.")));
    assert_eq!(failed.kind, AppExit::DaemonStartFailure);
    assert_eq!(failed.guidance.as_deref(), Some("Retry."));
}

#[test]
fn error_chains_drop_consecutive_repeats() {
    let messages = vec!["open".to_string(), "open".to_string(), "denied".to_string(), "open".to_string()];
    assert_eq!(join_error_messages(&messages), "open: denied: open");
    assert!(text_indicates_permission("open config: Permission Denied (os error 13)"));
    assert!(text_indicates_permission("Access is denied."));
    assert!(!text_indicates_permission("not found"));
}

#[test]
fn connection_state_follows_the_failure() {
    assert_eq!(
        connection_state_from_error(&local(LocalIpcErrorCode::DaemonUnavailable, None)),
        ConnectionStateView::NotRunning
    );
    assert_eq!(
        connection_state_from_error(&daemon(ProtocolErrorKind::Internal, "internal")),
        ConnectionStateView::ConnectionFailed
    );
}

#[test]
fn ambiguous_domains_list_every_entrypoint() {
    let error = domain_resolve_failure(
        "domains",
        DomainResolveError::Ambiguous {
            canonical_domain: "app.localhost".to_string(),
            matches: vec!["shim-1".to_string(), "shim-2".to_string()],
        },
    );
    assert_eq!(error.kind, AppExit::ConflictOrRejected);
    assert!(error.message.contains("shim-1, shim-2"));
    let missing = domain_resolve_failure(
        "domains",
        DomainResolveError::NotFound { canonical_domain: "x.localhost".to_string(), requested_registration: None },
    );
    assert_eq!(missing.kind, AppExit::TargetNotFound);
    assert_eq!(missing.message, "Domain `x.localhost` was not found.");
}

#[test]
fn unavailable_statuses_guide_the_operator() {
    let not_running = local(LocalIpcErrorCode::DaemonUnavailable, None);
    let status = unavailable_status("/run/cadder", &not_running);
    assert_eq!(status.connection_state, ConnectionStateView::NotRunning);
    assert!(status.message.contains("is not running"));
    assert_eq!(
        status.guidance.as_deref(),
        Some("Run `cadder tui --start-daemon` to start cadderd and open the operator, then retry.")
    );

    let failed = IpcClientError::Daemon(ProtocolError {
        kind: ProtocolErrorKind::IncompatibleProtocolVersion,
        code: "incompatible_protocol".to_string(),
        message: "protocol mismatch".to_string(),
        guidance: Some("Upgrade the older Cadder component.".to_string()),
        retryable: false,
        request_id: None,
        denied_operation: None,
    });
    let status = unavailable_status("/run/cadder", &failed);
    assert_eq!(status.connection_state, ConnectionStateView::ConnectionFailed);
    assert!(status.message.contains("protocol mismatch"));
    assert_eq!(status.guidance.as_deref(), Some("Upgrade the older Cadder component."));
}
