use cadder::context::{
    domain_toggle_rejected, entrypoint_not_found, missing_snapshot_error, stop_wait_failure, stop_wait_timeout,
    CadderClient, DeadlineClass, IpcClientDeadlines, OperatorContext, RuntimePaths, StopWait, StopWaitStep,
    DAEMON_STOP_ATTEMPTS,
};
use cadder::ipc_errors::{IpcClientError, IpcClientPhase, LocalIpcError, LocalIpcErrorCode, LocalIpcErrorKind};
use cadder::launch::{DaemonLaunchMode, DaemonLaunchOptions};
use cadder::operator::AppExit;

#[test]
fn context_preserves_runtime_paths_and_launch_options() {
    let runtime_dir = "/tmp/cadder-context-test/runtime".to_string();
    let daemon_path = "/tmp/cadder-context-test/cadderd.exe".to_string();
    let context = OperatorContext::new(
        "test",
        Ok(RuntimePaths::from_runtime_dir(runtime_dir.clone())),
        DaemonLaunchOptions {
            explicit_daemon: Some(daemon_path.clone()),
            real_caddy_override: Some("caddy-real".to_string()),
            launch_mode: DaemonLaunchMode::ForegroundDiagnostic,
            ..DaemonLaunchOptions::default()
        },
    )
    .unwrap();

    assert_eq!(context.paths().runtime_dir(), runtime_dir.as_str());
    assert_eq!(context.launch_options().explicit_daemon.as_deref(), Some(daemon_path.as_str()));
    assert_eq!(context.launch_options().real_caddy_override.as_deref(), Some("caddy-real"));
    assert_eq!(context.launch_options().launch_mode, DaemonLaunchMode::ForegroundDiagnostic);
}

#[test]
fn context_client_serves_the_same_runtime_directory() {
    let context = OperatorContext::from_paths(
        RuntimePaths::from_runtime_dir("/run/cadder".to_string()),
        DaemonLaunchOptions::default(),
    );
    assert_eq!(context.client().paths.runtime_dir(), "/run/cadder");
    assert_eq!(context.client().deadlines.connect_secs, 5);
    assert!(context.launch_options().explicit_daemon.is_none());
}

#[test]
fn unresolved_runtime_directory_is_invalid_usage() {
    let error = match OperatorContext::new("status", Err("no home directory".to_string()), DaemonLaunchOptions::default()) {
        Ok(_) => panic!("an unresolved runtime directory must be refused"),
        Err(error) => error,
    };
    assert_eq!(error.kind, AppExit::InvalidUsage);
    assert_eq!(error.command, "status");
    assert_eq!(error.message, "Could not resolve the Cadder runtime directory: no home directory.");
    assert!(error.guidance.is_none());
}

#[test]
fn response_deadlines_follow_the_operation_class() {
    let deadlines = IpcClientDeadlines::default();
    assert_eq!(deadlines.response_for(Some(DeadlineClass::Reload)), 120);
    assert_eq!(deadlines.response_for(Some(DeadlineClass::Shutdown)), 30);
    assert_eq!(deadlines.response_for(Some(DeadlineClass::Ordinary)), 30);
    assert_eq!(deadlines.response_for(None), 30);
    let client = CadderClient::new(RuntimePaths::from_runtime_dir("r".to_string()));
    assert_eq!(client.deadlines.reload_secs, 120);
}

fn local(code: LocalIpcErrorCode, retryable: bool) -> IpcClientError {
    IpcClientError::Local(LocalIpcError {
        kind: LocalIpcErrorKind::Transport,
        phase: IpcClientPhase::Connect,
        code,
        message: "connect failed".to_string(),
        guidance: None,
        retryable,
        request_id: None,
        operation: Some("query-state".to_string()),
    })
}

fn next(step: StopWaitStep) -> StopWait {
    match step {
        StopWaitStep::PollAgain(wait) => wait,
        other => panic!("expected another poll, got {other:?}"),
    }
}

#[test]
fn daemon_counts_as_stopped_after_three_unanswered_polls_in_a_row() {
    let wait = StopWait::new();
    let wait = next(wait.observe(Err(local(LocalIpcErrorCode::DaemonUnavailable, false))));
    let wait = next(wait.observe(Err(local(LocalIpcErrorCode::DaemonUnavailable, false))));
    assert_eq!(wait.confirmations, 2);
    let wait = next(wait.observe(Ok(())));
    assert_eq!(wait.confirmations, 0);
    assert_eq!(wait.attempts, 3);
    let wait = next(wait.observe(Err(local(LocalIpcErrorCode::TransportConnect, true))));
    let wait = next(wait.observe(Err(local(LocalIpcErrorCode::StaleInstance, false))));
    assert!(matches!(wait.observe(Err(local(LocalIpcErrorCode::DaemonUnavailable, false))), StopWaitStep::Stopped));
}

#[test]
fn stop_wait_fails_on_other_errors_and_times_out() {
    let wait = StopWait::new();
    match wait.observe(Err(local(LocalIpcErrorCode::PermissionDenied, false))) {
        StopWaitStep::Failed(error) => {
            let reported = stop_wait_failure("restart", "/run/cadder", error);
            assert_eq!(reported.command, "restart");
            assert!(reported.local_error.is_some());
        }
        other => panic!("expected a failure, got {other:?}"),
    }
    let mut wait = StopWait::new();
    for _ in 0..DAEMON_STOP_ATTEMPTS - 1 {
        wait = next(wait.observe(Ok(())));
    }
    assert!(matches!(wait.observe(Ok(())), StopWaitStep::TimedOut));
    let timeout = stop_wait_timeout("restart");
    assert_eq!(timeout.kind, AppExit::IpcFailure);
    assert_eq!(timeout.guidance.as_deref(), Some("Check the daemon diagnostics, then retry the restart once."));
}

#[test]
fn rejected_requests_name_their_target() {
    let missing = entrypoint_not_found("projects", "reg-9");
    assert_eq!(missing.kind, AppExit::TargetNotFound);
    assert_eq!(missing.message, "Entrypoint `reg-9` was not found.");
    let rejected = domain_toggle_rejected("domains", "domain is locked".to_string());
    assert_eq!(rejected.kind, AppExit::ConflictOrRejected);
    assert_eq!(rejected.message, "domain is locked");
    let empty = missing_snapshot_error("status");
    assert_eq!(empty.message, "Cadder daemon returned no state snapshot.");
}
