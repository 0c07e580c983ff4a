use cadder::app_state::{refresh_failure, refresh_without_snapshot};
use cadder::ipc_errors::{IpcClientError, IpcClientPhase, LocalIpcError, LocalIpcErrorCode, LocalIpcErrorKind};
use cadder::app_state::{mutation_request, MutationRequest};
use cadder::data_model::{EntityId, MutationTarget};
use cadder::app_state::{
    handle_key, loop_step, ActionFailure, App, ConnectionStatus, EffectResult, Key, LifecycleAction, LoopEvent,
    RefreshOutcome, RuntimeStatus, UiAction,
};
use cadder::data_model::{Snapshot, SnapshotDomain, SnapshotEntrypoint};
use cadder::reports::CaddyRuntimeStatus;
use cadder::logs::LogLine;

fn empty_snapshot() -> RefreshOutcome {
    RefreshOutcome::Connected {
        snapshot: Snapshot { registrations: Vec::new() },
        caddy_status: CaddyRuntimeStatus::Idle,
        emphasis_defaults: Vec::new(),
        logs: Ok(Vec::new()),
    }
}

fn connected_app() -> App {
    let mut app = App::new();
    app.apply_refresh(empty_snapshot());
    app
}

fn registration() -> SnapshotEntrypoint {
    SnapshotEntrypoint {
        registration_id: "entry-1".to_string(),
        working_directory: "workspace/project-1".to_string(),
        enabled: true,
        domains: Vec::new(),
    }
}

fn offline() -> RefreshOutcome {
    RefreshOutcome::Unavailable {
        connection: ConnectionStatus::Offline,
        message: "Cadder is not running.".to_string(),
        guidance: None,
    }
}

#[test]
fn runtime_status_reports_daemon_and_caddy_independently() {
    let running = RuntimeStatus { connection: ConnectionStatus::Connected, caddy_status: CaddyRuntimeStatus::Running };
    assert!(running.daemon_is_running());
    assert!(running.caddy_is_running());
    assert!(!running.daemon_is_offline());

    let offline = RuntimeStatus { connection: ConnectionStatus::Offline, caddy_status: CaddyRuntimeStatus::Unknown };
    assert!(!offline.daemon_is_running());
    assert!(!offline.caddy_is_running());
    assert!(offline.daemon_is_offline());
}

#[test]
fn offline_state_exposes_start_without_a_separate_status_view() {
    let mut app = App::new();
    app.apply_refresh(RefreshOutcome::Unavailable {
        connection: ConnectionStatus::Offline,
        message: "Cadder is not running.".to_string(),
        guidance: Some("Run `cadder tui --start-daemon`.".to_string()),
    });

    assert!(app.can_start_daemon());
    assert!(app.notice().is_none());
    assert!(app.prepare_start_daemon());
    assert!(app.is_pending());
}

#[test]
fn daemon_start_animates_without_repeating_failures_above_shortcuts() {
    let mut app = App::new();
    app.apply_refresh(offline());

    assert!(app.prepare_start_daemon());
    assert_eq!(app.pending_marker(), Some("⠋"));
    assert_eq!(app.notice().as_deref(), Some("Starting cadderd..."));
    app.advance_pending_animation();
    assert_eq!(app.pending_marker(), Some("⠙"));

    assert!(!app.complete_daemon_start(Err(ActionFailure {
        message: "Could not start cadderd.".to_string(),
        guidance: Some("Check the daemon status, then retry.".to_string()),
    })));
    assert!(app.pending_marker().is_none());
    assert_eq!(app.notice().as_deref(), Some("Could not start cadderd."));
}

#[test]
fn lifecycle_confirmation_stays_inline_and_explicit() {
    let mut app = connected_app();
    app.prepare_lifecycle(LifecycleAction::Restart);

    assert_eq!(app.confirmation(), Some(LifecycleAction::Restart));
    assert!(app.notice().unwrap().contains("Enter confirm"));
    app.cancel_confirmation();
    assert_eq!(app.confirmation(), None);

    app.prepare_lifecycle(LifecycleAction::Stop);
    assert_eq!(app.confirm_lifecycle(), Some(LifecycleAction::Stop));
    assert!(app.is_pending());
}

#[test]
fn action_failures_use_the_inline_notice() {
    let mut app = connected_app();
    assert!(!app.complete_mutation(Err(ActionFailure {
        message: "Mutation failed.".to_string(),
        guidance: Some("Refresh and retry.".to_string()),
    })));
    assert_eq!(app.notice().as_deref(), Some("Mutation failed.  Refresh and retry."));

    assert!(app.complete_mutation(Ok(())));
    assert!(app.notice().is_none());
    app.quit();
    assert!(app.should_quit());
}

#[test]
fn keys_cover_navigation_refresh_start_lifecycle_and_quit() {
    let mut app = App::new();

    assert!(matches!(handle_key(&mut app, Key::Char('r'), false), Some(UiAction::Refresh)));
    handle_key(&mut app, Key::Up, false);
    handle_key(&mut app, Key::Down, false);

    app.apply_refresh(offline());
    assert!(matches!(handle_key(&mut app, Key::Enter, false), Some(UiAction::StartDaemon)));

    let mut toggle = App::new();
    toggle.apply_refresh(RefreshOutcome::Connected {
        snapshot: Snapshot { registrations: vec![registration()] },
        caddy_status: CaddyRuntimeStatus::Idle,
        emphasis_defaults: vec![10],
        logs: Ok(Vec::new()),
    });
    assert!(handle_key(&mut toggle, Key::Char(' '), false).is_none());
    assert!(!toggle.is_pending());
    assert!(matches!(handle_key(&mut toggle, Key::Enter, false), Some(UiAction::Mutate(_))));

    let mut connected = connected_app();
    handle_key(&mut connected, Key::Char('x'), false);
    assert!(connected.confirmation().is_some());
    assert!(matches!(handle_key(&mut connected, Key::Enter, false), Some(UiAction::StopDaemon)));

    let mut quitting = App::new();
    assert!(handle_key(&mut quitting, Key::Other, false).is_none());
    assert!(!quitting.should_quit());
    handle_key(&mut quitting, Key::Char('q'), false);
    assert!(quitting.should_quit());
}

#[test]
fn force_quit_and_escape_close_the_interface() {
    let mut app = App::new();
    handle_key(&mut app, Key::Char('x'), true);
    assert!(app.should_quit());

    let mut app = connected_app();
    handle_key(&mut app, Key::Esc, false);
    assert!(app.should_quit());

    let mut app = connected_app();
    app.prepare_lifecycle(LifecycleAction::Stop);
    handle_key(&mut app, Key::Esc, false);
    assert!(!app.should_quit());
    assert_eq!(app.confirmation(), None);
}

#[test]
fn selection_moves_within_the_rows() {
    let mut app = App::new();
    let mut second = registration();
    second.registration_id = "entry-2".to_string();
    second.working_directory = "workspace/project-2".to_string();
    second.domains.push(SnapshotDomain {
        domain: "app.localhost".to_string(),
        canonical_domain: "app.localhost".to_string(),
        enabled: true,
        upstream: Some("localhost:3000".to_string()),
    });
    app.apply_refresh(RefreshOutcome::Connected {
        snapshot: Snapshot { registrations: vec![registration(), second] },
        caddy_status: CaddyRuntimeStatus::Running,
        emphasis_defaults: vec![10, 10],
        logs: Ok(Vec::new()),
    });
    assert_eq!(app.domain_rows().len(), 3);
    assert_eq!(app.selected(), Some(0));
    app.select_previous();
    assert_eq!(app.selected(), Some(0));
    app.select_next();
    app.select_next();
    app.select_next();
    assert_eq!(app.selected(), Some(2));

    app.apply_refresh(offline());
    assert_eq!(app.selected(), None);
    assert_eq!(app.connection_text().0, "Cadder is not running.");
}

#[test]
fn a_failed_start_keeps_its_message_until_a_snapshot_arrives() {
    let mut app = App::new();
    app.apply_refresh(offline());
    assert!(app.prepare_start_daemon());
    assert!(!app.complete_daemon_start(Err(ActionFailure {
        message: "Could not start cadderd.".to_string(),
        guidance: None,
    })));
    app.apply_refresh(RefreshOutcome::Unavailable {
        connection: ConnectionStatus::Error,
        message: "other".to_string(),
        guidance: None,
    });
    assert_eq!(app.connection_text().0, "Could not start cadderd.");
    assert_eq!(app.runtime_status().connection, ConnectionStatus::Offline);
    app.apply_refresh(empty_snapshot());
    assert_eq!(app.connection_text().0, "Connected");
}

#[test]
fn the_event_loop_refreshes_after_successful_actions_only() {
    let mut app = connected_app();
    let step = loop_step(&mut app, false, LoopEvent::Tick);
    assert!(step.refresh_in_flight);
    assert!(matches!(step.effect, Some(UiAction::Refresh)));

    let step = loop_step(&mut app, true, LoopEvent::Tick);
    assert!(step.refresh_in_flight && step.effect.is_none());

    let step = loop_step(&mut app, false, LoopEvent::Finished(EffectResult::Mutation(Ok(()))));
    assert!(step.refresh_in_flight);
    assert!(matches!(step.effect, Some(UiAction::Refresh)));

    let step = loop_step(
        &mut app,
        false,
        LoopEvent::Finished(EffectResult::Lifecycle(Err(ActionFailure { message: "No.".to_string(), guidance: None }))),
    );
    assert!(!step.refresh_in_flight && step.effect.is_none());
    assert_eq!(app.notice().as_deref(), Some("No."));

    let step = loop_step(&mut app, true, LoopEvent::Finished(EffectResult::Refresh(empty_snapshot())));
    assert!(!step.refresh_in_flight && step.effect.is_none());

    let step = loop_step(&mut app, false, LoopEvent::Key(Key::Char('r'), false));
    assert!(step.refresh_in_flight);

    let step = loop_step(&mut app, false, LoopEvent::InputClosed);
    assert!(!step.refresh_in_flight && step.effect.is_none());
    assert!(app.should_quit());
}

#[test]
fn refresh_failures_distinguish_offline_from_connection_errors() {
    let local = |code: LocalIpcErrorCode| {
        IpcClientError::Local(LocalIpcError {
            kind: LocalIpcErrorKind::Transport,
            phase: IpcClientPhase::Connect,
            code,
            message: "connect failed".to_string(),
            guidance: None,
            retryable: false,
            request_id: None,
            operation: None,
        })
    };
    match refresh_failure("/run/cadder", &local(LocalIpcErrorCode::DaemonUnavailable)) {
        RefreshOutcome::Unavailable { connection, message, guidance } => {
            assert_eq!(connection, ConnectionStatus::Offline);
            assert_eq!(message, "Cadder is not running.");
            assert!(guidance.is_some());
        }
        _ => panic!("expected an unavailable outcome"),
    }
    match refresh_failure("/run/cadder", &local(LocalIpcErrorCode::TransportRead)) {
        RefreshOutcome::Unavailable { connection, message, .. } => {
            assert_eq!(connection, ConnectionStatus::Error);
            assert_eq!(message, "Could not connect to Cadder: connect failed.");
        }
        _ => panic!("expected an unavailable outcome"),
    }
    match refresh_without_snapshot() {
        RefreshOutcome::Unavailable { connection, message, guidance } => {
            assert_eq!(connection, ConnectionStatus::Error);
            assert_eq!(message, "Cadder daemon returned no state snapshot.");
            assert!(guidance.is_none());
        }
        _ => panic!("expected an unavailable outcome"),
    }
}

#[test]
fn toggles_request_the_entity_they_name() {
    let entry = mutation_request(MutationTarget { entity: EntityId::Entrypoint("reg-1".to_string()), enabled: false });
    assert_eq!(entry, MutationRequest::Entrypoint { registration_id: "reg-1".to_string(), enabled: false });
    let domain = mutation_request(MutationTarget {
        entity: EntityId::Domain { registration_id: "reg-1".to_string(), canonical_domain: "app.localhost".to_string() },
        enabled: true,
    });
    match domain {
        MutationRequest::Domain { selector, enabled } => {
            assert!(enabled);
            assert_eq!(selector.domain, "app.localhost");
            assert_eq!(selector.registration.as_deref(), Some("reg-1"));
        }
        _ => panic!("expected a domain request"),
    }
}

#[test]
fn logs_pane_toggles_and_scrolls_within_its_lines() {
    let mut app = App::new();
    assert!(!app.logs_open());
    assert_eq!(app.log_lines(), &["Logs will appear here when Cadder is running.".to_string()][..]);
    assert!(app.toggle_logs());
    assert!(app.logs_open());
    app.set_logs_viewport(0);
    assert_eq!(app.log_scroll(), 0);
    app.scroll_logs_up(5);
    assert_eq!(app.log_scroll(), 0);
    app.scroll_logs_down(5);
    assert_eq!(app.log_scroll(), 0);
    assert!(!app.toggle_logs());
    assert!(!app.logs_open());
}

#[test]
fn refresh_shows_the_followed_logs_or_their_failure() {
    let mut app = App::new();
    app.apply_refresh(RefreshOutcome::Connected {
        snapshot: Snapshot { registrations: Vec::new() },
        caddy_status: CaddyRuntimeStatus::Idle,
        emphasis_defaults: Vec::new(),
        logs: Ok(vec![LogLine {
            timestamp: "2024-01-01T00:00:00+00:00".to_string(),
            severity: "Info".to_string(),
            message: "caddy started".to_string(),
        }]),
    });
    assert_eq!(app.log_lines(), &["2024-01-01T00:00:00+00:00 [Info] caddy started".to_string()][..]);

    app.apply_refresh(RefreshOutcome::Connected {
        snapshot: Snapshot { registrations: Vec::new() },
        caddy_status: CaddyRuntimeStatus::Idle,
        emphasis_defaults: Vec::new(),
        logs: Ok(Vec::new()),
    });
    assert_eq!(app.log_lines(), &["No log entries available.".to_string()][..]);

    app.apply_refresh(RefreshOutcome::Connected {
        snapshot: Snapshot { registrations: Vec::new() },
        caddy_status: CaddyRuntimeStatus::Idle,
        emphasis_defaults: Vec::new(),
        logs: Err("logs unavailable\ntry again".to_string()),
    });
    assert_eq!(app.log_lines(), &["logs unavailable".to_string(), "try again".to_string()][..]);
}
