use cadder::launch::choose_daemon_executable;
use cadder::launch::{launch_plan, DaemonLaunchOptions};
use cadder::ipc_errors::{IoErrorClass, IpcClientError, LocalIpcErrorCode};
use cadder::launch::{
    daemon_launch_arguments, exe_name, launch_code_for_io, CaddyBackendMode, DaemonLaunchMode,
    DaemonProcessConfig, DaemonStdioMode, BACKGROUND_DAEMON_CREATION_FLAGS, CREATE_NO_WINDOW,
};
use cadder::autostart::Platform;

const CREATE_NEW_PROCESS_GROUP: u32 = 0x0000_0200;
const DETACHED_PROCESS: u32 = 0x0000_0008;

#[test]
fn background_daemon_flags_request_no_window_without_detaching() {
    assert_ne!(BACKGROUND_DAEMON_CREATION_FLAGS & CREATE_NO_WINDOW, 0);
    assert_eq!(BACKGROUND_DAEMON_CREATION_FLAGS & CREATE_NEW_PROCESS_GROUP, 0);
    assert_eq!(BACKGROUND_DAEMON_CREATION_FLAGS & DETACHED_PROCESS, 0);
}

#[test]
fn launch_modes_configure_streams_and_sessions() {
    let background = DaemonProcessConfig::for_launch_mode(DaemonLaunchMode::Background);
    assert_eq!(background.stdio, DaemonStdioMode::Null);
    assert_eq!(background.creation_flags, CREATE_NO_WINDOW);
    assert!(background.starts_new_session);

    let foreground = DaemonProcessConfig::for_launch_mode(DaemonLaunchMode::ForegroundDiagnostic);
    assert_eq!(foreground.stdio, DaemonStdioMode::Inherit);
    assert_eq!(foreground.creation_flags, 0);
    assert!(!foreground.starts_new_session);
}

#[test]
fn backend_names_parse_case_insensitively() {
    assert_eq!(CaddyBackendMode::parse(" Mock ").unwrap(), CaddyBackendMode::Mock);
    assert_eq!(CaddyBackendMode::parse("dev").unwrap(), CaddyBackendMode::Mock);
    assert_eq!(CaddyBackendMode::parse("").unwrap(), CaddyBackendMode::Real);
    assert_eq!(CaddyBackendMode::parse("DEFAULT").unwrap(), CaddyBackendMode::Real);
    assert_eq!(
        CaddyBackendMode::parse_cli(" Other ").unwrap_err(),
        "unknown Cadder Caddy backend `other`; expected `real` or `mock`"
    );
    assert_eq!(CaddyBackendMode::from_env_value(None).unwrap(), CaddyBackendMode::Real);
    assert_eq!(CaddyBackendMode::Mock.as_str(), "mock");
}

#[test]
fn launch_arguments_follow_the_backend_and_override() {
    assert_eq!(
        daemon_launch_arguments(Some("/opt/caddy".to_string()), CaddyBackendMode::Real).unwrap(),
        vec!["--detach-ready", "--real-caddy", "/opt/caddy"]
    );
    assert_eq!(
        daemon_launch_arguments(None, CaddyBackendMode::Mock).unwrap(),
        vec!["--detach-ready", "--caddy-backend", "mock"]
    );
    match daemon_launch_arguments(Some("/opt/caddy".to_string()), CaddyBackendMode::Mock) {
        Err(IpcClientError::Local(error)) => {
            assert_eq!(error.code, LocalIpcErrorCode::InvalidInput);
            assert_eq!(error.operation.as_deref(), Some("start-daemon"));
        }
        other => panic!("unexpected {other:?}"),
    }
}

#[test]
fn spawn_failures_keep_permission_denials() {
    assert_eq!(launch_code_for_io(IoErrorClass::PermissionDenied), LocalIpcErrorCode::PermissionDenied);
    assert_eq!(launch_code_for_io(IoErrorClass::NotFound), LocalIpcErrorCode::DaemonStartFailed);
    assert_eq!(exe_name("cadderd", Platform::Windows), "cadderd.exe");
    assert_eq!(exe_name("cadderd", Platform::Unix), "cadderd");
}

#[test]
fn daemon_executable_prefers_explicit_then_sibling_then_path() {
    let some = |s: &str| Some(s.to_string());
    assert_eq!(choose_daemon_executable(some("/x/cadderd"), some("/y/cadderd"), some("/z/cadderd")).unwrap(), "/x/cadderd");
    assert_eq!(choose_daemon_executable(None, some("/y/cadderd"), some("/z/cadderd")).unwrap(), "/y/cadderd");
    assert_eq!(choose_daemon_executable(None, None, some("/z/cadderd")).unwrap(), "/z/cadderd");
    match choose_daemon_executable(None, None, None).unwrap_err() {
        IpcClientError::Local(error) => assert_eq!(error.code, LocalIpcErrorCode::DaemonNotFound),
        other => panic!("expected a local error, got {other:?}"),
    }
}

#[test]
fn launch_plan_chooses_backend_and_rejects_conflicts() {
    let options = DaemonLaunchOptions { real_caddy_override: Some("/opt/caddy".to_string()), ..DaemonLaunchOptions::default() };
    let (config, args) = launch_plan(&options, None).unwrap();
    assert_eq!(config, DaemonProcessConfig::for_launch_mode(DaemonLaunchMode::Background));
    assert!(args.contains(&"/opt/caddy".to_string()));

    let mock = DaemonLaunchOptions { caddy_backend: Some(CaddyBackendMode::Mock), ..options.clone() };
    assert!(launch_plan(&mock, None).is_err());
    assert!(launch_plan(&DaemonLaunchOptions::default(), Some("bogus")).is_err());
    let (_, env_args) = launch_plan(&DaemonLaunchOptions::default(), Some("mock")).unwrap();
    assert_eq!(env_args, daemon_launch_arguments(None, CaddyBackendMode::Mock).unwrap());
}
