use cadder::autostart::{
    autostart_config_dir, autostart_disabled, autostart_enabled, autostart_unsupported, macos_autostart,
    macos_daemon_plist, windows_autostart,
};
use cadder::autostart::{
    config_dir_unavailable, linux_enablement_state, query_linux_autostart, systemd_user_service, AutostartManager,
    AutostartMode, AutostartStatus, AutostartView, EnablementObservation, LinuxAutostartPaths, Platform,
};

fn diagnostic_codes(view: &AutostartView) -> Vec<&str> {
    view.diagnostics.iter().map(|diagnostic| diagnostic.code.as_str()).collect()
}

fn linux_manager() -> AutostartManager {
    AutostartManager::new(Some("/opt/cadder/bin/cadderd".to_string()), Platform::Unix)
}

#[test]
fn systemd_unit_contains_daemon_command() {
    let unit = systemd_user_service("\"/bin/cadderd\"");

    assert!(unit.contains("ExecStart=\"/bin/cadderd\""));
    assert!(unit.contains("Restart=on-failure"));
}

#[test]
fn missing_targets_report_not_found_before_platform_write() {
    let manager = AutostartManager::disabled(Platform::Unix);

    assert!(manager.daemon_command().is_err());
}

#[test]
fn command_targets_include_portable_daemon_executable() {
    for (platform, expected_daemon) in [
        (Platform::Windows, "\"D:/bin/cadderd.exe\" --background"),
        (Platform::Unix, "\"D:/bin/cadderd.exe\""),
    ] {
        let manager = AutostartManager::new(Some("D:/bin/cadderd.exe".to_string()), platform);

        assert_eq!(manager.daemon_command().unwrap(), expected_daemon);
        assert_eq!(manager.target_for_mode(AutostartMode::Daemon).as_deref(), Some(expected_daemon));
        assert_eq!(manager.target_for_mode(AutostartMode::Disabled), None);
    }
}

#[test]
fn daemon_command_quotes_the_path_and_adds_the_windows_background_flag() {
    let windows = AutostartManager::new(Some("C:\\Cadder\\cadderd.exe".to_string()), Platform::Windows);
    assert_eq!(windows.daemon_command().unwrap(), "\"C:\\Cadder\\cadderd.exe\" --background");

    let unix = AutostartManager::new(Some("/usr/bin/cadderd".to_string()), Platform::Unix);
    assert_eq!(unix.daemon_command().unwrap(), "\"/usr/bin/cadderd\"");
    assert_eq!(unix.target_for_mode(AutostartMode::Disabled), None);
    assert_eq!(unix.target_for_mode(AutostartMode::Daemon), Some("\"/usr/bin/cadderd\"".to_string()));
}

#[test]
fn linux_query_reports_unavailable_config_dir_as_unsupported() {
    let view = config_dir_unavailable("could not resolve config directory");

    assert_eq!(view.mode, AutostartMode::Disabled);
    assert_eq!(view.status, AutostartStatus::Unsupported);
    assert_eq!(diagnostic_codes(&view), vec!["autostart-config-dir-unavailable"]);
}

#[test]
fn linux_query_reports_generated_unit_without_enablement_as_misconfigured() {
    let manager = linux_manager();
    let paths = LinuxAutostartPaths::from_config_dir("/home/user/.config");
    let enablement = linux_enablement_state(&paths, &EnablementObservation::Missing);

    let view = query_linux_autostart(&manager, true, enablement);

    assert_eq!(view.mode, AutostartMode::Daemon);
    assert_eq!(view.status, AutostartStatus::Misconfigured);
    assert_eq!(diagnostic_codes(&view), vec!["autostart-daemon-not-enabled"]);
}

#[test]
fn linux_query_reports_stale_enablement_link_as_misconfigured() {
    let manager = linux_manager();
    let paths = LinuxAutostartPaths::from_config_dir("/home/user/.config");
    let enablement = linux_enablement_state(&paths, &EnablementObservation::Link("../other.service".to_string()));

    let view = query_linux_autostart(&manager, true, enablement);

    assert_eq!(view.mode, AutostartMode::Daemon);
    assert_eq!(view.status, AutostartStatus::Misconfigured);
    assert_eq!(diagnostic_codes(&view), vec!["autostart-daemon-enablement-stale"]);
}

#[test]
fn linux_query_accepts_absolute_enablement_link_to_generated_unit() {
    let manager = linux_manager();
    let paths = LinuxAutostartPaths::from_config_dir("/home/user/.config");
    let enablement = linux_enablement_state(&paths, &EnablementObservation::Link(paths.daemon_service.clone()));

    let view = query_linux_autostart(&manager, true, enablement);

    assert_eq!(view.mode, AutostartMode::Daemon);
    assert_eq!(view.status, AutostartStatus::Enabled);
    assert!(view.diagnostics.is_empty());
    assert_eq!(view.target.as_deref(), Some("\"/opt/cadder/bin/cadderd\""));
}

#[test]
fn linux_query_without_unit_or_link_is_disabled() {
    let manager = linux_manager();
    let paths = LinuxAutostartPaths::from_config_dir("/home/user/.config");
    let view = query_linux_autostart(&manager, false, linux_enablement_state(&paths, &EnablementObservation::Missing));
    assert_eq!(view.mode, AutostartMode::Disabled);
    assert_eq!(view.status, AutostartStatus::Disabled);
    assert_eq!(paths.daemon_enablement_link, "/home/user/.config/systemd/user/default.target.wants/cadderd.service");
}

#[test]
fn platform_reports_follow_what_the_host_shows() {
    let manager = AutostartManager::new(Some("C:/Cadder/cadderd.exe".to_string()), Platform::Windows);
    let on = windows_autostart(&manager, true);
    assert_eq!(on.status, AutostartStatus::Enabled);
    assert_eq!(on.target.as_deref(), Some("\"C:/Cadder/cadderd.exe\" --background"));
    assert_eq!(windows_autostart(&manager, false).mode, AutostartMode::Disabled);

    let missing = autostart_enabled(&AutostartManager::disabled(Platform::Unix), AutostartMode::Daemon);
    assert_eq!(missing.status, AutostartStatus::Misconfigured);
    assert_eq!(missing.diagnostics[0].code, "autostart-target-missing");

    let mac = AutostartManager::new(Some("/Applications/cadderd".to_string()), Platform::Unix);
    assert_eq!(macos_autostart(&mac, true).status, AutostartStatus::Enabled);
    assert_eq!(macos_autostart(&mac, false).status, AutostartStatus::Disabled);
    assert_eq!(macos_daemon_plist("/Users/me"), "/Users/me/Library/LaunchAgents/dev.cadder.daemon.plist");

    assert_eq!(autostart_disabled().status, AutostartStatus::Disabled);
    assert_eq!(autostart_unsupported().diagnostics[0].code, "autostart-unsupported");
    assert_eq!(autostart_config_dir(Some("/o".to_string()), Some("/u".to_string())).unwrap(), "/o");
    assert_eq!(autostart_config_dir(None, Some("/u".to_string())).unwrap(), "/u");
    assert_eq!(autostart_config_dir(None, None).unwrap_err(), "could not resolve config directory");
}
