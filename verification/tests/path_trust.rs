use cadder::autostart::Platform;
use cadder::path_trust::{reject_command_script, require_absolute, validate_caddy_executable};

#[test]
fn trusted_caddy_source_requires_absolute_executable_path() {
    let error = validate_caddy_executable("caddy", Platform::Unix).unwrap_err();

    assert!(error.contains("absolute path"));
}

#[test]
fn absolute_unix_paths_pass_the_path_checks() {
    assert_eq!(
        require_absolute("relative/caddy", "Caddy configuration").unwrap_err(),
        "Caddy configuration must use an absolute path"
    );
}

#[test]
fn windows_batch_scripts_are_not_native_executables() {
    assert_eq!(
        reject_command_script("C:\\tools\\caddy.CMD", "Caddy executable", Platform::Windows).unwrap_err(),
        "Caddy executable must be a native executable, not a batch script"
    );
    assert!(reject_command_script("C:\\tools\\caddy.exe", "Caddy executable", Platform::Windows).is_ok());
    assert!(reject_command_script("C:\\tools\\.bat", "Caddy executable", Platform::Windows).is_ok());
    assert!(reject_command_script("/tools/caddy.bat", "Caddy executable", Platform::Unix).is_ok());
}
