use cadder::caddy_image::{unix_image_file_check, windows_image_attributes_check};
use cadder::caddy_image::{check_reverified_image, check_same_image, CaddyFileIdentity, ImageEvidence};
use cadder::caddy_image::{required_caddy_modules, validate_compatibility_metadata, CaddyImageSource, CaddyVersion, CADDY_COMPATIBILITY_PROBE_REVISION};

fn version(major: u64, minor: u64, patch: u64, pre: &str) -> CaddyVersion {
    CaddyVersion { major, minor, patch, pre: pre.to_string(), build: String::new() }
}

#[test]
fn pinned_caddy_image_required_module_inventory_matches_the_release_contract() {
    assert_eq!(
        required_caddy_modules().into_iter().collect::<Vec<_>>(),
        vec![
            "http",
            "http.encoders.gzip",
            "http.encoders.zstd",
            "http.handlers.encode",
            "http.handlers.file_server",
            "http.handlers.headers",
            "http.handlers.reverse_proxy",
            "http.handlers.rewrite",
            "http.handlers.static_response",
            "http.handlers.subroute",
            "http.matchers.header",
            "http.matchers.host",
            "http.matchers.method",
            "http.matchers.path",
            "http.matchers.query",
            "http.reverse_proxy.transport.http",
            "pki",
            "tls",
            "tls.issuance.internal",
        ]
    );
}

#[test]
fn pinned_caddy_image_rejects_unsupported_version_and_missing_modules() {
    let modules = required_caddy_modules();
    let version_error =
        validate_compatibility_metadata(&version(2, 10, 0, ""), &modules, CADDY_COMPATIBILITY_PROBE_REVISION).unwrap_err();
    let module_error =
        validate_compatibility_metadata(&version(2, 11, 3, ""), &Vec::new(), CADDY_COMPATIBILITY_PROBE_REVISION).unwrap_err();
    let probe_error = validate_compatibility_metadata(&version(2, 11, 3, ""), &modules, "stale-probe").unwrap_err();

    assert!(version_error.contains("unsupported Caddy version"));
    assert!(module_error.contains("missing required modules"));
    assert!(probe_error.contains("probe revision changed"));
}

#[test]
fn compatibility_messages_are_exact() {
    let modules = required_caddy_modules();
    assert_eq!(
        validate_compatibility_metadata(&version(3, 0, 0, ""), &modules, CADDY_COMPATIBILITY_PROBE_REVISION).unwrap_err(),
        "unsupported Caddy version 3.0.0; Cadder requires >=2.11.3, <3.0.0"
    );
    assert_eq!(
        validate_compatibility_metadata(&version(2, 11, 3, "beta.1"), &modules, CADDY_COMPATIBILITY_PROBE_REVISION).unwrap_err(),
        "unsupported Caddy version 2.11.3-beta.1; Cadder requires >=2.11.3, <3.0.0"
    );
    let partial: Vec<String> = modules.iter().filter(|m| m.as_str() != "pki" && m.as_str() != "tls").cloned().collect();
    assert_eq!(
        validate_compatibility_metadata(&version(2, 12, 0, ""), &partial, CADDY_COMPATIBILITY_PROBE_REVISION).unwrap_err(),
        "Caddy is missing required modules: pki, tls"
    );
    assert!(validate_compatibility_metadata(&version(2, 11, 4, ""), &modules, CADDY_COMPATIBILITY_PROBE_REVISION).is_ok());
    assert_eq!(CaddyImageSource::Path.description(), "PATH");
}

#[test]
fn image_file_checks_require_an_executable_linked_regular_file() {
    assert!(unix_image_file_check(true, 0o755, 1).is_ok());
    assert_eq!(unix_image_file_check(false, 0o755, 1).unwrap_err(), "pinned Caddy image is not a regular file");
    assert_eq!(unix_image_file_check(true, 0o644, 1).unwrap_err(), "pinned Caddy image is not executable");
    assert_eq!(unix_image_file_check(true, 0o700, 0).unwrap_err(), "pinned Caddy image has no filesystem links");
    assert!(windows_image_attributes_check(0x20).is_ok());
    assert_eq!(windows_image_attributes_check(0x10).unwrap_err(), "pinned Caddy image is not a regular file");
    assert_eq!(windows_image_attributes_check(0x420).unwrap_err(), "pinned Caddy image is a Windows reparse point");
}

#[test]
fn pinned_image_must_keep_its_path_identity_and_digest() {
    let pinned = ImageEvidence {
        canonical_path: "/usr/bin/caddy".to_string(),
        identity: CaddyFileIdentity::Unix { device: 1, inode: 42 },
        digest: vec![1, 2, 3],
    };
    let same = CaddyFileIdentity::Unix { device: 1, inode: 42 };
    assert!(check_same_image(&pinned, same, &vec![1, 2, 3]).is_ok());
    assert_eq!(
        check_same_image(&pinned, CaddyFileIdentity::Unix { device: 1, inode: 43 }, &vec![1, 2, 3]).unwrap_err(),
        "pinned Caddy file identity changed at /usr/bin/caddy"
    );
    assert_eq!(
        check_same_image(&pinned, same, &vec![1, 2, 4]).unwrap_err(),
        "pinned Caddy digest changed at /usr/bin/caddy"
    );
    assert_eq!(
        check_reverified_image(&pinned, "/opt/caddy", same, &vec![1, 2, 3]).unwrap_err(),
        "pinned Caddy canonical path changed from /usr/bin/caddy to /opt/caddy"
    );
    assert!(check_reverified_image(&pinned, "/usr/bin/caddy", same, &vec![1, 2, 3]).is_ok());
}
