use cadder::iis::{
    binding_from_powershell, classify_powershell_error, IisIssueKind, ps_escape, system_add_binding_script, system_remove_binding_script, system_restore_binding_script,
    unsupported_binding_issue, IisBindingRecord, IisTlsCertificate, bindings_from_powershell, powershell_output_is_list,
    powershell_output_text, powershell_parse_failure, RawPowerShellBinding, elevated_batch_script, elevation_command,
    elevated_batch_outcome,
};

fn tls_certificate() -> IisTlsCertificate {
    IisTlsCertificate { thumbprint: "aabbcc".to_string(), store_name: "My".to_string(), ssl_flags: Some(1) }
}

fn with_tls_certificate(binding: IisBindingRecord) -> IisBindingRecord {
    binding.with_tls_certificate(Some(tls_certificate()))
}

#[test]
fn parses_iis_binding_information_from_right() {
    let binding = IisBindingRecord::from_binding_information("Default Web Site", "http", "*:80:App.Localhost").unwrap();

    assert_eq!(binding.ip_address, "*");
    assert_eq!(binding.port, 80);
    assert_eq!(binding.host_header, "App.Localhost");
    assert_eq!(binding.binding_id(), "Default Web Site|http|*:80:App.Localhost");
}

#[test]
fn rejects_unsupported_binding_shapes() {
    let https = IisBindingRecord::from_binding_information("Default Web Site", "https", "*:443:app.localhost").unwrap();
    let ftp = IisBindingRecord::from_binding_information("Default Web Site", "ftp", "*:21:app.localhost").unwrap();
    let high_port = IisBindingRecord::from_binding_information("Default Web Site", "http", "*:8080:app.localhost").unwrap();

    assert!(unsupported_binding_issue(&https).is_none());
    assert!(unsupported_binding_issue(&ftp).unwrap().message.contains("protocol"));
    assert!(unsupported_binding_issue(&high_port).unwrap().message.contains("port 8080"));
}

#[test]
fn rejects_invalid_binding_information() {
    assert!(IisBindingRecord::from_binding_information("Default Web Site", "http", "missing-port")
        .unwrap_err()
        .message()
        .contains("port segment"));
    assert!(IisBindingRecord::from_binding_information("Default Web Site", "http", "*:not-a-port:host")
        .unwrap_err()
        .message()
        .contains("parse IIS binding port"));
}

#[test]
fn backend_http_binding_uses_loopback_ip_and_route_host_for_iis_listener() {
    let binding = IisBindingRecord::from_binding_information("Default Web Site", "https", "*:443:").unwrap();

    let backend = binding.backend_http_binding(41043, "iis-app.localhost");

    assert_eq!(backend.protocol, "http");
    assert_eq!(backend.ip_address, "127.0.0.1");
    assert_eq!(backend.binding_information, "127.0.0.1:41043:iis-app.localhost");
}

#[test]
fn backend_binding_preserves_https_certificate_for_iis_listener() {
    let binding = with_tls_certificate(
        IisBindingRecord::from_binding_information("Default Web Site", "https", "*:443:").unwrap(),
    );

    let backend = binding.backend_binding(41043, "iis-app.localhost").unwrap();

    assert_eq!(backend.protocol, "https");
    assert_eq!(backend.ip_address, "127.0.0.1");
    assert_eq!(backend.binding_information, "127.0.0.1:41043:iis-app.localhost");
    let tls = backend.tls_certificate.unwrap();
    let expected = tls_certificate();
    assert_eq!((tls.thumbprint, tls.store_name, tls.ssl_flags), (expected.thumbprint, expected.store_name, expected.ssl_flags));
}

#[test]
fn windows_system_iis_scripts_escape_binding_and_certificate_metadata() {
    let binding = with_tls_certificate(
        IisBindingRecord::from_binding_information("Bob's Site", "https", "*:443:secure.localhost").unwrap(),
    );

    let remove = system_remove_binding_script(&binding);
    let add = system_add_binding_script(&binding);
    let restore = system_restore_binding_script(&binding);

    assert!(remove.contains("Remove-WebBinding"));
    assert!(remove.contains("Bob''s Site"));
    assert!(add.contains("New-WebBinding"));
    assert!(add.contains("-SslFlags 1"));
    assert!(add.contains("AddSslCertificate('aabbcc', 'My')"));
    assert_eq!(restore, add);
}

#[test]
fn powershell_single_quotes_are_doubled() {
    assert_eq!(ps_escape("it's"), "it''s");
}

#[test]
fn backend_binding_rejects_https_without_certificate_metadata() {
    let binding = IisBindingRecord::from_binding_information("Default Web Site", "https", "*:443:secure.localhost").unwrap();

    let issue = binding.backend_binding(41043, "secure.localhost").unwrap_err();

    assert_eq!(issue.kind, IisIssueKind::MissingTlsCertificate);
    assert!(issue.message.contains("TLS certificate metadata"));
}

#[test]
fn backend_binding_rejects_unsupported_backend_protocol() {
    let binding = IisBindingRecord::from_binding_information("Default Web Site", "ftp", "*:21:app.localhost").unwrap();

    let issue = binding.backend_binding(41021, "app.localhost").unwrap_err();

    assert_eq!(issue.kind, IisIssueKind::UnsupportedBindingShape);
    assert!(issue.message.contains("protocol `ftp`"));
}

#[test]
fn backend_binding_rejects_blank_https_certificate_fields() {
    let binding = IisBindingRecord::from_binding_information("Default Web Site", "https", "*:443:secure.localhost").unwrap();
    let blank_thumbprint = binding
        .clone()
        .with_tls_certificate(Some(IisTlsCertificate { thumbprint: " ".to_string(), store_name: "My".to_string(), ssl_flags: None }))
        .backend_binding(41043, "secure.localhost");
    let blank_store = binding
        .with_tls_certificate(Some(IisTlsCertificate { thumbprint: "aabbcc".to_string(), store_name: " ".to_string(), ssl_flags: None }))
        .backend_binding(41043, "secure.localhost");

    assert_eq!(blank_thumbprint.unwrap_err().kind, IisIssueKind::MissingTlsCertificate);
    assert_eq!(blank_store.unwrap_err().kind, IisIssueKind::MissingTlsCertificate);
}

#[test]
fn parses_powershell_binding_json_shapes() {
    let binding = binding_from_powershell("Default Web Site", "http", "*:80:app.localhost", None, None, None).unwrap();
    assert_eq!(binding.port, 80);
    assert!(binding.tls_certificate.is_none());
    let issue = binding_from_powershell("Default Web Site", "http", "missing-port", None, None, None).unwrap_err();
    assert_eq!(issue.kind, IisIssueKind::UnsupportedBindingShape);
    assert!(issue.message.contains("port segment"));
}

#[test]
fn parses_powershell_binding_tls_metadata() {
    let binding = binding_from_powershell(
        "Default Web Site",
        "https",
        "*:443:secure.localhost",
        Some("aabbcc".to_string()),
        Some("WebHosting".to_string()),
        Some(1),
    )
    .unwrap();
    let tls = binding.tls_certificate.as_ref().unwrap();

    assert_eq!(tls.thumbprint, "aabbcc");
    assert_eq!(tls.store_name, "WebHosting");
    assert_eq!(tls.ssl_flags, Some(1));

    let default_store =
        binding_from_powershell("Site", "https", "*:443:a.localhost", Some("aabbcc".to_string()), Some(" ".to_string()), None).unwrap();
    assert_eq!(default_store.tls_certificate.unwrap().store_name, "My");
    let no_hash = binding_from_powershell("Site", "https", "*:443:a.localhost", Some("  ".to_string()), None, None).unwrap();
    assert!(no_hash.tls_certificate.is_none());
}

#[test]
fn classifies_powershell_errors_and_escapes_strings() {
    assert_eq!(ps_escape("Bob's Site"), "Bob''s Site");
    assert_eq!(classify_powershell_error(b"Access is denied").kind, IisIssueKind::InsufficientPrivileges);
    assert_eq!(
        classify_powershell_error(b"Import-Module WebAdministration failed: podwy\xBFszonymi uprawnieniami").kind,
        IisIssueKind::InsufficientPrivileges
    );
    assert_eq!(classify_powershell_error(b"WebAdministration module missing").kind, IisIssueKind::IisUnavailable);
    assert_eq!(classify_powershell_error(b"unexpected").kind, IisIssueKind::ProviderError);
    assert_eq!(classify_powershell_error(b"  unexpected \n").message, "unexpected");
    assert_eq!(classify_powershell_error(b"").message, "PowerShell IIS command failed.");
}

fn raw(info: &str, hash: Option<&str>) -> RawPowerShellBinding {
    RawPowerShellBinding {
        site_name: "Default Web Site".to_string(),
        protocol: "https".to_string(),
        binding_information: info.to_string(),
        certificate_hash: hash.map(str::to_string),
        certificate_store_name: None,
        ssl_flags: Some(1),
    }
}

#[test]
fn powershell_listings_become_bindings_in_order() {
    let bindings = bindings_from_powershell(vec![raw("*:443:a.localhost", Some("aabbcc")), raw("*:443:b.localhost", None)]).unwrap();
    assert_eq!(bindings.len(), 2);
    assert_eq!(bindings[0].host_header, "a.localhost");
    let tls = bindings[0].tls_certificate.as_ref().unwrap();
    assert_eq!(tls.store_name, "My");
    assert_eq!(tls.ssl_flags, Some(1));
    assert!(bindings[1].tls_certificate.is_none());

    let error = bindings_from_powershell(vec![raw("*:443:a.localhost", None), raw("no-port", None)]).unwrap_err();
    assert_eq!(error.kind, IisIssueKind::UnsupportedBindingShape);
    assert!(bindings_from_powershell(Vec::new()).unwrap().is_empty());
}

#[test]
fn powershell_output_is_read_leniently_and_classified() {
    assert_eq!(powershell_output_text(b"  [1]\r\n"), "[1]");
    assert_eq!(powershell_output_text(b" \xff "), "\u{FFFD}");
    assert!(powershell_output_is_list("[{}]"));
    assert!(!powershell_output_is_list("{}"));
    assert!(!powershell_output_is_list(""));
    let issue = powershell_parse_failure("expected value at line 1");
    assert_eq!(issue.kind, IisIssueKind::ProviderError);
    assert_eq!(issue.message, "Could not parse IIS binding output: expected value at line 1");
}

#[test]
fn restore_summary_keeps_the_binding_shape() {
    let binding = IisBindingRecord::from_binding_information("Default Web Site", "http", "*:80:app.localhost").unwrap();
    let summary = binding.restore_summary();
    assert_eq!(summary.site_name, "Default Web Site");
    assert_eq!(summary.port, 80);
    assert_eq!(summary.host_header, "app.localhost");
    assert_eq!(summary.binding_information, "*:80:app.localhost");
}

#[test]
fn elevated_batch_script_states_reason_and_records_status() {
    let script = elevated_batch_script(
        "add\nbinding",
        "Remove-WebBinding -Name 'Default'",
        "C:\\Temp\\it's.status",
        "C:\\Temp\\x.error",
    );
    let expected = "\n$ErrorActionPreference = 'Stop'\ntry {\n  # Cadder reason: add binding\n  Remove-WebBinding -Name 'Default'\n  Set-Content -LiteralPath 'C:\\Temp\\it''s.status' -Value '0'\n  exit 0\n} catch {\n  Set-Content -LiteralPath 'C:\\Temp\\x.error' -Value $_.Exception.Message\n  Set-Content -LiteralPath 'C:\\Temp\\it''s.status' -Value '1'\n  exit 1\n}\n";
    assert_eq!(script, expected);
}

#[test]
fn elevation_command_runs_the_script_file_elevated() {
    assert_eq!(
        elevation_command("C:\\Temp\\o'k.ps1"),
        "$ErrorActionPreference = 'Stop'; $p = Start-Process -FilePath 'powershell' -Verb RunAs -Wait -PassThru -ArgumentList @('-NoProfile','-ExecutionPolicy','Bypass','-File','C:\\Temp\\o''k.ps1'); exit $p.ExitCode"
    );
}

#[test]
fn elevated_batch_outcome_success_and_failures() {
    assert!(elevated_batch_outcome(true, Some("ignored".to_string()), b"x", b"y").is_ok());

    let denied = elevated_batch_outcome(false, Some("The operation was CANCELED by the user.".to_string()), b"", b"")
        .unwrap_err();
    assert_eq!(denied.kind, IisIssueKind::ElevationDenied);
    assert_eq!(denied.message, "Administrator approval was denied.");

    let empty = elevated_batch_outcome(false, Some("   ".to_string()), b"  ", b"\n").unwrap_err();
    assert_eq!(empty.kind, IisIssueKind::ProviderError);
    assert_eq!(empty.message, "Elevated IIS mutation failed without diagnostic output.");

    let joined = elevated_batch_outcome(false, None, b" first failure ", b" second ").unwrap_err();
    assert_eq!(joined.kind, IisIssueKind::ProviderError);
    assert_eq!(joined.message, "first failure\nsecond");

    let recorded = elevated_batch_outcome(false, Some("Access is denied.".to_string()), b"other", b"").unwrap_err();
    assert_eq!(recorded.kind, IisIssueKind::InsufficientPrivileges);

    let from_stdout = elevated_batch_outcome(false, None, b"", b"Operation canceled").unwrap_err();
    assert_eq!(from_stdout.kind, IisIssueKind::ElevationDenied);
}
