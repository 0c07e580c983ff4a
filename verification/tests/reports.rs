use cadder::caddy_config::{ActivationState, ConfigDiagnostic, DomainName, EntrypointRegistration, RegisteredDomain};
use cadder::caddy_coordinator::ConfigApplyStatus;
use cadder::inspection::{routes_for_domain, routes_for_port, ComparablePaths, IpAddress, PortOwner, SocketProtocol};
use cadder::reports::{
    activation_label, caddyfile_report, diagnostics_report, domain_report, domains_report, effective_state, logs_report,
    port_report, projects_report, status_report, CaddyRuntimeStatus, DiagnosticsView, LogRow, LogsView, ReportBlock,
};
use cadder::storage::{LogStreamStatus, RuntimeDiagnostic};

fn registration(id: &str, project: &str, state: ActivationState, domains: &[(&str, ActivationState, Option<&str>)]) -> EntrypointRegistration {
    EntrypointRegistration {
        registration_id: id.to_string(),
        source_working_directory: project.to_string(),
        source_config_path: "Caddyfile".to_string(),
        registered_domains: domains
            .iter()
            .map(|(name, state, upstream)| RegisteredDomain {
                name: DomainName { raw: name.to_string(), canonical: name.to_string() },
                activation_state: *state,
                upstream: upstream.map(str::to_string),
            })
            .collect(),
        activation_state: state,
    }
}

fn populated() -> Vec<EntrypointRegistration> {
    vec![
        registration(
            "entry-b",
            "/workspace/project-b",
            ActivationState::Active,
            &[
                ("active.localhost", ActivationState::Active, Some("127.0.0.1:3000")),
                ("inactive.localhost", ActivationState::Inactive, Some("localhost:4000")),
                ("pending.localhost", ActivationState::Registered, None),
            ],
        ),
        registration(
            "entry-a",
            "/workspace/project-a",
            ActivationState::Faulted,
            &[("faulted.localhost", ActivationState::Active, Some("api.example.com:443"))],
        ),
    ]
}

fn caddyfiles(regs: &[EntrypointRegistration]) -> Vec<String> {
    regs.iter().map(|r| format!("{}/Caddyfile", r.source_working_directory)).collect()
}

fn line(block: &ReportBlock) -> &str {
    match block {
        ReportBlock::Line(text) => text,
        ReportBlock::Table { .. } => panic!("expected a line"),
    }
}

fn rows(block: &ReportBlock) -> &Vec<Vec<String>> {
    match block {
        ReportBlock::Table { rows, .. } => rows,
        ReportBlock::Line(text) => panic!("expected a table, found {text}"),
    }
}

fn owner(protocol: SocketProtocol, address: IpAddress, port: u16, pid: Option<u32>) -> PortOwner {
    PortOwner {
        protocol,
        local_address: address,
        port,
        pid,
        process_name: pid.map(|_| "server".to_string()),
        executable_path: pid.map(|_| "/usr/bin/server".to_string()),
    }
}

#[test]
fn list_and_status_outputs_cover_empty_and_populated_snapshots() {
    let status = status_report(CaddyRuntimeStatus::Idle, ConfigApplyStatus::Idle);
    let lines: Vec<&str> = status.iter().map(line).collect();
    assert_eq!(lines, vec!["cadderd  running", "Caddy    idle", "Config   idle"]);
    assert_eq!(line(&projects_report(&Vec::new(), &Vec::new())[0]), "No projects registered.");
    assert_eq!(line(&domains_report(&Vec::new())[0]), "No domains registered.");

    let regs = populated();
    let projects = projects_report(&regs, &caddyfiles(&regs));
    assert_eq!(
        rows(&projects[0]),
        &vec![
            vec!["faulted".to_string(), "/workspace/project-a".to_string(), "/workspace/project-a/Caddyfile".to_string()],
            vec!["active".to_string(), "/workspace/project-b".to_string(), "/workspace/project-b/Caddyfile".to_string()],
        ]
    );
    let domains = domains_report(&regs);
    let table = rows(&domains[0]);
    assert_eq!(table.len(), 4);
    assert_eq!(table[0], vec!["faulted", "faulted.localhost", "api.example.com:443", "/workspace/project-a"]);
    assert_eq!(table[1], vec!["active", "active.localhost", ":3000", "/workspace/project-b"]);
    assert_eq!(table[2], vec!["inactive", "inactive.localhost", ":4000", "/workspace/project-b"]);
    assert_eq!(table[3], vec!["pending", "pending.localhost", "-", "/workspace/project-b"]);
}

#[test]
fn port_output_covers_socket_and_registration_availability() {
    let owners = vec![
        owner(SocketProtocol::Tcp, IpAddress { is_v6: false, bits: 0x7f00_0001 }, 3000, Some(42)),
        owner(SocketProtocol::Udp, IpAddress { is_v6: true, bits: 1 }, 3000, None),
        owner(SocketProtocol::Tcp, IpAddress { is_v6: false, bits: 0xc000_0201 }, 3000, Some(84)),
    ];
    let regs = populated();
    let files = caddyfiles(&regs);
    let routes = routes_for_port(&regs, 3000);

    let report = port_report(3000, &owners, None, Some(&routes), &regs, &files, None);
    assert_eq!(line(&report[0]), "Port 3000");
    assert_eq!(rows(&report[3])[0], vec!["tcp", ":3000", "42", "server", "/usr/bin/server"]);
    assert_eq!(rows(&report[3])[1], vec!["udp", ":3000", "unknown", "unknown", "-"]);
    assert_eq!(rows(&report[3])[2][1], "192.0.2.1:3000");
    assert_eq!(
        rows(&report[6])[0],
        vec!["active", "active", "active.localhost", ":3000", "/workspace/project-b", "/workspace/project-b/Caddyfile"]
    );
    assert_eq!(report.len(), 7);

    let unavailable =
        port_report(3000, &Vec::new(), Some("socket inspection unavailable"), None, &regs, &files, Some("daemon unavailable"));
    let lines: Vec<&str> = unavailable.iter().map(line).collect();
    assert_eq!(
        lines,
        vec![
            "Port 3000",
            "",
            "Sockets",
            "Unavailable: socket inspection unavailable",
            "",
            "Cadder routes",
            "Registration data unavailable.",
            "",
            "Cadder: daemon unavailable",
        ]
    );
    let empty = port_report(3000, &Vec::new(), None, Some(&Vec::new()), &regs, &files, None);
    assert_eq!(line(&empty[3]), "No listening socket found.");
    assert_eq!(line(&empty[6]), "No matching routes.");
}

#[test]
fn route_outputs_cover_registered_unregistered_and_socket_notes() {
    let regs = populated();
    let files = caddyfiles(&regs);
    let owners = vec![(3000u16, vec![owner(SocketProtocol::Tcp, IpAddress { is_v6: false, bits: 0 }, 3000, Some(42))])];

    let report = caddyfile_report(
        "/workspace/project-b/Caddyfile",
        CaddyRuntimeStatus::Running,
        ConfigApplyStatus::Applied,
        &regs,
        &vec![0],
        &files,
        &owners,
        None,
    );
    assert_eq!(line(&report[0]), "Caddyfile /workspace/project-b/Caddyfile");
    assert_eq!(line(&report[2]), "Caddy    running");
    assert_eq!(line(&report[3]), "Config   applied");
    assert_eq!(line(&report[4]), "Registered yes");
    assert_eq!(rows(&report[9]).len(), 3);
    assert_eq!(rows(&report[9])[2], vec!["active", "registered", "pending.localhost", "-"]);
    assert_eq!(line(&report[11]), "Local upstream sockets");
    assert_eq!(rows(&report[12])[0][1], ":3000");

    let missing = caddyfile_report(
        "missing/Caddyfile",
        CaddyRuntimeStatus::Running,
        ConfigApplyStatus::Applied,
        &regs,
        &Vec::new(),
        &files,
        &Vec::new(),
        None,
    );
    assert_eq!(line(missing.last().unwrap()), "Registered no");

    let noted = caddyfile_report(
        "/workspace/project-b/Caddyfile",
        CaddyRuntimeStatus::Running,
        ConfigApplyStatus::Applied,
        &regs,
        &vec![0],
        &files,
        &Vec::new(),
        Some("socket inspection unavailable"),
    );
    assert_eq!(line(noted.last().unwrap()), "Unavailable: socket inspection unavailable");

    let paths: Vec<ComparablePaths> =
        files.iter().map(|f| ComparablePaths { config_path: f.clone(), canonical_path: None }).collect();
    let routes = routes_for_domain(&regs, "active.localhost", None, &paths);
    let domain = domain_report("active.localhost", CaddyRuntimeStatus::Idle, ConfigApplyStatus::Idle, &routes, &regs, &files, &owners, None);
    assert_eq!(line(&domain[0]), "Domain active.localhost");
    assert_eq!(rows(&domain[5]).len(), 1);
    let noted = domain_report(
        "active.localhost",
        CaddyRuntimeStatus::Idle,
        ConfigApplyStatus::Idle,
        &routes,
        &regs,
        &files,
        &Vec::new(),
        Some("socket inspection unavailable"),
    );
    assert_eq!(line(noted.last().unwrap()), "Unavailable: socket inspection unavailable");
}

#[test]
fn diagnostics_and_logs_cover_empty_and_detailed_reports() {
    let empty = DiagnosticsView {
        runtime_status: "Idle".to_string(),
        config_status: "Idle".to_string(),
        process_id: None,
        version: None,
        binary_path: None,
        admin_endpoint: None,
        runtime_diagnostics: Vec::new(),
        config_diagnostics: Vec::new(),
    };
    let report = diagnostics_report(&empty);
    let lines: Vec<&str> = report.iter().map(line).collect();
    assert_eq!(
        lines,
        vec!["Caddy    idle", "Config   idle", "", "Runtime diagnostics", "None.", "", "Configuration diagnostics", "None."]
    );

    let detailed = DiagnosticsView {
        runtime_status: "Running".to_string(),
        config_status: "Applied".to_string(),
        process_id: Some(42),
        version: Some("v2.11.3".to_string()),
        binary_path: Some("/usr/bin/caddy".to_string()),
        admin_endpoint: Some("localhost:2019".to_string()),
        runtime_diagnostics: vec![RuntimeDiagnostic {
            code: "runtime-warning".to_string(),
            message: "runtime message".to_string(),
            operation: Some("reload".to_string()),
        }],
        config_diagnostics: vec![ConfigDiagnostic {
            code: "config-warning".to_string(),
            message: "config message".to_string(),
            domain_key: Some("active.localhost".to_string()),
            source_config_paths: vec!["/workspace/project-b/Caddyfile".to_string(), "/other/Caddyfile".to_string()],
        }],
    };
    let report = diagnostics_report(&detailed);
    assert_eq!(line(&report[2]), "PID      42");
    assert_eq!(line(&report[3]), "Version  v2.11.3");
    assert_eq!(line(&report[4]), "Binary   /usr/bin/caddy");
    assert_eq!(line(&report[5]), "Admin    localhost:2019");
    assert_eq!(rows(&report[8])[0], vec!["runtime-warning", "reload", "runtime message"]);
    assert_eq!(
        rows(&report[11])[0],
        vec!["config-warning", "active.localhost", "/workspace/project-b/Caddyfile, /other/Caddyfile", "config message"]
    );

    let empty_logs = LogsView {
        stream_status: LogStreamStatus::Empty,
        channel: "domain".to_string(),
        domain_key: Some("active.localhost".to_string()),
        entries: Vec::new(),
    };
    let report = logs_report(&empty_logs);
    let lines: Vec<&str> = report.iter().map(line).collect();
    assert_eq!(lines, vec!["Status   empty", "Channel  domain", "Domain   active.localhost", "", "No log entries."]);

    let logs = LogsView {
        stream_status: LogStreamStatus::Active,
        channel: "domain".to_string(),
        domain_key: None,
        entries: vec![LogRow {
            sequence_number: 7,
            timestamp: "2026-06-17T11:30:00+00:00".to_string(),
            severity: "Warn".to_string(),
            raw_message: "redacted log message".to_string(),
        }],
    };
    let report = logs_report(&logs);
    assert_eq!(line(&report[0]), "Status   active");
    assert_eq!(rows(&report[3])[0], vec!["7", "2026-06-17T11:30:00+00:00", "warn", "redacted log message"]);
}

#[test]
fn state_labels_cover_every_activation_state() {
    assert_eq!(activation_label(ActivationState::Unknown), "unknown");
    assert_eq!(activation_label(ActivationState::Registered), "registered");
    assert_eq!(activation_label(ActivationState::Activating), "activating");
    assert_eq!(activation_label(ActivationState::Active), "active");
    assert_eq!(activation_label(ActivationState::Inactive), "inactive");
    assert_eq!(activation_label(ActivationState::Faulted), "faulted");
    assert_eq!(effective_state(ActivationState::Active, ActivationState::Active), "active");
    assert_eq!(effective_state(ActivationState::Inactive, ActivationState::Active), "inactive");
    assert_eq!(effective_state(ActivationState::Active, ActivationState::Faulted), "faulted");
    assert_eq!(effective_state(ActivationState::Registered, ActivationState::Registered), "pending");
}
