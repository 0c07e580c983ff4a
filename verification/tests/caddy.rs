use cadder::resolver::{is_single_normal, PathComponentKind};
use cadder::autostart::Platform;
use cadder::resolver::{command_not_found, executable_candidate_name, scoop_shim_target_value, shim_binary_names};
use cadder::config::{CaddyConfig, CadderConfig};
use cadder::caddy_config::{CaddyDirective, CaddySite, MockCaddyConfigAdapter};
use cadder::caddy_config::{
    active_domains, adapt_arguments, adapt_result, compose_config, detect_conflicts, extract_registered_domains,
    mock_route_for_domain, prepare_adapted,
    ActivationState, EntrypointRegistration, RegisteredDomain, RouteEntry,
};
use cadder::caddy_image::{required_caddy_modules, CaddyImageSource};
use cadder::caddy_routes::{
    extract_hosts, extract_http_routes, filter_hosts_recursive, filter_route_hosts, first_reverse_proxy_dial,
    namespace_config_ids,
};
use cadder::config::RealCaddySelection;
use cadder::resolver::{
    parse_caddy_modules, parse_caddy_version, plan_resolution, resolution_help, validate_command_name,
    validate_selected_path, ResolutionPlan,
};
use cadder::json::{JsonMember, JsonValue};

fn to_json(value: &serde_json::Value) -> JsonValue {
    match value {
        serde_json::Value::Null => JsonValue::Null,
        serde_json::Value::Bool(b) => JsonValue::Bool(*b),
        serde_json::Value::Number(n) => JsonValue::Number(n.to_string()),
        serde_json::Value::String(s) => JsonValue::Str(s.clone()),
        serde_json::Value::Array(items) => JsonValue::Array(items.iter().map(to_json).collect()),
        serde_json::Value::Object(map) => JsonValue::Object(
            map.iter().map(|(k, v)| JsonMember { key: k.clone(), value: to_json(v) }).collect(),
        ),
    }
}

fn parse(text: &str) -> JsonValue {
    to_json(&serde_json::from_str::<serde_json::Value>(text).unwrap())
}

fn pointer<'a>(value: &'a JsonValue, path: &str) -> Option<&'a JsonValue> {
    let mut current = value;
    for token in path.split('/').skip(1) {
        current = match current {
            JsonValue::Object(members) => &members.iter().find(|m| m.key == token)?.value,
            JsonValue::Array(items) => items.get(token.parse::<usize>().ok()?)?,
            _ => return None,
        };
    }
    Some(current)
}

fn as_str(value: Option<&JsonValue>) -> Option<&str> {
    match value {
        Some(JsonValue::Str(s)) => Some(s.as_str()),
        _ => None,
    }
}

fn as_array(value: Option<&JsonValue>) -> Option<&Vec<JsonValue>> {
    match value {
        Some(JsonValue::Array(items)) => Some(items),
        _ => None,
    }
}

fn registration(id: &str, hosts: &[&str]) -> EntrypointRegistration {
    EntrypointRegistration {
        registration_id: id.to_string(),
        source_working_directory: format!("/work/{id}"),
        source_config_path: format!("{id}.Caddyfile"),
        registered_domains: hosts.iter().map(|host| RegisteredDomain::active(host)).collect(),
        activation_state: ActivationState::Active,
    }
}

#[test]
fn compose_config_uses_placeholder_route_when_adapted_routes_are_missing() {
    let registrations = vec![registration("shim", &["app.localhost"])];
    let config = compose_config(&registrations, &Vec::new());

    assert_eq!(
        as_str(pointer(&config, "/apps/http/servers/cadder_https/routes/0/handle/0/body")),
        Some("Cadder route placeholder")
    );
    assert_eq!(as_str(pointer(&config, "/apps/tls/automation/policies/0/subjects/0")), Some("app.localhost"));
}

#[test]
fn compose_config_drops_routes_for_disabled_domains() {
    let mut registration = registration("shim", &["app.localhost", "api.localhost"]);
    registration.registered_domains[1].activation_state = ActivationState::Inactive;
    let routes = vec![RouteEntry {
        registration_id: "shim".to_string(),
        routes: vec![parse(
            r#"{"match": [{"host": ["app.localhost", "api.localhost"]}],
                "handle": [{"handler": "static_response", "body": "mixed"}],
                "terminal": true}"#,
        )],
    }];

    let config = compose_config(&[registration], &routes);
    let hosts = as_array(pointer(&config, "/apps/http/servers/cadder_https/routes/0/match/0/host")).unwrap();
    let subjects = as_array(pointer(&config, "/apps/tls/automation/policies/0/subjects")).unwrap();

    assert_eq!(hosts.len(), 1);
    assert_eq!(as_str(hosts.first()), Some("app.localhost"));
    assert_eq!(subjects.len(), 1);
    assert_eq!(as_str(subjects.first()), Some("app.localhost"));
}

#[test]
fn extracts_hosts_from_adapted_json() {
    let adapted = parse(
        r#"{"apps": {"http": {"servers": {"srv0": {"routes": [
            {"match": [{"host": ["App.Localhost", "api.localhost"]}]}
        ]}}}}}"#,
    );

    let hosts = extract_hosts(&adapted);
    assert!(hosts.contains(&"app.localhost".to_string()));
    assert!(hosts.contains(&"api.localhost".to_string()));
}

#[test]
fn extracts_reverse_proxy_upstream_for_registered_domain() {
    let adapted = parse(
        r#"{"apps": {"http": {"servers": {"srv0": {"routes": [{
            "match": [{"host": ["App.Localhost"]}],
            "handle": [{"handler": "reverse_proxy", "upstreams": [{"dial": "127.0.0.1:19087"}]}],
            "terminal": true
        }]}}}}}"#,
    );

    let domains = extract_registered_domains(&adapted);

    assert_eq!(domains.len(), 1);
    assert_eq!(domains[0].name.canonical, "app.localhost");
    assert_eq!(domains[0].upstream.as_deref(), Some("127.0.0.1:19087"));
}

#[test]
fn extraction_and_filtering_helpers_handle_empty_shapes() {
    assert!(extract_http_routes(&parse(r#"{"apps": {"tls": {}}}"#)).is_empty());
    assert!(filter_route_hosts(&parse(r#"{"handle": []}"#), &Vec::new()).is_none());
}

#[test]
fn detects_active_domain_conflicts() {
    let left = registration("left", &["app.localhost"]);
    let right = registration("right", &["APP.localhost."]);

    let diagnostics = detect_conflicts(&[left, right]);

    assert_eq!(diagnostics.len(), 1);
    assert_eq!(diagnostics[0].domain_key.as_deref(), Some("app.localhost"));
}

#[test]
fn conflict_detection_ignores_inactive_registrations_and_domains() {
    let active = registration("active", &["app.localhost"]);
    let mut inactive_registration = registration("inactive-registration", &["app.localhost"]);
    inactive_registration.activation_state = ActivationState::Inactive;
    let mut inactive_domain = registration("inactive-domain", &["app.localhost"]);
    inactive_domain.registered_domains[0].activation_state = ActivationState::Inactive;

    let diagnostics = detect_conflicts(&[active, inactive_registration, inactive_domain]);

    assert!(diagnostics.is_empty());
}

#[test]
fn filters_routes_to_enabled_hosts() {
    let route = parse(
        r#"{"match": [{"host": ["app.localhost", "api.localhost"]}],
            "handle": [{"handler": "reverse_proxy"}]}"#,
    );
    let hosts = vec!["api.localhost".to_string()];

    let filtered = filter_route_hosts(&route, &hosts).unwrap();

    assert_eq!(as_str(pointer(&filtered, "/match/0/host/0")), Some("api.localhost"));
    assert_eq!(as_array(pointer(&filtered, "/match/0/host")).unwrap().len(), 1);
}

#[test]
fn conflict_message_lists_the_domain_and_every_source() {
    let diagnostics = detect_conflicts(&[registration("a", &["x.localhost"]), registration("b", &["X.localhost"])]);
    assert_eq!(diagnostics[0].code, "domain-conflict");
    assert_eq!(diagnostics[0].message, "domain `x.localhost` is registered by multiple entrypoints");
    assert_eq!(diagnostics[0].source_config_paths, vec!["a.Caddyfile", "b.Caddyfile"]);
}

#[test]
fn active_domains_are_sorted_and_distinct() {
    let registration = registration("r", &["b.localhost", "A.localhost", "a.localhost"]);
    assert_eq!(active_domains(&registration), vec!["a.localhost", "b.localhost"]);
}

#[test]
fn namespacing_prefixes_string_ids_only() {
    let value = parse(r#"{"@id": "route", "handle": [{"@id": "inner"}, {"@id": 7}]}"#);
    let namespaced = namespace_config_ids(&value, "http_");
    assert_eq!(as_str(pointer(&namespaced, "/@id")), Some("http_route"));
    assert_eq!(as_str(pointer(&namespaced, "/handle/0/@id")), Some("http_inner"));
    assert!(matches!(pointer(&namespaced, "/handle/1/@id"), Some(JsonValue::Number(n)) if n == "7"));
}

#[test]
fn the_first_usable_upstream_wins() {
    let value = parse(
        r#"{"handle": [{"handler": "reverse_proxy", "upstreams": [{"dial": "  "}, {"dial": "127.0.0.1:9000"}]}]}"#,
    );
    assert_eq!(first_reverse_proxy_dial(&value).as_deref(), Some("127.0.0.1:9000"));
    assert_eq!(first_reverse_proxy_dial(&parse(r#"{"handler": "static_response"}"#)), None);
}

#[test]
fn mock_routes_answer_statically() {
    let route = mock_route_for_domain("app.localhost");
    assert_eq!(as_str(pointer(&route, "/handle/0/body")), Some("Cadder mock Caddy route"));
    assert_eq!(as_str(pointer(&route, "/match/0/host/0")), Some("app.localhost"));
}

#[test]
fn host_collection_and_filtering_walk_nested_values() {
    let config = parse(
        r#"{
        "apps": {"http": {"servers": {"srv0": {"routes": [
            {
                "match": [{ "host": ["App.Localhost", 7, "api.localhost"] }],
                "handle": [{ "routes": [{ "match": [{ "host": ["nested.localhost"] }] }] }]
            },
            { "match": [{ "path": ["/health"] }] }
        ]}}}}
    }"#,
    );

    let hosts = extract_hosts(&config);

    assert_eq!(hosts, vec!["api.localhost".to_string(), "app.localhost".to_string(), "nested.localhost".to_string()]);

    let route = parse(
        r#"{
        "match": [{ "host": ["App.Localhost", "disabled.localhost", 7] }],
        "handle": [{ "routes": [{ "match": [{ "host": ["api.localhost"] }] }] }]
    }"#,
    );
    let (route, retained_any) = filter_hosts_recursive(&route, &vec!["app.localhost".to_string()]);

    assert!(retained_any);
    let kept = as_array(pointer(&route, "/match/0/host")).unwrap();
    assert_eq!(kept.len(), 1);
    assert_eq!(as_str(kept.first()), Some("App.Localhost"));
    assert!(as_array(pointer(&route, "/handle/0/routes/0/match/0/host")).unwrap().is_empty());
}

#[test]
fn pinned_caddy_image_parses_semantic_version_and_module_inventory() {
    let modules = required_caddy_modules();
    let listing: Vec<serde_json::Value> = modules
        .iter()
        .map(|module| {
            let mut entry = serde_json::Map::new();
            entry.insert("module_name".to_string(), serde_json::Value::String(module.clone()));
            entry.insert("module_type".to_string(), serde_json::Value::String("standard".to_string()));
            serde_json::Value::Object(entry)
        })
        .collect();
    let output = serde_json::to_vec(&listing).unwrap();
    let value = to_json(&serde_json::from_slice::<serde_json::Value>(&output).unwrap());

    let version = parse_caddy_version(b"v2.11.3 h1:fixture\n").unwrap();
    assert_eq!((version.major, version.minor, version.patch), (2, 11, 3));
    assert!(version.pre.is_empty() && version.build.is_empty());
    let mut expected = modules.clone();
    expected.sort();
    expected.dedup();
    assert_eq!(parse_caddy_modules(&value).unwrap(), expected);
}

#[test]
fn trusted_caddy_source_resolution_help_names_only_explicit_sources() {
    let error = validate_selected_path("relative-caddy", CaddyImageSource::ExplicitDaemonOverride).unwrap_err();
    let help = resolution_help(&error);

    assert!(help.contains("absolute --real-caddy daemon-start override"));
    assert!(help.contains("Project files"));
    assert!(!help.contains("CADDER_CADDY_REAL_COMMAND"));
    assert!(help.contains("explicit daemon override selects relative real-Caddy path relative-caddy; use an absolute path"));
}

#[test]
fn trusted_caddy_source_rejects_configured_command_arguments() {
    let error = validate_command_name("caddy-real --version").unwrap_err();

    assert!(error.contains("single program name"));
    assert!(validate_command_name("caddy-real").is_ok());
}

#[test]
fn trusted_caddy_source_explicit_override_precedes_user_and_system_configuration() {
    let lookups = vec![
        (CaddyImageSource::UserConfiguration, Ok(Some(RealCaddySelection::Path("/user/caddy".to_string())))),
        (CaddyImageSource::SystemConfiguration, Ok(Some(RealCaddySelection::Path("/system/caddy".to_string())))),
    ];
    assert!(matches!(plan_resolution(Some("/explicit/caddy"), &lookups), ResolutionPlan::Override(path) if path == "/explicit/caddy"));
}

#[test]
fn trusted_caddy_source_user_configuration_precedes_system_configuration() {
    let lookups = vec![
        (CaddyImageSource::UserConfiguration, Ok(Some(RealCaddySelection::Path("/user/caddy".to_string())))),
        (CaddyImageSource::SystemConfiguration, Ok(Some(RealCaddySelection::Path("/system/caddy".to_string())))),
    ];
    assert!(matches!(
        plan_resolution(None, &lookups),
        ResolutionPlan::Configured(RealCaddySelection::Path(path), CaddyImageSource::UserConfiguration) if path == "/user/caddy"
    ));
}

#[test]
fn trusted_caddy_source_uses_system_default_after_empty_user_config() {
    let lookups = vec![
        (CaddyImageSource::UserConfiguration, Ok(None)),
        (CaddyImageSource::SystemConfiguration, Ok(Some(RealCaddySelection::Path("/system/caddy".to_string())))),
    ];
    assert!(matches!(
        plan_resolution(None, &lookups),
        ResolutionPlan::Configured(RealCaddySelection::Path(path), CaddyImageSource::SystemConfiguration) if path == "/system/caddy"
    ));
}

#[test]
fn trusted_caddy_source_invalid_higher_priority_config_fails_without_fallback() {
    let lookups = vec![
        (CaddyImageSource::UserConfiguration, Err("load Cadder configuration from user.toml".to_string())),
        (CaddyImageSource::SystemConfiguration, Ok(Some(RealCaddySelection::Path("/system/caddy".to_string())))),
    ];
    assert!(matches!(plan_resolution(None, &lookups), ResolutionPlan::Failed(message) if message.contains("load Cadder configuration")));
    assert!(matches!(plan_resolution(None, &Vec::new()), ResolutionPlan::SearchPath));
}

#[test]
fn adapt_arguments_name_the_config_and_default_adapter() {
    assert_eq!(
        adapt_arguments("/p/Caddyfile", None),
        vec!["adapt", "--config", "/p/Caddyfile", "--adapter", "caddyfile"]
    );
    assert_eq!(adapt_arguments("/p/caddy.json", Some("json"))[4], "json");
}

#[test]
fn adapt_result_reports_failed_runs_and_unparsed_output() {
    let failed = adapt_result(false, b"bad \xff input", None).unwrap_err();
    assert_eq!(failed, "caddy adapt failed: bad \u{FFFD} input");
    assert_eq!(adapt_result(true, b"", None).unwrap_err(), "parse adapted Caddy JSON");
    assert!(adapt_result(true, b"", Some(parse("{}"))).is_ok());
}

#[test]
fn prepare_adapted_takes_domains_and_routes_from_the_adapted_config() {
    let adapted = parse(
        r#"{"apps":{"http":{"servers":{"srv0":{"routes":[{"match":[{"host":["App.localhost"]}],"handle":[{"handler":"reverse_proxy","upstreams":[{"dial":"127.0.0.1:3000"}]}]}]}}}}}"#,
    );
    let prepared = prepare_adapted(registration("p", &[]), Ok(adapted));
    assert_eq!(prepared.routes.len(), 1);
    assert!(prepared.diagnostics.is_empty());
    assert_eq!(prepared.registration.registered_domains.len(), 1);
    assert_eq!(prepared.registration.registered_domains[0].name.canonical, "app.localhost");
    assert_eq!(prepared.registration.registered_domains[0].upstream.as_deref(), Some("127.0.0.1:3000"));

    let failed = prepare_adapted(registration("p", &["kept.localhost"]), Err("caddy adapt failed: boom".to_string()));
    assert!(failed.routes.is_empty());
    assert_eq!(failed.diagnostics[0].code, "adapt-failed");
    assert_eq!(failed.diagnostics[0].message, "caddy adapt failed: boom");
    assert_eq!(failed.registration.registered_domains[0].name.canonical, "kept.localhost");
}

#[test]
fn resolver_names_candidates_and_reads_scoop_shims() {
    assert_eq!(shim_binary_names(Platform::Windows), vec!["cadder-caddy.exe", "caddy.exe"]);
    assert_eq!(shim_binary_names(Platform::Unix), vec!["cadder-caddy", "caddy"]);
    assert_eq!(executable_candidate_name("caddy", Platform::Windows), "caddy.exe");
    assert_eq!(executable_candidate_name("caddy.exe", Platform::Windows), "caddy.exe");
    assert_eq!(executable_candidate_name("caddy", Platform::Unix), "caddy");
    assert_eq!(scoop_shim_target_value(r#"  path = "C:\scoop\apps\caddy\caddy.exe"  "#).as_deref(), Some(r"C:\scoop\apps\caddy\caddy.exe"));
    assert_eq!(scoop_shim_target_value("args = -x"), None);
    assert_eq!(scoop_shim_target_value(r#"path = """#), None);
    assert_eq!(command_not_found("caddy2"), "configured real-Caddy command `caddy2` was not found on PATH");
}

#[test]
fn configuration_selects_a_command_or_a_path_but_not_both() {
    let config = |command: Option<&str>, path: Option<&str>| CadderConfig {
        caddy: CaddyConfig { real_command: command.map(str::to_string), real_path: path.map(str::to_string) },
    };
    assert_eq!(config(Some("caddy"), None).real_caddy().unwrap(), Some(RealCaddySelection::Command("caddy".to_string())));
    assert_eq!(config(None, Some("/opt/caddy")).real_caddy().unwrap(), Some(RealCaddySelection::Path("/opt/caddy".to_string())));
    assert_eq!(config(None, None).real_caddy().unwrap(), None);
    assert_eq!(
        config(Some("caddy"), Some("/opt/caddy")).real_caddy().unwrap_err(),
        "caddy.real_command and caddy.real_path cannot both be configured"
    );
}

#[test]
fn mock_backend_prepares_routes_from_the_parsed_caddyfile() {
    let site = CaddySite {
        hosts: vec!["app.localhost".to_string()],
        directives: vec![CaddyDirective {
            name: "reverse_proxy".to_string(),
            arguments: vec!["127.0.0.1:3000".to_string()],
            block: None,
        }],
    };
    let prepared = MockCaddyConfigAdapter.prepare(registration("m", &["app.localhost"]), Some(Ok(vec![site])));
    assert_eq!(prepared.routes.len(), 1);
    assert!(prepared.diagnostics.is_empty());
    assert_eq!(prepared.registration.registered_domains[0].upstream.as_deref(), Some("127.0.0.1:3000"));

    let unread = MockCaddyConfigAdapter.prepare(registration("m", &["a.localhost", "b.localhost"]), None);
    assert_eq!(unread.routes.len(), 2);

    let failed = MockCaddyConfigAdapter.prepare(registration("m", &["a.localhost"]), Some(Err("bad token".to_string())));
    assert!(failed.routes.is_empty());
    assert_eq!(failed.diagnostics[0].message, "parse Caddyfile for mock backend: bad token");
}

#[test]
fn a_single_normal_component_is_one_plain_name() {
    assert!(is_single_normal(&vec![PathComponentKind::Normal]));
    assert!(!is_single_normal(&vec![PathComponentKind::RootDir, PathComponentKind::Normal]));
    assert!(!is_single_normal(&vec![PathComponentKind::Normal, PathComponentKind::Normal]));
    assert!(!is_single_normal(&Vec::new()));
    assert!(validate_command_name("caddy").is_ok());
    assert!(validate_command_name("bin/caddy").is_err());
    assert!(validate_command_name("/usr/bin/caddy").is_err());
    assert!(validate_command_name("caddy run").is_err());
}

#[test]
fn one_conflict_per_shared_domain_in_ascending_order() {
    let diagnostics = detect_conflicts(&[
        registration("a", &["z.localhost", "b.localhost", "only-a.localhost"]),
        registration("b", &["B.localhost", "z.localhost"]),
        registration("c", &["z.localhost."]),
    ]);
    let keys: Vec<_> = diagnostics.iter().map(|d| d.domain_key.clone().unwrap()).collect();
    assert_eq!(keys, vec!["b.localhost", "z.localhost"]);
    assert_eq!(diagnostics[1].source_config_paths, vec!["a.Caddyfile", "b.Caddyfile", "c.Caddyfile"]);
}
