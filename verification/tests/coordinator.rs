use sha2::Digest;
use cadder::caddy_config::{ActivationState, ConfigDiagnostic, EntrypointRegistration, PreparedRegistration, RegisteredDomain};
use cadder::caddy_coordinator::{CaddyApplyAction, CaddyConfigCoordinator, ConfigApplyStatus, PreparedOutcome};
use cadder::json::{JsonMember, JsonValue};

fn registration(id: &str, hosts: &[&str]) -> EntrypointRegistration {
    EntrypointRegistration {
        registration_id: id.to_string(),
        source_working_directory: format!("/work/{id}"),
        source_config_path: format!("{id}.Caddyfile"),
        registered_domains: hosts.iter().map(|host| RegisteredDomain::active(host)).collect(),
        activation_state: ActivationState::Active,
    }
}

fn diagnostic(code: &str) -> ConfigDiagnostic {
    ConfigDiagnostic { code: code.to_string(), message: "failed".to_string(), domain_key: None, source_config_paths: Vec::new() }
}

#[test]
fn begin_apply_returns_current_failed_state_for_enabled_diagnostics() {
    let mut coordinator = CaddyConfigCoordinator::new();
    coordinator.commit_prepared_registration(
        "shim.Caddyfile".to_string(),
        PreparedRegistration { registration: registration("shim", &["app.localhost"]), routes: Vec::new(), diagnostics: vec![diagnostic("adapt-failed")] },
        10,
    );

    let action = coordinator.begin_apply(&[registration("shim", &["app.localhost"])], 20);

    let CaddyApplyAction::Current(state) = action else {
        panic!("expected current failed state");
    };
    assert_eq!(state.status, ConfigApplyStatus::Failed);
    assert_eq!(state.diagnostics[0].code, "adapt-failed");
    assert_eq!(state.diagnostics[0].source_config_paths, ["shim.Caddyfile"]);
    assert_eq!(state.last_attempted_at_utc, Some(20));
}

#[test]
fn begin_apply_returns_stop_when_no_routes_are_active() {
    let mut coordinator = CaddyConfigCoordinator::new();

    let action = coordinator.begin_apply(&[registration("shim", &[])], 5);

    assert!(matches!(action, CaddyApplyAction::Stop { attempted: 5 }));
}

#[test]
fn begin_apply_composes_the_enabled_registrations_and_forgets_stale_ones() {
    let mut coordinator = CaddyConfigCoordinator::new();
    coordinator.commit_prepared_registration(
        "stale.Caddyfile".to_string(),
        PreparedRegistration { registration: registration("stale", &[]), routes: Vec::new(), diagnostics: vec![diagnostic("adapt-failed")] },
        1,
    );

    let action = coordinator.begin_apply(&[registration("shim", &["app.localhost"])], 2);

    let CaddyApplyAction::Apply { config, source_config_paths, attempted, .. } = action else {
        panic!("expected apply action");
    };
    assert_eq!(attempted, 2);
    assert_eq!(source_config_paths, ["shim.Caddyfile"]);
    assert!(matches!(config, JsonValue::Object(_)));
    assert!(matches!(coordinator.begin_apply(&[], 3), CaddyApplyAction::Stop { attempted: 3 }));
}

#[test]
fn runtime_outcomes_set_the_reported_state() {
    let mut coordinator = CaddyConfigCoordinator::new();
    let applied = coordinator.finish_runtime_apply(7, "abc".to_string(), vec!["a.Caddyfile".to_string()], Ok(()), 8);
    assert_eq!(applied.status, ConfigApplyStatus::Applied);
    assert_eq!(applied.last_successful_reload_at_utc, Some(8));
    assert_eq!(applied.effective_config_hash.as_deref(), Some("abc"));

    let failed = coordinator.finish_runtime_apply(9, "def".to_string(), vec!["a.Caddyfile".to_string()], Err("boom".to_string()), 10);
    assert_eq!(failed.status, ConfigApplyStatus::Failed);
    assert_eq!(failed.last_successful_reload_at_utc, Some(8));
    assert_eq!(failed.effective_config_hash.as_deref(), Some("abc"));
    assert_eq!(failed.diagnostics[0].code, "runtime-apply-failed");
    assert_eq!(failed.diagnostics[0].message, "boom");

    let idle = coordinator.finish_idle(11);
    assert_eq!(idle.status, ConfigApplyStatus::Idle);
    assert_eq!(idle.effective_config_hash, None);
    assert_eq!(idle.last_successful_reload_at_utc, Some(8));
}

fn to_serde(value: &JsonValue) -> serde_json::Value {
    match value {
        JsonValue::Null => serde_json::Value::Null,
        JsonValue::Bool(b) => serde_json::Value::Bool(*b),
        JsonValue::Number(n) => serde_json::from_str(n).unwrap(),
        JsonValue::Str(s) => serde_json::Value::String(s.clone()),
        JsonValue::Array(items) => serde_json::Value::Array(items.iter().map(to_serde).collect()),
        JsonValue::Object(members) => {
            serde_json::Value::Object(members.iter().map(|m| (m.key.clone(), to_serde(&m.value))).collect())
        },
    }
}

fn host_route(host: &str) -> JsonValue {
    JsonValue::Object(vec![JsonMember {
        key: "match".to_string(),
        value: JsonValue::Array(vec![JsonValue::Object(vec![JsonMember {
            key: "host".to_string(),
            value: JsonValue::Array(vec![JsonValue::Str(host.to_string())]),
        }])]),
    }])
}

#[test]
fn commit_prepared_registration_records_diagnostics_and_removes_routes() {
    let mut coordinator = CaddyConfigCoordinator::new();
    coordinator.commit_prepared_registration(
        "shim.Caddyfile".to_string(),
        PreparedRegistration {
            registration: registration("shim", &["app.localhost"]),
            routes: vec![host_route("app.localhost")],
            diagnostics: Vec::new(),
        },
        1,
    );
    assert!(matches!(coordinator.outcome("shim"), Some(PreparedOutcome::Routes(_))));
    let prepared = PreparedRegistration {
        registration: registration("shim", &["app.localhost"]),
        routes: vec![host_route("app.localhost")],
        diagnostics: vec![diagnostic("adapt-failed")],
    };

    coordinator.commit_prepared_registration("shim.Caddyfile".to_string(), prepared, 2);

    let Some(PreparedOutcome::Diagnostics(diagnostics)) = coordinator.outcome("shim") else {
        panic!("expected recorded diagnostics instead of routes");
    };
    assert_eq!(diagnostics[0].source_config_paths, ["shim.Caddyfile"]);
    assert_eq!(coordinator.current_state().status, ConfigApplyStatus::Failed);
}

#[test]
fn begin_apply_builds_rendered_config_and_prunes_stale_state() {
    let mut coordinator = CaddyConfigCoordinator::new();
    coordinator.commit_prepared_registration(
        "stale.Caddyfile".to_string(),
        PreparedRegistration {
            registration: registration("stale", &["stale.localhost"]),
            routes: vec![host_route("stale.localhost")],
            diagnostics: Vec::new(),
        },
        1,
    );
    coordinator.commit_prepared_registration(
        "gone.Caddyfile".to_string(),
        PreparedRegistration { registration: registration("gone", &[]), routes: Vec::new(), diagnostics: vec![diagnostic("adapt-failed")] },
        1,
    );

    let action = coordinator.begin_apply(&[registration("shim", &["app.localhost"])], 2);

    let CaddyApplyAction::Apply { config, rendered, hash, source_config_paths, .. } = action else {
        panic!("expected apply action");
    };
    let composed = serde_json::to_vec_pretty(&to_serde(&config)).unwrap();
    assert_eq!(rendered, composed);
    assert_eq!(hash.len(), 64);
    assert_eq!(hash, hex::encode(sha2::Sha256::digest(&rendered)));
    assert!(hash.chars().all(|c| c.is_ascii_hexdigit() && !c.is_ascii_uppercase()));
    let config: serde_json::Value = serde_json::from_slice(&rendered).unwrap();
    assert!(!rendered.is_empty());
    assert_eq!(source_config_paths, ["shim.Caddyfile"]);
    assert_eq!(
        config.pointer("/apps/http/servers/cadder_https/routes/0/match/0/host/0").and_then(serde_json::Value::as_str),
        Some("app.localhost")
    );
    assert!(coordinator.outcome("stale").is_none());
    assert!(coordinator.outcome("gone").is_none());
}

#[test]
fn finish_apply_state_updates_success_failure_and_idle() {
    let mut coordinator = CaddyConfigCoordinator::new();
    let attempted = 1_700_000_000_000;

    let applied = coordinator.finish_runtime_apply(attempted, "hash-1".to_string(), vec![], Ok(()), attempted + 5);
    assert_eq!(applied.status, ConfigApplyStatus::Applied);
    assert_eq!(applied.effective_config_hash.as_deref(), Some("hash-1"));

    let failed = coordinator.finish_runtime_apply(
        attempted,
        "hash-2".to_string(),
        vec!["shim.Caddyfile".to_string()],
        Err("runtime exploded".to_string()),
        attempted + 6,
    );
    assert_eq!(failed.status, ConfigApplyStatus::Failed);
    assert_eq!(failed.effective_config_hash.as_deref(), Some("hash-1"));
    assert_eq!(failed.diagnostics[0].code, "runtime-apply-failed");
    assert_eq!(failed.diagnostics[0].source_config_paths, ["shim.Caddyfile"]);

    let idle = coordinator.finish_idle(attempted);
    assert_eq!(idle.status, ConfigApplyStatus::Idle);
    assert_eq!(idle.effective_config_hash, None);
    assert!(idle.diagnostics.is_empty());
}
