use cadder::caddy_config::{ActivationState, EntrypointRegistration, RegisteredDomain};
use cadder::storage::{
    apply_desired_state, desired_state_rows, initialization_step, legacy_cleanup_action, legacy_cleanup_diagnostic, log_query_limit,
    log_stream_status, validate_schema, ColumnInfo, ForeignKeyInfo, InitializationStep, LegacyCleanup,
    LogStreamStatus, ObservedSchema,
};

fn columns(spec: &[(&str, &str, i64, i64)]) -> Vec<ColumnInfo> {
    spec.iter()
        .map(|(name, kind, not_null, primary_key)| ColumnInfo {
            name: name.to_string(),
            kind: kind.to_string(),
            not_null: *not_null,
            primary_key: *primary_key,
        })
        .collect()
}

fn exact_schema() -> ObservedSchema {
    ObservedSchema {
        tables: vec!["domains".to_string(), "entrypoints".to_string(), "log_events".to_string()],
        entrypoints_columns: columns(&[
            ("entrypoint_key", "TEXT", 1, 1),
            ("registration_id", "TEXT", 1, 0),
            ("project_root", "TEXT", 1, 0),
            ("caddyfile_path", "TEXT", 1, 0),
            ("desired_enabled", "INTEGER", 1, 0),
        ]),
        domains_columns: columns(&[
            ("entrypoint_key", "TEXT", 1, 1),
            ("domain_key", "TEXT", 1, 2),
            ("canonical_host", "TEXT", 1, 0),
            ("desired_enabled", "INTEGER", 1, 0),
        ]),
        log_events_columns: columns(&[
            ("sequence", "INTEGER", 0, 1),
            ("stream_key", "TEXT", 1, 0),
            ("timestamp", "TEXT", 1, 0),
            ("source", "TEXT", 1, 0),
            ("severity", "TEXT", 1, 0),
            ("event_name", "TEXT", 1, 0),
            ("message", "TEXT", 1, 0),
            ("entrypoint_key", "TEXT", 0, 0),
            ("domain_key", "TEXT", 0, 0),
            ("request_id", "TEXT", 0, 0),
            ("fields_json", "TEXT", 1, 0),
            ("redaction_json", "TEXT", 1, 0),
            ("truncation_json", "TEXT", 0, 0),
        ]),
        log_index_present: true,
        log_index_columns: vec!["stream_key".to_string(), "sequence".to_string()],
        domains_foreign_keys: vec![ForeignKeyInfo {
            table: "entrypoints".to_string(),
            from: "entrypoint_key".to_string(),
            to: "entrypoint_key".to_string(),
            on_delete: "CASCADE".to_string(),
        }],
    }
}

#[test]
fn the_exact_schema_is_accepted() {
    assert!(validate_schema(&exact_schema()).is_ok());
}

#[test]
fn any_schema_difference_is_rejected() {
    let mut extra_table = exact_schema();
    extra_table.tables.push("unexpected".to_string());
    assert!(validate_schema(&extra_table).is_err());

    let mut nullable = exact_schema();
    nullable.domains_columns[2].not_null = 0;
    assert!(validate_schema(&nullable).is_err());

    let mut no_index = exact_schema();
    no_index.log_index_present = false;
    assert!(validate_schema(&no_index).is_err());

    let mut no_cascade = exact_schema();
    no_cascade.domains_foreign_keys[0].on_delete = "NO ACTION".to_string();
    assert!(validate_schema(&no_cascade).is_err());
}

#[test]
fn opening_decides_by_integrity_version_and_tables() {
    assert_eq!(initialization_step("ok", 0, false), InitializationStep::CreateSchema);
    assert_eq!(initialization_step("ok", 0, true), InitializationStep::Reject);
    assert_eq!(initialization_step("ok", 1, true), InitializationStep::ValidateSchema);
    assert_eq!(initialization_step("ok", 2, true), InitializationStep::Reject);
    assert_eq!(initialization_step("malformed", 1, true), InitializationStep::Reject);
}

#[test]
fn log_queries_clamp_and_classify() {
    assert_eq!(log_query_limit(0), 1);
    assert_eq!(log_query_limit(500), 200);
    assert_eq!(log_query_limit(50), 50);
    assert_eq!(log_stream_status(false, true), LogStreamStatus::Empty);
    assert_eq!(log_stream_status(false, false), LogStreamStatus::Removed);
    assert_eq!(log_stream_status(true, true), LogStreamStatus::Active);
    assert_eq!(log_stream_status(true, false), LogStreamStatus::Stale);
}

#[test]
fn legacy_cleanup_never_follows_links() {
    assert_eq!(
        legacy_cleanup_diagnostic("plans").message,
        "Cadder could not remove the legacy storage artifact `plans`; it will retry on the next start."
    );
    assert_eq!(legacy_cleanup_action(false, false, true, false), LegacyCleanup::Absent);
    assert_eq!(legacy_cleanup_action(true, true, true, true), LegacyCleanup::Refuse);
    assert_eq!(legacy_cleanup_action(true, false, false, false), LegacyCleanup::Refuse);
    assert_eq!(legacy_cleanup_action(true, false, true, true), LegacyCleanup::RemoveDirectory);
    assert_eq!(legacy_cleanup_action(true, false, true, false), LegacyCleanup::RemoveFile);
}

#[test]
fn desired_state_restores_stored_flags() {
    let mut registration = EntrypointRegistration {
        registration_id: "r".to_string(),
        source_working_directory: "/work/r".to_string(),
        source_config_path: "r.Caddyfile".to_string(),
        registered_domains: vec![RegisteredDomain::active("a.localhost"), RegisteredDomain::active("b.localhost")],
        activation_state: ActivationState::Active,
    };
    apply_desired_state(
        &mut registration,
        Some(false),
        &vec![("b.localhost".to_string(), true), ("a.localhost".to_string(), false)],
    );
    assert_eq!(registration.activation_state, ActivationState::Inactive);
    assert_eq!(registration.registered_domains[0].activation_state, ActivationState::Inactive);
    assert_eq!(registration.registered_domains[1].activation_state, ActivationState::Active);
}

#[test]
fn persisted_desired_state_restores_into_a_fresh_registration() {
    let mut saved_b = RegisteredDomain::active("B.localhost");
    saved_b.activation_state = ActivationState::Inactive;
    let saved = EntrypointRegistration {
        registration_id: "reg-1".to_string(),
        source_working_directory: "/work/p".to_string(),
        source_config_path: "/work/p/Caddyfile".to_string(),
        registered_domains: vec![RegisteredDomain::active("a.localhost"), saved_b],
        activation_state: ActivationState::Inactive,
    };
    let rows = desired_state_rows(&saved);
    assert_eq!(rows.entrypoint.entrypoint_key, "/work/p");
    assert_eq!(rows.entrypoint.registration_id, "reg-1");
    assert_eq!(rows.entrypoint.caddyfile_path, "/work/p/Caddyfile");
    assert!(!rows.entrypoint.desired_enabled);
    assert_eq!(rows.domains, vec![("a.localhost".to_string(), true), ("b.localhost".to_string(), false)]);

    let mut fresh = EntrypointRegistration {
        registration_id: "reg-2".to_string(),
        source_working_directory: "/work/p".to_string(),
        source_config_path: "/work/p/Caddyfile".to_string(),
        registered_domains: vec![RegisteredDomain::active("a.localhost"), RegisteredDomain::active("B.localhost")],
        activation_state: ActivationState::Active,
    };
    apply_desired_state(&mut fresh, Some(rows.entrypoint.desired_enabled), &rows.domains);
    assert_eq!(fresh.activation_state, ActivationState::Inactive);
    assert_eq!(fresh.registered_domains[0].activation_state, ActivationState::Active);
    assert_eq!(fresh.registered_domains[1].activation_state, ActivationState::Inactive);
    assert_eq!(fresh.registration_id, "reg-2");
}
