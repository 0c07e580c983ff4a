use cadder::context::{OperatorContext, RuntimePaths};
use cadder::data_model::{Snapshot, SnapshotDomain, SnapshotEntrypoint};
use cadder::launch::DaemonLaunchOptions;
use cadder::operator::{AppExit, DomainSelector};
use cadder::selection::{resolve_domain, DomainResolveError};

fn registration(id: &str, domains: &[&str]) -> SnapshotEntrypoint {
    SnapshotEntrypoint {
        registration_id: id.to_string(),
        working_directory: format!("/work/{id}"),
        enabled: true,
        domains: domains
            .iter()
            .map(|d| SnapshotDomain {
                domain: d.to_string(),
                canonical_domain: d.to_string(),
                enabled: true,
                upstream: None,
            })
            .collect(),
    }
}

fn context() -> OperatorContext {
    OperatorContext::from_paths(
        RuntimePaths::from_runtime_dir("/tmp/cadder-selection/runtime".to_string()),
        DaemonLaunchOptions::default(),
    )
}

#[test]
fn select_domain_returns_precise_operator_errors() {
    let context = context();
    let snapshot = Snapshot {
        registrations: vec![
            registration("shim-1", &["app.localhost"]),
            registration("shim-2", &["app.localhost", "api.localhost"]),
        ],
    };

    let selected = context
        .select_domain(
            "domains enable",
            &snapshot,
            &DomainSelector { domain: "api.localhost".to_string(), registration: None },
        )
        .unwrap();
    assert_eq!(selected.registration_id, "shim-2");
    assert_eq!(selected.canonical_domain, "api.localhost");

    let missing = context
        .select_domain(
            "domains enable",
            &snapshot,
            &DomainSelector { domain: "missing.localhost".to_string(), registration: Some("shim-1".to_string()) },
        )
        .unwrap_err();
    assert_eq!(missing.kind, AppExit::TargetNotFound);
    assert!(missing.message.contains("shim-1"));

    let missing_any_entrypoint = context
        .select_domain(
            "domains enable",
            &snapshot,
            &DomainSelector { domain: "missing.localhost".to_string(), registration: None },
        )
        .unwrap_err();
    assert_eq!(missing_any_entrypoint.kind, AppExit::TargetNotFound);
    assert_eq!(missing_any_entrypoint.message, "Domain `missing.localhost` was not found.");

    let ambiguous = context
        .select_domain(
            "domains enable",
            &snapshot,
            &DomainSelector { domain: "app.localhost".to_string(), registration: None },
        )
        .unwrap_err();
    assert_eq!(ambiguous.kind, AppExit::ConflictOrRejected);
    assert!(ambiguous.message.contains("shim-1, shim-2"));
}

#[test]
fn resolve_domain_compares_canonical_names_within_the_asked_entrypoint() {
    let snapshot = Snapshot {
        registrations: vec![
            registration("shim-1", &["app.localhost"]),
            registration("shim-2", &["app.localhost"]),
        ],
    };
    let selected = resolve_domain(&snapshot, " App.Localhost. ", Some("shim-2")).unwrap();
    assert_eq!(selected.registration_id, "shim-2");
    assert_eq!(selected.canonical_domain, "app.localhost");
    assert_eq!(
        resolve_domain(&snapshot, "app.localhost", None),
        Err(DomainResolveError::Ambiguous {
            canonical_domain: "app.localhost".to_string(),
            matches: vec!["shim-1".to_string(), "shim-2".to_string()],
        })
    );
    assert_eq!(
        resolve_domain(&snapshot, "app.localhost", Some("shim-3")),
        Err(DomainResolveError::NotFound {
            canonical_domain: "app.localhost".to_string(),
            requested_registration: Some("shim-3".to_string()),
        })
    );
    let error = context()
        .select_domain(
            "domains enable",
            &snapshot,
            &DomainSelector { domain: "other.localhost".to_string(), registration: Some("shim-3".to_string()) },
        )
        .unwrap_err();
    assert_eq!(error.message, "Domain `other.localhost` was not found under entrypoint `shim-3`.");
    assert_eq!(error.guidance.as_deref(), Some("Run `cadder domains list` to inspect the current domain registrations."));
}
