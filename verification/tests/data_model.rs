use cadder::data_model::{
    project_name_emphasis_start_with_root, DataModel, DomainRowKind, EntityId, Snapshot, SnapshotDomain,
    SnapshotEntrypoint,
};
use std::path::Path;

fn registration(id: &str, project: &str, enabled: bool, domains: &[(&str, bool, &str)]) -> SnapshotEntrypoint {
    SnapshotEntrypoint {
        registration_id: id.to_string(),
        working_directory: project.to_string(),
        enabled,
        domains: domains
            .iter()
            .map(|(name, enabled, upstream)| SnapshotDomain {
                domain: name.to_string(),
                canonical_domain: name.to_string(),
                enabled: *enabled,
                upstream: Some(upstream.to_string()),
            })
            .collect(),
    }
}

fn populated_snapshot() -> Snapshot {
    Snapshot {
        registrations: vec![
            registration(
                "entry-1",
                "workspace/project-1",
                true,
                &[("app.localhost", true, "127.0.0.1:3000"), ("api.localhost", false, "localhost:4000")],
            ),
            registration("entry-2", "workspace/project-2", false, &[("disabled.localhost", true, "[::1]:5000")]),
        ],
    }
}

fn defaults(snapshot: &Snapshot) -> Vec<usize> {
    snapshot
        .registrations
        .iter()
        .map(|entry| project_name_emphasis_start_with_root(&entry.working_directory, None))
        .collect()
}

#[test]
fn snapshot_drives_rows_and_mutations() {
    let mut model = DataModel::new();
    let snapshot = populated_snapshot();
    let starts = defaults(&snapshot);
    model.replace_snapshot(snapshot, &starts);

    let rows = model.domain_rows();
    assert_eq!(rows.len(), 5);
    assert_eq!(rows[0].kind(), DomainRowKind::Entrypoint);
    assert!(rows[0].enabled());
    assert!(rows[0].visually_enabled());
    assert_eq!(rows[0].name(), "workspace/project-1");
    assert_eq!(rows[0].endpoint(), "");
    assert!(!rows[0].is_last_in_project());
    assert_eq!(&rows[0].name()[rows[0].name_emphasis_start().unwrap()..], "project-1");
    let app = rows.iter().find(|row| row.name() == "app.localhost").unwrap();
    assert_eq!(app.kind(), DomainRowKind::Domain);
    assert!(app.enabled());
    assert!(app.visually_enabled());
    assert_eq!(app.endpoint(), "127.0.0.1:3000");
    assert!(app.is_last_in_project());

    let api = rows.iter().find(|row| row.name() == "api.localhost").unwrap();
    assert!(!api.enabled());
    assert!(!api.visually_enabled());
    assert!(!api.is_last_in_project());

    let disabled = rows.iter().find(|row| row.name() == "disabled.localhost").unwrap();
    assert!(!disabled.visually_enabled());
    assert!(disabled.is_last_in_project());

    for row in &rows {
        let entity = row.entity();
        let target = model.mutation_target(&entity).unwrap();
        assert_eq!(target.entity, entity);
        assert_eq!(target.enabled, !row.enabled());
    }

    model.clear_snapshot();
    assert!(model.domain_rows().is_empty());
    let missing = EntityId::Entrypoint("missing".to_string());
    assert!(model.mutation_target(&missing).is_none());
}

#[test]
fn rows_follow_working_directory_then_canonical_name() {
    let mut model = DataModel::new();
    let snapshot = Snapshot {
        registrations: vec![
            registration("b", "z-project", true, &[("b.localhost", true, "x:1"), ("a.localhost", true, "x:2")]),
            registration("a", "a-project", true, &[]),
        ],
    };
    let starts = defaults(&snapshot);
    model.replace_snapshot(snapshot, &starts);
    let names: Vec<String> = model.domain_rows().iter().map(|row| row.name().to_string()).collect();
    assert_eq!(names, ["a-project", "z-project", "a.localhost", "b.localhost"]);
}

#[test]
fn project_path_without_repository_emphasizes_only_last_component() {
    let path = Path::new("workspace").join("temporary").join("project-3");
    let path = path.to_string_lossy();
    let start = project_name_emphasis_start_with_root(&path, None);

    assert_eq!(&path[start..], "project-3");
}

#[test]
fn project_path_inside_repository_emphasizes_the_repo_relative_path() {
    let repo = Path::new("workspace").join("smarketing");
    let path = repo.join("apps").join("reverse-proxy");
    let path = path.to_string_lossy();
    let start = project_name_emphasis_start_with_root(&path, Some(&repo.to_string_lossy()));
    let expected = format!("{}apps{}reverse-proxy", std::path::MAIN_SEPARATOR, std::path::MAIN_SEPARATOR);

    assert_eq!(&path[start..], expected);
}

#[test]
fn table_has_a_row_per_project_and_domain_with_group_shape() {
    let mut model = DataModel::new();
    let snapshot = populated_snapshot();
    let starts = defaults(&snapshot);
    model.replace_snapshot(snapshot, &starts);
    let rows = model.domain_rows();
    assert_eq!(rows.iter().filter(|r| r.kind() == DomainRowKind::Entrypoint).count(), 2);
    assert_eq!(rows.len(), 2 + 3);
    assert_eq!(rows[0].kind(), DomainRowKind::Entrypoint);
    let mut project_enabled = false;
    for (i, row) in rows.iter().enumerate() {
        match row.kind() {
            DomainRowKind::Entrypoint => {
                project_enabled = row.enabled();
                assert_eq!(row.visually_enabled(), row.enabled());
                assert!(!row.is_last_in_project());
            },
            DomainRowKind::Domain => {
                let next_is_project = i + 1 == rows.len() || rows[i + 1].kind() == DomainRowKind::Entrypoint;
                assert_eq!(row.is_last_in_project(), next_is_project);
                assert_eq!(row.visually_enabled(), project_enabled && row.enabled());
            },
        }
    }
}
