//! The daemon's SQLite storage decisions: whether a database is created, validated or
//! rejected, the exact schema it must have, what persisted desired state changes in a
//! registration, and the status of a log query.
//!
//! The statements run around these checks; the checks see what the statements returned.

use vstd::prelude::*;
use crate::caddy_config::{ActivationState, DomainView, EntrypointRegistration, RegistrationView, domain_views};
use crate::logs::strings_view;
use crate::text::push_str;

verus! {

/// The schema version this daemon writes and accepts.
pub const SCHEMA_VERSION: i64 = 1;

/// What opening a database does next.
#[derive(Debug, Clone, Copy, PartialEq, Eq, Structural)]
pub enum InitializationStep {
    CreateSchema,
    ValidateSchema,
    Reject,
}

/// A database that fails its integrity check is rejected; version 0 is created only when it
/// holds no application table; version 1 is validated; any other version is rejected.
pub fn initialization_step(integrity: &str, version: i64, has_application_tables: bool) -> (r: InitializationStep)
    ensures
        integrity@ != "ok"@ ==> r == InitializationStep::Reject,
        integrity@ == "ok"@ ==> r == (if version == 0 && !has_application_tables {
            InitializationStep::CreateSchema
        } else if version == SCHEMA_VERSION {
            InitializationStep::ValidateSchema
        } else {
            InitializationStep::Reject
        }),
{
    if integrity.to_owned() != "ok".to_owned() {
        return InitializationStep::Reject;
    }
    if version == 0 {
        if has_application_tables {
            InitializationStep::Reject
        } else {
            InitializationStep::CreateSchema
        }
    } else if version == SCHEMA_VERSION {
        InitializationStep::ValidateSchema
    } else {
        InitializationStep::Reject
    }
}

/// One column as `PRAGMA table_info` reports it: name, declared type, not-null flag and
/// primary-key position.
#[derive(Debug, Clone)]
pub struct ColumnInfo {
    pub name: String,
    pub kind: String,
    pub not_null: i64,
    pub primary_key: i64,
}

/// One foreign key as `PRAGMA foreign_key_list` reports it: referenced table, source
/// column, referenced column and delete action.
#[derive(Debug, Clone)]
pub struct ForeignKeyInfo {
    pub table: String,
    pub from: String,
    pub to: String,
    pub on_delete: String,
}

/// What the schema queries of a version-1 database returned.
#[derive(Debug, Clone)]
pub struct ObservedSchema {
    /// The application tables, by name.
    pub tables: Vec<String>,
    pub entrypoints_columns: Vec<ColumnInfo>,
    pub domains_columns: Vec<ColumnInfo>,
    pub log_events_columns: Vec<ColumnInfo>,
    /// Whether the log index exists.
    pub log_index_present: bool,
    /// The columns of the log index, in order.
    pub log_index_columns: Vec<String>,
    pub domains_foreign_keys: Vec<ForeignKeyInfo>,
}

/// A column's expected shape.
pub struct ColumnSpec {
    pub name: Seq<char>,
    pub kind: Seq<char>,
    pub not_null: i64,
    pub primary_key: i64,
}

/// The view of an observed column.
pub open spec fn column_view(c: ColumnInfo) -> ColumnSpec {
    ColumnSpec { name: c.name@, kind: c.kind@, not_null: c.not_null, primary_key: c.primary_key }
}

/// The views of observed columns.
pub open spec fn columns_view(cs: Seq<ColumnInfo>) -> Seq<ColumnSpec> {
    cs.map_values(|c: ColumnInfo| column_view(c))
}

/// A column's expected shape.
pub open spec fn col(name: Seq<char>, kind: Seq<char>, not_null: i64, primary_key: i64) -> ColumnSpec {
    ColumnSpec { name, kind, not_null, primary_key }
}

/// The columns of `entrypoints`.
pub open spec fn entrypoints_schema() -> Seq<ColumnSpec> {
    seq![
        col("entrypoint_key"@, "TEXT"@, 1, 1),
        col("registration_id"@, "TEXT"@, 1, 0),
        col("project_root"@, "TEXT"@, 1, 0),
        col("caddyfile_path"@, "TEXT"@, 1, 0),
        col("desired_enabled"@, "INTEGER"@, 1, 0),
    ]
}

/// The columns of `domains`.
pub open spec fn domains_schema() -> Seq<ColumnSpec> {
    seq![
        col("entrypoint_key"@, "TEXT"@, 1, 1),
        col("domain_key"@, "TEXT"@, 1, 2),
        col("canonical_host"@, "TEXT"@, 1, 0),
        col("desired_enabled"@, "INTEGER"@, 1, 0),
    ]
}

/// The columns of `log_events`.
pub open spec fn log_events_schema() -> Seq<ColumnSpec> {
    seq![
        col("sequence"@, "INTEGER"@, 0, 1),
        col("stream_key"@, "TEXT"@, 1, 0),
        col("timestamp"@, "TEXT"@, 1, 0),
        col("source"@, "TEXT"@, 1, 0),
        col("severity"@, "TEXT"@, 1, 0),
        col("event_name"@, "TEXT"@, 1, 0),
        col("message"@, "TEXT"@, 1, 0),
        col("entrypoint_key"@, "TEXT"@, 0, 0),
        col("domain_key"@, "TEXT"@, 0, 0),
        col("request_id"@, "TEXT"@, 0, 0),
        col("fields_json"@, "TEXT"@, 1, 0),
        col("redaction_json"@, "TEXT"@, 1, 0),
        col("truncation_json"@, "TEXT"@, 0, 0),
    ]
}

/// The exact schema that version 1 has: its three tables and their columns, the log index
/// on stream and sequence, and the cascading link from domains to entrypoints.
pub open spec fn schema_is_exact(s: ObservedSchema) -> bool {
    &&& strings_view(s.tables@) == seq!["domains"@, "entrypoints"@, "log_events"@]
    &&& columns_view(s.entrypoints_columns@) == entrypoints_schema()
    &&& columns_view(s.domains_columns@) == domains_schema()
    &&& columns_view(s.log_events_columns@) == log_events_schema()
    &&& s.log_index_present
    &&& strings_view(s.log_index_columns@) == seq!["stream_key"@, "sequence"@]
    &&& s.domains_foreign_keys@.len() == 1
    &&& s.domains_foreign_keys@[0].table@ == "entrypoints"@
    &&& s.domains_foreign_keys@[0].from@ == "entrypoint_key"@
    &&& s.domains_foreign_keys@[0].to@ == "entrypoint_key"@
    &&& s.domains_foreign_keys@[0].on_delete@ == "CASCADE"@
}

/// Whether the observed names are exactly `expected`, in order.
fn names_are(actual: &Vec<String>, expected: &Vec<&str>) -> (r: bool)
    ensures
        r == (strings_view(actual@) == expected@.map_values(|e: &str| e@)),
{
    if actual.len() != expected.len() {
        proof {
            assert(strings_view(actual@).len() != expected@.map_values(|e: &str| e@).len());
        }
        return false;
    }
    let mut i: usize = 0;
    while i < actual.len()
        invariant
            i <= actual.len(),
            actual.len() == expected.len(),
            forall|k: int| 0 <= k < i ==> actual@[k]@ == expected@[k]@,
        decreases actual.len() - i,
    {
        if actual[i].as_str().to_owned() != expected[i].to_owned() {
            proof {
                assert(strings_view(actual@)[i as int] != expected@.map_values(|e: &str| e@)[i as int]);
            }
            return false;
        }
        i = i + 1;
    }
    assert(strings_view(actual@) =~= expected@.map_values(|e: &str| e@));
    true
}

/// Whether the observed columns are exactly `expected`, in order.
fn columns_are(actual: &Vec<ColumnInfo>, expected: &Vec<(&str, &str, i64, i64)>) -> (r: bool)
    ensures
        r == (columns_view(actual@) == expected@.map_values(|e: (&str, &str, i64, i64)| col(e.0@, e.1@, e.2, e.3))),
{
    let ghost ev = expected@.map_values(|e: (&str, &str, i64, i64)| col(e.0@, e.1@, e.2, e.3));
    if actual.len() != expected.len() {
        proof {
            assert(columns_view(actual@).len() != ev.len());
        }
        return false;
    }
    let mut i: usize = 0;
    while i < actual.len()
        invariant
            i <= actual.len(),
            actual.len() == expected.len(),
            ev == expected@.map_values(|e: (&str, &str, i64, i64)| col(e.0@, e.1@, e.2, e.3)),
            forall|k: int| 0 <= k < i ==> #[trigger] columns_view(actual@)[k] == ev[k],
        decreases actual.len() - i,
    {
        let a = &actual[i];
        let e = expected[i];
        if a.name.as_str().to_owned() != e.0.to_owned() || a.kind.as_str().to_owned() != e.1.to_owned()
            || a.not_null != e.2 || a.primary_key != e.3 {
            proof {
                assert(columns_view(actual@)[i as int] != ev[i as int]);
            }
            return false;
        }
        proof {
            assert(columns_view(actual@)[i as int] == ev[i as int]);
        }
        i = i + 1;
    }
    assert(columns_view(actual@) =~= ev);
    true
}

/// The schema is not the one version 1 defines.
#[derive(Debug, Clone, Copy, PartialEq, Eq, Structural)]
pub struct InvalidSchema;

/// Accepts exactly the schema of version 1.
pub fn validate_schema(observed: &ObservedSchema) -> (r: Result<(), InvalidSchema>)
    ensures
        r is Ok <==> schema_is_exact(*observed),
{
    let tables: Vec<&str> = vec!["domains", "entrypoints", "log_events"];
    if !names_are(&observed.tables, &tables) {
        proof {
            assert(tables@.map_values(|e: &str| e@) =~= seq!["domains"@, "entrypoints"@, "log_events"@]);
        }
        return Err(InvalidSchema);
    }
    proof {
        assert(tables@.map_values(|e: &str| e@) =~= seq!["domains"@, "entrypoints"@, "log_events"@]);
    }
    let entrypoints: Vec<(&str, &str, i64, i64)> = vec![
        ("entrypoint_key", "TEXT", 1, 1),
        ("registration_id", "TEXT", 1, 0),
        ("project_root", "TEXT", 1, 0),
        ("caddyfile_path", "TEXT", 1, 0),
        ("desired_enabled", "INTEGER", 1, 0),
    ];
    let ok_entrypoints = columns_are(&observed.entrypoints_columns, &entrypoints);
    proof {
        assert(entrypoints@.map_values(|e: (&str, &str, i64, i64)| col(e.0@, e.1@, e.2, e.3)) =~= entrypoints_schema());
    }
    if !ok_entrypoints {
        return Err(InvalidSchema);
    }
    let domains: Vec<(&str, &str, i64, i64)> = vec![
        ("entrypoint_key", "TEXT", 1, 1),
        ("domain_key", "TEXT", 1, 2),
        ("canonical_host", "TEXT", 1, 0),
        ("desired_enabled", "INTEGER", 1, 0),
    ];
    let ok_domains = columns_are(&observed.domains_columns, &domains);
    proof {
        assert(domains@.map_values(|e: (&str, &str, i64, i64)| col(e.0@, e.1@, e.2, e.3)) =~= domains_schema());
    }
    if !ok_domains {
        return Err(InvalidSchema);
    }
    let log_events: Vec<(&str, &str, i64, i64)> = vec![
        ("sequence", "INTEGER", 0, 1),
        ("stream_key", "TEXT", 1, 0),
        ("timestamp", "TEXT", 1, 0),
        ("source", "TEXT", 1, 0),
        ("severity", "TEXT", 1, 0),
        ("event_name", "TEXT", 1, 0),
        ("message", "TEXT", 1, 0),
        ("entrypoint_key", "TEXT", 0, 0),
        ("domain_key", "TEXT", 0, 0),
        ("request_id", "TEXT", 0, 0),
        ("fields_json", "TEXT", 1, 0),
        ("redaction_json", "TEXT", 1, 0),
        ("truncation_json", "TEXT", 0, 0),
    ];
    let ok_log_events = columns_are(&observed.log_events_columns, &log_events);
    proof {
        assert(log_events@.map_values(|e: (&str, &str, i64, i64)| col(e.0@, e.1@, e.2, e.3)) =~= log_events_schema());
    }
    if !ok_log_events {
        return Err(InvalidSchema);
    }
    if !observed.log_index_present {
        return Err(InvalidSchema);
    }
    let index: Vec<&str> = vec!["stream_key", "sequence"];
    let ok_index = names_are(&observed.log_index_columns, &index);
    proof {
        assert(index@.map_values(|e: &str| e@) =~= seq!["stream_key"@, "sequence"@]);
    }
    if !ok_index {
        return Err(InvalidSchema);
    }
    let fks = &observed.domains_foreign_keys;
    if fks.len() != 1 {
        return Err(InvalidSchema);
    }
    let fk = &fks[0];
    if fk.table.as_str().to_owned() != "entrypoints".to_owned() || fk.from.as_str().to_owned()
        != "entrypoint_key".to_owned() || fk.to.as_str().to_owned() != "entrypoint_key".to_owned()
        || fk.on_delete.as_str().to_owned() != "CASCADE".to_owned() {
        return Err(InvalidSchema);
    }
    Ok(())
}

/// The status of a queried log stream.
#[derive(Debug, Clone, Copy, PartialEq, Eq, Structural)]
pub enum LogStreamStatus {
    Active,
    Empty,
    Stale,
    Removed,
}

/// A live stream is active or empty; a stream whose owner is gone is stale, or removed
/// once it holds nothing.
pub fn log_stream_status(has_entries: bool, stream_is_active: bool) -> (r: LogStreamStatus)
    ensures
        r == (if !has_entries {
            if stream_is_active {
                LogStreamStatus::Empty
            } else {
                LogStreamStatus::Removed
            }
        } else if stream_is_active {
            LogStreamStatus::Active
        } else {
            LogStreamStatus::Stale
        }),
{
    if !has_entries {
        if stream_is_active {
            LogStreamStatus::Empty
        } else {
            LogStreamStatus::Removed
        }
    } else if stream_is_active {
        LogStreamStatus::Active
    } else {
        LogStreamStatus::Stale
    }
}

/// The number of entries a log query reads: the requested limit kept within 1 and 200.
pub fn log_query_limit(limit: usize) -> (r: i64)
    ensures
        r == (if limit < 1 {
            1
        } else if limit > 200 {
            200
        } else {
            limit as int
        }),
{
    if limit < 1 {
        1
    } else if limit > 200 {
        200
    } else {
        limit as i64
    }
}

/// A problem found while opening the runtime's storage.
#[derive(Debug, Clone)]
pub struct RuntimeDiagnostic {
    pub code: String,
    pub message: String,
    pub operation: Option<String>,
}

/// The diagnostic of a legacy artifact that could not be removed.
pub fn legacy_cleanup_diagnostic(name: &str) -> (r: RuntimeDiagnostic)
    ensures
        r.code@ == "legacy-storage-cleanup-failed"@,
        r.message@ == "Cadder could not remove the legacy storage artifact `"@ + name@
            + "`; it will retry on the next start."@,
        r.operation matches Some(o) && o@ == "legacy-storage-cleanup"@,
{
    let mut message = "Cadder could not remove the legacy storage artifact `".to_owned();
    push_str(&mut message, name);
    push_str(&mut message, "`; it will retry on the next start.");
    RuntimeDiagnostic {
        code: "legacy-storage-cleanup-failed".to_owned(),
        message,
        operation: Some("legacy-storage-cleanup".to_owned()),
    }
}

/// What removing one legacy artifact does.
#[derive(Debug, Clone, Copy, PartialEq, Eq, Structural)]
pub enum LegacyCleanup {
    /// Nothing is there.
    Absent,
    RemoveDirectory,
    RemoveFile,
    /// A link, or a path outside the data directory, is never removed.
    Refuse,
}

/// A missing artifact needs nothing; a link or a path outside the data directory is
/// refused; otherwise a directory is removed with its contents and anything else as a file.
pub fn legacy_cleanup_action(present: bool, is_symlink: bool, inside_data_dir: bool, is_dir: bool) -> (r: LegacyCleanup)
    ensures
        r == (if !present {
            LegacyCleanup::Absent
        } else if is_symlink || !inside_data_dir {
            LegacyCleanup::Refuse
        } else if is_dir {
            LegacyCleanup::RemoveDirectory
        } else {
            LegacyCleanup::RemoveFile
        }),
{
    if !present {
        LegacyCleanup::Absent
    } else if is_symlink || !inside_data_dir {
        LegacyCleanup::Refuse
    } else if is_dir {
        LegacyCleanup::RemoveDirectory
    } else {
        LegacyCleanup::RemoveFile
    }
}

/// The desired state persisted for domain `c`: the last stored row for it.
pub open spec fn stored_domain_state(rows: Seq<(Seq<char>, bool)>, c: Seq<char>) -> Option<bool>
    decreases rows.len(),
{
    if rows.len() == 0 {
        None
    } else if rows.last().0 == c {
        Some(rows.last().1)
    } else {
        stored_domain_state(rows.drop_last(), c)
    }
}

/// A domain with its persisted desired state applied, when there is one.
pub open spec fn restored_domain(d: DomainView, rows: Seq<(Seq<char>, bool)>) -> DomainView {
    match stored_domain_state(rows, d.canonical) {
        Some(enabled) => DomainView { enabled, ..d },
        None => d,
    }
}

proof fn lemma_stored_state_absent(rows: Seq<(Seq<char>, bool)>, c: Seq<char>)
    requires
        forall|j: int| 0 <= j < rows.len() ==> (#[trigger] rows[j]).0 != c,
    ensures
        stored_domain_state(rows, c) is None,
    decreases rows.len(),
{
    if rows.len() > 0 {
        assert(rows.last() == rows[rows.len() - 1]);
        lemma_stored_state_absent(rows.drop_last(), c);
    }
}

proof fn lemma_stored_state_last(rows: Seq<(Seq<char>, bool)>, c: Seq<char>, j: int)
    requires
        0 <= j < rows.len(),
        rows[j].0 == c,
        forall|k: int| j < k < rows.len() ==> (#[trigger] rows[k]).0 != c,
    ensures
        stored_domain_state(rows, c) == Some(rows[j].1),
    decreases rows.len(),
{
    if j < rows.len() - 1 {
        assert(rows.last() == rows[rows.len() - 1]);
        assert forall|k: int| j < k < rows.drop_last().len() implies (#[trigger] rows.drop_last()[k]).0 != c by {
            assert(rows.drop_last()[k] == rows[k]);
        }
        assert(rows.drop_last()[j] == rows[j]);
        lemma_stored_state_last(rows.drop_last(), c, j);
    }
}

/// Restoring desired state touches only what was stored: a domain whose canonical name is in
/// no stored row keeps its activation state (and everything else); a domain with stored rows
/// takes the flag of the last of them and keeps everything but its activation state.
pub proof fn lemma_restore_changes_only_stored_domains(d: DomainView, rows: Seq<(Seq<char>, bool)>)
    ensures
        (forall|j: int| 0 <= j < rows.len() ==> (#[trigger] rows[j]).0 != d.canonical) ==> restored_domain(d, rows) == d,
        forall|j: int|
            0 <= j < rows.len() && (#[trigger] rows[j]).0 == d.canonical && (forall|k: int| j < k < rows.len() ==> (#[trigger] rows[k]).0
                != d.canonical) ==> restored_domain(d, rows) == (DomainView { enabled: rows[j].1, ..d }),
{
    if forall|j: int| 0 <= j < rows.len() ==> (#[trigger] rows[j]).0 != d.canonical {
        lemma_stored_state_absent(rows, d.canonical);
    }
    assert forall|j: int|
        0 <= j < rows.len() && (#[trigger] rows[j]).0 == d.canonical && (forall|k: int| j < k < rows.len() ==> (#[trigger] rows[k]).0
            != d.canonical) implies restored_domain(d, rows) == (DomainView { enabled: rows[j].1, ..d }) by {
        lemma_stored_state_last(rows, d.canonical, j);
    }
}

/// Applying desired state to a registration's domains (as `apply_desired_state` does) keeps
/// every domain that no stored row names exactly as it was, in its place.
pub proof fn lemma_apply_keeps_unstored_domains(domains: Seq<DomainView>, rows: Seq<(Seq<char>, bool)>, k: int)
    requires
        0 <= k < domains.len(),
        forall|j: int| 0 <= j < rows.len() ==> (#[trigger] rows[j]).0 != domains[k].canonical,
    ensures
        domains.map_values(|d: DomainView| restored_domain(d, rows)).len() == domains.len(),
        domains.map_values(|d: DomainView| restored_domain(d, rows))[k] == domains[k],
{
    lemma_restore_changes_only_stored_domains(domains[k], rows);
}

/// The view of stored domain rows.
pub open spec fn rows_view(rows: Seq<(String, bool)>) -> Seq<(Seq<char>, bool)> {
    rows.map_values(|r: (String, bool)| (r.0@, r.1))
}

fn stored_state_for(rows: &Vec<(String, bool)>, canonical: &str) -> (r: Option<bool>)
    ensures
        r == stored_domain_state(rows_view(rows@), canonical@),
{
    let ghost rv = rows_view(rows@);
    let mut i: usize = rows.len();
    assert(rv.subrange(0, rv.len() as int) =~= rv);
    while i > 0
        invariant
            i <= rows.len(),
            rv == rows_view(rows@),
            stored_domain_state(rv, canonical@) == stored_domain_state(rv.subrange(0, i as int), canonical@),
        decreases i,
    {
        let ghost pre = rv.subrange(0, i as int);
        assert(pre.drop_last() =~= rv.subrange(0, i - 1));
        assert(pre.last() == rv[i - 1]);
        if rows[i - 1].0.as_str().to_owned() == canonical.to_owned() {
            return Some(rows[i - 1].1);
        }
        i = i - 1;
    }
    None
}

fn activation_state_from_enabled(enabled: bool) -> (r: ActivationState)
    ensures
        (r == ActivationState::Active) == enabled,
{
    if enabled {
        ActivationState::Active
    } else {
        ActivationState::Inactive
    }
}

/// Applies persisted desired state to a registration: the stored entrypoint flag when there
/// is one, and each domain's stored flag, found by canonical name.
pub fn apply_desired_state(registration: &mut EntrypointRegistration, entrypoint_enabled: Option<bool>, domain_rows: &Vec<(String, bool)>)
    ensures
        final(registration)@ == (RegistrationView {
            enabled: match entrypoint_enabled {
                Some(e) => e,
                None => old(registration)@.enabled,
            },
            domains: old(registration)@.domains.map_values(
                |d: DomainView| restored_domain(d, rows_view(domain_rows@)),
            ),
            ..old(registration)@
        }),
{
    match entrypoint_enabled {
        Some(enabled) => {
            registration.activation_state = activation_state_from_enabled(enabled);
        },
        None => {},
    }
    let ghost rows = rows_view(domain_rows@);
    let mut domains: Vec<crate::caddy_config::RegisteredDomain> = Vec::new();
    std::mem::swap(&mut domains, &mut registration.registered_domains);
    let ghost dv = domain_views(domains@);
    let n = domains.len();
    let mut restored: Vec<crate::caddy_config::RegisteredDomain> = Vec::new();
    let mut k: usize = 0;
    assert(domain_views(domains@) =~= dv.subrange(0, n as int));
    while domains.len() > 0
        invariant
            k + domains.len() == n,
            n == dv.len(),
            rows == rows_view(domain_rows@),
            domain_views(domains@) == dv.subrange(k as int, n as int),
            domain_views(restored@) == dv.subrange(0, k as int).map_values(|d: DomainView| restored_domain(d, rows)),
        decreases domains.len(),
    {
        let ghost prev = domains@;
        let mut d = domains.remove(0);
        proof {
            assert(domain_views(prev)[0] == dv[k as int]);
            assert(domains@ =~= prev.subrange(1, prev.len() as int));
            assert(domain_views(domains@) =~= domain_views(prev).subrange(1, prev.len() as int));
            assert(dv.subrange(k as int, n as int).subrange(1, prev.len() as int) =~= dv.subrange(k + 1, n as int));
        }
        match stored_state_for(domain_rows, d.name.canonical.as_str()) {
            Some(enabled) => {
                d.activation_state = activation_state_from_enabled(enabled);
            },
            None => {},
        }
        let ghost prev_restored = restored@;
        restored.push(d);
        proof {
            assert(domain_views(restored@) =~= domain_views(prev_restored).push(d@));
            assert(dv.subrange(0, k + 1) =~= dv.subrange(0, k as int).push(dv[k as int]));
            assert(dv.subrange(0, k + 1).map_values(|d: DomainView| restored_domain(d, rows)) =~= dv.subrange(
                0,
                k as int,
            ).map_values(|d: DomainView| restored_domain(d, rows)).push(restored_domain(dv[k as int], rows)));
        }
        k = k + 1;
    }
    assert(dv.subrange(0, n as int) =~= dv);
    registration.registered_domains = restored;
}

/// The entrypoint row persisted for a registration.
#[derive(Debug, Clone)]
pub struct EntrypointStateRow {
    pub entrypoint_key: String,
    pub registration_id: String,
    pub project_root: String,
    pub caddyfile_path: String,
    pub desired_enabled: bool,
}

/// What is persisted for a registration: its entrypoint row, and for each domain its
/// canonical name and whether it is enabled.
#[derive(Debug, Clone)]
pub struct DesiredStateRows {
    pub entrypoint: EntrypointStateRow,
    pub domains: Vec<(String, bool)>,
}

/// Each domain's canonical name and whether it is enabled, in order.
pub open spec fn domain_state_rows(ds: Seq<DomainView>) -> Seq<(Seq<char>, bool)> {
    ds.map_values(|d: DomainView| (d.canonical, d.enabled))
}

/// The rows that persisting a registration's desired state writes: the entrypoint keyed by
/// its working directory, and one row per domain keyed by its canonical name.
pub fn desired_state_rows(registration: &EntrypointRegistration) -> (r: DesiredStateRows)
    ensures
        r.entrypoint.entrypoint_key@ == registration@.working_directory,
        r.entrypoint.registration_id@ == registration@.id,
        r.entrypoint.project_root@ == registration@.working_directory,
        r.entrypoint.caddyfile_path@ == registration@.path,
        r.entrypoint.desired_enabled == registration@.enabled,
        rows_view(r.domains@) == domain_state_rows(registration@.domains),
{
    let mut domains: Vec<(String, bool)> = Vec::new();
    let ghost dv = registration@.domains;
    let mut i: usize = 0;
    while i < registration.registered_domains.len()
        invariant
            i <= registration.registered_domains.len(),
            dv == domain_views(registration.registered_domains@),
            rows_view(domains@) == domain_state_rows(dv.subrange(0, i as int)),
        decreases registration.registered_domains.len() - i,
    {
        let d = &registration.registered_domains[i];
        let row = (d.name.canonical.clone(), d.activation_state.is_enabled());
        let ghost prev = domains@;
        domains.push(row);
        proof {
            assert(dv[i as int] == d@);
            assert(rows_view(domains@) =~= rows_view(prev).push((d@.canonical, d@.enabled)));
            assert(dv.subrange(0, i + 1) =~= dv.subrange(0, i as int).push(dv[i as int]));
            assert(domain_state_rows(dv.subrange(0, i + 1)) =~= domain_state_rows(dv.subrange(0, i as int)).push(
                (d@.canonical, d@.enabled),
            ));
        }
        i = i + 1;
    }
    assert(dv.subrange(0, dv.len() as int) =~= dv);
    DesiredStateRows {
        entrypoint: EntrypointStateRow {
            entrypoint_key: registration.source_working_directory.clone(),
            registration_id: registration.registration_id.clone(),
            project_root: registration.source_working_directory.clone(),
            caddyfile_path: registration.source_config_path.clone(),
            desired_enabled: registration.activation_state.is_enabled(),
        },
        domains,
    }
}

/// No two domains share a canonical name.
pub open spec fn distinct_canonical(ds: Seq<DomainView>) -> bool {
    forall|i: int, j: int| 0 <= i < j < ds.len() ==> (#[trigger] ds[i]).canonical != (#[trigger] ds[j]).canonical
}

proof fn lemma_stored_state_of_distinct(ds: Seq<DomainView>, i: int)
    requires
        distinct_canonical(ds),
        0 <= i < ds.len(),
    ensures
        stored_domain_state(domain_state_rows(ds), ds[i].canonical) == Some(ds[i].enabled),
    decreases ds.len(),
{
    let rows = domain_state_rows(ds);
    if i < ds.len() - 1 {
        assert(ds[ds.len() - 1].canonical != ds[i].canonical);
        assert(rows.drop_last() =~= domain_state_rows(ds.drop_last()));
        assert(distinct_canonical(ds.drop_last())) by {
            assert forall|a: int, b: int| 0 <= a < b < ds.drop_last().len() implies (#[trigger] ds.drop_last()[a]).canonical
                != (#[trigger] ds.drop_last()[b]).canonical by {
                assert(ds.drop_last()[a] == ds[a]);
                assert(ds.drop_last()[b] == ds[b]);
            }
        }
        lemma_stored_state_of_distinct(ds.drop_last(), i);
        assert(ds.drop_last()[i] == ds[i]);
    }
}

/// Restoring what was persisted for a registration gives its desired state back: a
/// registration with the same domains in the same order, whatever their states, comes back
/// enabled as the persisted one was, and each of its domains enabled as the persisted
/// domain of that name was. The domains' canonical names are distinct, as the storage's
/// key on them demands.
pub proof fn lemma_persisted_state_restores(saved: RegistrationView, current: RegistrationView)
    requires
        distinct_canonical(saved.domains),
        current.domains.len() == saved.domains.len(),
        forall|i: int| 0 <= i < saved.domains.len() ==> (#[trigger] current.domains[i]).canonical == saved.domains[i].canonical,
    ensures
        forall|i: int| 0 <= i < saved.domains.len() ==> #[trigger] restored_domain(current.domains[i], domain_state_rows(saved.domains))
            == (DomainView { enabled: saved.domains[i].enabled, ..current.domains[i] }),
{
    assert forall|i: int| 0 <= i < saved.domains.len() implies #[trigger] restored_domain(current.domains[i], domain_state_rows(saved.domains))
        == (DomainView { enabled: saved.domains[i].enabled, ..current.domains[i] }) by {
        lemma_stored_state_of_distinct(saved.domains, i);
        assert(current.domains[i].canonical == saved.domains[i].canonical);
    }
}

} // verus!
