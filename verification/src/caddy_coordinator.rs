//! The decisions of the daemon's Caddy configuration coordinator: what it remembers of each
//! prepared registration, when an apply is refused, stops Caddy or renders a new
//! configuration, and the state it reports after each outcome.
//!
//! Running Caddy, rendering the configuration and reading the clock happen around it; the
//! coordinator is told the times and the results.

use vstd::prelude::*;
use crate::json::{Json, JsonValue, jsons_of, copy_values, pretty_json, render_pretty};
use crate::discovery::{hex_encode, lower_hex};
use sha2::Digest;
use crate::caddy_config::{
    ConfigDiagnostic, DiagnosticView, EntrypointRegistration, PreparedRegistration, RegistrationView,
    RouteEntry, composed_config, compose_config, conflict_diagnostic, conflict_domains, copy_diagnostics,
    copy_strings, detect_conflicts, diagnostic_views, enabled_names, registration_views, route_table,
    active_domains, enabled_hosts, lemma_shared_domain_conflicts, owner_paths,
};
use crate::ordered::{lex_lt, text_lt, strictly_sorted};
use crate::logs::strings_view;
use crate::ipc_errors::opt_view;

verus! {

/// The outcome of the last configuration apply.
#[derive(Debug, Clone, Copy, PartialEq, Eq, Structural)]
pub enum ConfigApplyStatus {
    Idle,
    Applied,
    Failed,
}

/// The reported configuration state. Times are milliseconds since the Unix epoch.
#[derive(Debug)]
pub struct ConfigState {
    pub status: ConfigApplyStatus,
    pub last_attempted_at_utc: Option<i64>,
    pub last_successful_reload_at_utc: Option<i64>,
    pub effective_config_hash: Option<String>,
    pub diagnostics: Vec<ConfigDiagnostic>,
}

/// The view of a configuration state.
pub struct ConfigStateView {
    pub status: ConfigApplyStatus,
    pub attempted: Option<i64>,
    pub reloaded: Option<i64>,
    pub hash: Option<Seq<char>>,
    pub diagnostics: Seq<DiagnosticView>,
}

impl View for ConfigState {
    type V = ConfigStateView;

    open spec fn view(&self) -> ConfigStateView {
        ConfigStateView {
            status: self.status,
            attempted: self.last_attempted_at_utc,
            reloaded: self.last_successful_reload_at_utc,
            hash: opt_view(self.effective_config_hash),
            diagnostics: diagnostic_views(self.diagnostics@),
        }
    }
}

impl ConfigState {
    /// Nothing applied and nothing attempted.
    pub fn idle() -> (r: ConfigState)
        ensures
            r@ == (ConfigStateView {
                status: ConfigApplyStatus::Idle,
                attempted: None,
                reloaded: None,
                hash: None,
                diagnostics: Seq::empty(),
            }),
    {
        let r = ConfigState {
            status: ConfigApplyStatus::Idle,
            last_attempted_at_utc: None,
            last_successful_reload_at_utc: None,
            effective_config_hash: None,
            diagnostics: Vec::new(),
        };
        assert(diagnostic_views(r.diagnostics@) =~= Seq::<DiagnosticView>::empty());
        r
    }

    /// A copy of the state.
    pub fn copy(&self) -> (r: ConfigState)
        ensures
            r@ == self@,
    {
        ConfigState {
            status: self.status,
            last_attempted_at_utc: self.last_attempted_at_utc,
            last_successful_reload_at_utc: self.last_successful_reload_at_utc,
            effective_config_hash: match &self.effective_config_hash {
                Some(h) => Some(h.clone()),
                None => None,
            },
            diagnostics: copy_diagnostics(&self.diagnostics),
        }
    }
}

/// What the coordinator remembers of a prepared registration: its routes, or why it could
/// not be prepared.
#[derive(Debug)]
pub enum PreparedOutcome {
    Routes(Vec<JsonValue>),
    Diagnostics(Vec<ConfigDiagnostic>),
}

/// The view of an outcome.
pub enum OutcomeView {
    Routes(Seq<Json>),
    Diagnostics(Seq<DiagnosticView>),
}

/// The outcome remembered for one registration.
#[derive(Debug)]
pub struct PreparedRecord {
    pub registration_id: String,
    pub outcome: PreparedOutcome,
}

/// The view of an outcome.
pub open spec fn outcome_view(o: PreparedOutcome) -> OutcomeView {
    match o {
        PreparedOutcome::Routes(rs) => OutcomeView::Routes(jsons_of(rs@)),
        PreparedOutcome::Diagnostics(ds) => OutcomeView::Diagnostics(diagnostic_views(ds@)),
    }
}

/// The view of the remembered outcomes, in order.
pub open spec fn records_view(s: Seq<PreparedRecord>) -> Seq<(Seq<char>, OutcomeView)> {
    s.map_values(|r: PreparedRecord| (r.registration_id@, outcome_view(r.outcome)))
}

/// The identifiers of the remembered outcomes, in order.
pub open spec fn record_ids(t: Seq<(Seq<char>, OutcomeView)>) -> Seq<Seq<char>> {
    t.map_values(|e: (Seq<char>, OutcomeView)| e.0)
}

/// Where `id` goes among outcomes in ascending order of identifier.
pub open spec fn insert_pos(t: Seq<(Seq<char>, OutcomeView)>, id: Seq<char>) -> int
    decreases t.len(),
{
    if t.len() == 0 {
        0
    } else if lex_lt(t[0].0, id) {
        1 + insert_pos(t.drop_first(), id)
    } else {
        0
    }
}

/// The outcomes with `o` recorded for `id` at its place in ascending order: replacing the
/// outcome already recorded there for `id`, or inserted before the first larger identifier.
pub open spec fn upsert(t: Seq<(Seq<char>, OutcomeView)>, id: Seq<char>, o: OutcomeView) -> Seq<(Seq<char>, OutcomeView)> {
    let j = insert_pos(t, id);
    if j < t.len() && t[j].0 == id {
        t.update(j, (id, o))
    } else {
        t.insert(j, (id, o))
    }
}

/// The outcomes of the registrations in `ids`.
pub open spec fn retained(t: Seq<(Seq<char>, OutcomeView)>, ids: Set<Seq<char>>) -> Seq<(Seq<char>, OutcomeView)> {
    t.filter(|e: (Seq<char>, OutcomeView)| ids.contains(e.0))
}

/// The remembered diagnostics of the registrations in `ids`, in order.
pub open spec fn recorded_diagnostics(t: Seq<(Seq<char>, OutcomeView)>, ids: Set<Seq<char>>) -> Seq<DiagnosticView>
    decreases t.len(),
{
    if t.len() == 0 {
        Seq::empty()
    } else {
        recorded_diagnostics(t.drop_last(), ids) + match t.last().1 {
            OutcomeView::Diagnostics(ds) => if ids.contains(t.last().0) {
                ds
            } else {
                Seq::empty()
            },
            OutcomeView::Routes(_) => Seq::empty(),
        }
    }
}

/// The remembered routes, as a route table.
pub open spec fn recorded_routes(t: Seq<(Seq<char>, OutcomeView)>) -> Seq<(Seq<char>, Seq<Json>)>
    decreases t.len(),
{
    if t.len() == 0 {
        Seq::empty()
    } else {
        match t.last().1 {
            OutcomeView::Routes(rs) => recorded_routes(t.drop_last()).push((t.last().0, rs)),
            OutcomeView::Diagnostics(_) => recorded_routes(t.drop_last()),
        }
    }
}

/// The identifiers of the registrations.
pub open spec fn registration_ids(rs: Seq<RegistrationView>) -> Set<Seq<char>> {
    Set::new(|id: Seq<char>| exists|i: int| 0 <= i < rs.len() && #[trigger] rs[i].id == id)
}

/// The identifiers of the enabled registrations.
pub open spec fn enabled_registration_ids(rs: Seq<RegistrationView>) -> Set<Seq<char>> {
    Set::new(|id: Seq<char>| exists|i: int| 0 <= i < rs.len() && #[trigger] rs[i].id == id && rs[i].enabled)
}

/// The enabled registrations, in order.
pub open spec fn enabled_registrations(rs: Seq<RegistrationView>) -> Seq<RegistrationView> {
    rs.filter(|r: RegistrationView| r.enabled)
}

/// The SHA-256 digest of bytes.
pub uninterp spec fn sha256_digest(bytes: Seq<u8>) -> Seq<u8>;

/// Computes the SHA-256 digest of bytes with `sha2::Sha256::digest`: 32 bytes.
#[verifier::external_body]
fn sha256(bytes: &[u8]) -> (r: Vec<u8>)
    ensures
        r@ == sha256_digest(bytes@),
        r@.len() == 32,
{
    sha2::Sha256::digest(bytes).to_vec()
}

/// What the coordinator decided to do with the registrations.
#[derive(Debug)]
pub enum CaddyApplyAction {
    /// Nothing to apply: the state, which reports why.
    Current(ConfigState),
    /// No domain is enabled: stop Caddy.
    Stop { attempted: i64 },
    /// Render and apply this configuration, composed from these files.
    Apply { attempted: i64, config: JsonValue, rendered: Vec<u8>, hash: String, source_config_paths: Vec<String> },
}

/// The coordinator's memory: the outcome of each prepared registration, in ascending order
/// of identifier, and the reported state.
#[derive(Debug)]
pub struct CaddyConfigCoordinator {
    records: Vec<PreparedRecord>,
    current: ConfigState,
}

impl CaddyConfigCoordinator {
    /// The remembered outcomes.
    pub closed spec fn spec_records(&self) -> Seq<(Seq<char>, OutcomeView)> {
        records_view(self.records@)
    }

    /// The reported state.
    pub closed spec fn spec_current(&self) -> ConfigStateView {
        self.current@
    }

    /// The outcomes are kept in strictly ascending order of identifier.
    pub closed spec fn wf(&self) -> bool {
        strictly_sorted(record_ids(records_view(self.records@)))
    }

    /// A coordinator that remembers nothing and is idle.
    pub fn new() -> (r: CaddyConfigCoordinator)
        ensures
            r.wf(),
            r.spec_records() == Seq::<(Seq<char>, OutcomeView)>::empty(),
            r.spec_current() == (ConfigStateView {
                status: ConfigApplyStatus::Idle,
                attempted: None,
                reloaded: None,
                hash: None,
                diagnostics: Seq::empty(),
            }),
    {
        let r = CaddyConfigCoordinator { records: Vec::new(), current: ConfigState::idle() };
        assert(records_view(r.records@) =~= Seq::<(Seq<char>, OutcomeView)>::empty());
        assert(record_ids(records_view(r.records@)) =~= Seq::<Seq<char>>::empty());
        r
    }

    /// The reported state.
    pub fn current_state(&self) -> (r: ConfigState)
        ensures
            r@ == self.spec_current(),
    {
        self.current.copy()
    }

    /// The outcome remembered for a registration, if any.
    pub fn outcome(&self, registration_id: &str) -> (r: Option<&PreparedOutcome>)
        ensures
            match outcome_of(self.spec_records(), registration_id@) {
                Some(o) => r matches Some(x) && outcome_view(*x) == o,
                None => r is None,
            },
    {
        let ghost t = records_view(self.records@);
        let mut i: usize = 0;
        assert(t.subrange(0, t.len() as int) =~= t);
        while i < self.records.len()
            invariant
                i <= self.records.len(),
                t == records_view(self.records@),
                outcome_of(t, registration_id@) == outcome_of(t.subrange(i as int, t.len() as int), registration_id@),
            decreases self.records.len() - i,
        {
            let ghost rest = t.subrange(i as int, t.len() as int);
            assert(rest[0] == t[i as int]);
            if crate::ordered::text_eq(self.records[i].registration_id.as_str(), registration_id) {
                return Some(&self.records[i].outcome);
            }
            assert(rest.drop_first() =~= t.subrange(i + 1, t.len() as int));
            i = i + 1;
        }
        None
    }
}

/// The outcome remembered for `id`.
pub open spec fn outcome_of(t: Seq<(Seq<char>, OutcomeView)>, id: Seq<char>) -> Option<OutcomeView>
    decreases t.len(),
{
    if t.len() == 0 {
        None
    } else if t[0].0 == id {
        Some(t[0].1)
    } else {
        outcome_of(t.drop_first(), id)
    }
}

/// A diagnostic that names no file is attributed to `path`.
pub open spec fn sourced(d: DiagnosticView, path: Seq<char>) -> DiagnosticView {
    if d.paths.len() == 0 {
        DiagnosticView { paths: seq![path], ..d }
    } else {
        d
    }
}

/// The diagnostic of a failed runtime apply.
pub open spec fn runtime_apply_failed(message: Seq<char>, paths: Seq<Seq<char>>) -> DiagnosticView {
    DiagnosticView { code: "runtime-apply-failed"@, message, domain_key: None, paths }
}

/// The diagnostics that stop an apply: those remembered for enabled registrations, then the
/// conflicts between registrations.
pub open spec fn blocking_diagnostics(kept: Seq<(Seq<char>, OutcomeView)>, rs: Seq<RegistrationView>) -> Seq<DiagnosticView> {
    recorded_diagnostics(kept, enabled_registration_ids(rs)) + conflict_domains(rs).map_values(
        |d: Seq<char>| conflict_diagnostic(rs, d),
    )
}

/// No enabled registration enables a domain.
pub open spec fn nothing_enabled(active: Seq<RegistrationView>) -> bool {
    forall|i: int| 0 <= i < active.len() ==> enabled_names(#[trigger] active[i].domains).len() == 0
}

/// A failed state that keeps the last successful reload and hash.
pub open spec fn failed_state(old: ConfigStateView, attempted: i64, diagnostics: Seq<DiagnosticView>) -> ConfigStateView {
    ConfigStateView {
        status: ConfigApplyStatus::Failed,
        attempted: Some(attempted),
        reloaded: old.reloaded,
        hash: old.hash,
        diagnostics,
    }
}

/// Two enabled registrations that both enable a domain block the apply: the diagnostics
/// that refuse it (and become the failed state) include the domain-conflict diagnostic for
/// that domain, naming it and listing the Caddyfiles of the registrations that enable it,
/// both of these among them, in registration order.
pub proof fn lemma_conflicting_registrations_block_apply(
    kept: Seq<(Seq<char>, OutcomeView)>,
    rs: Seq<RegistrationView>,
    i: int,
    j: int,
    d: Seq<char>,
)
    requires
        0 <= i < j < rs.len(),
        rs[i].enabled,
        rs[j].enabled,
        enabled_names(rs[i].domains).contains(d),
        enabled_names(rs[j].domains).contains(d),
    ensures
        blocking_diagnostics(kept, rs).len() > 0,
        exists|k: int|
            0 <= k < blocking_diagnostics(kept, rs).len() && #[trigger] blocking_diagnostics(kept, rs)[k] == (DiagnosticView {
                code: "domain-conflict"@,
                message: "domain `"@ + d + "` is registered by multiple entrypoints"@,
                domain_key: Some(d),
                paths: owner_paths(rs, d),
            }),
        exists|a: int, b: int| 0 <= a < b < owner_paths(rs, d).len() && owner_paths(rs, d)[a] == rs[i].path && owner_paths(rs, d)[b]
            == rs[j].path,
{
    lemma_shared_domain_conflicts(rs, i, j, d);
    let cs = conflict_domains(rs);
    let p = choose|p: int| 0 <= p < cs.len() && cs[p] == d;
    let own = recorded_diagnostics(kept, enabled_registration_ids(rs));
    let all = blocking_diagnostics(kept, rs);
    assert(all[own.len() + p] == conflict_diagnostic(rs, d));
}

/// An apply refused for diagnostics fails with exactly those diagnostics at the attempt's
/// time, and keeps the last successful reload and the hash of the configuration it applied.
pub proof fn lemma_refused_apply_keeps_last_success(old: ConfigStateView, attempted: i64, diagnostics: Seq<DiagnosticView>)
    ensures
        failed_state(old, attempted, diagnostics).status == ConfigApplyStatus::Failed,
        failed_state(old, attempted, diagnostics).attempted == Some(attempted),
        failed_state(old, attempted, diagnostics).diagnostics == diagnostics,
        failed_state(old, attempted, diagnostics).reloaded == old.reloaded,
        failed_state(old, attempted, diagnostics).hash == old.hash,
{
}

proof fn lemma_filter_sorted(t: Seq<(Seq<char>, OutcomeView)>, p: spec_fn((Seq<char>, OutcomeView)) -> bool)
    requires
        strictly_sorted(record_ids(t)),
    ensures
        strictly_sorted(record_ids(t.filter(p))),
        forall|i: int| 0 <= i < t.filter(p).len() ==> exists|j: int| 0 <= j < t.len() && #[trigger] t.filter(p)[i] == #[trigger] t[j],
    decreases t.len(),
{
    reveal(Seq::filter);
    if t.len() > 0 {
        let d = t.drop_last();
        assert forall|a: int, b: int| 0 <= a < b < record_ids(d).len() implies lex_lt(
            #[trigger] record_ids(d)[a],
            #[trigger] record_ids(d)[b],
        ) by {
            assert(record_ids(d)[a] == record_ids(t)[a]);
            assert(record_ids(d)[b] == record_ids(t)[b]);
        }
        lemma_filter_sorted(d, p);
        let f = d.filter(p);
        if p(t.last()) {
            let g = f.push(t.last());
            assert forall|a: int, b: int| 0 <= a < b < record_ids(g).len() implies lex_lt(
                #[trigger] record_ids(g)[a],
                #[trigger] record_ids(g)[b],
            ) by {
                if b == g.len() - 1 {
                    let j = choose|j: int| 0 <= j < d.len() && f[a] == d[j];
                    assert(record_ids(t)[j] == f[a].0);
                    assert(record_ids(t)[t.len() - 1] == t.last().0);
                } else {
                    assert(record_ids(g)[a] == record_ids(f)[a]);
                    assert(record_ids(g)[b] == record_ids(f)[b]);
                }
            }
            assert forall|i: int| 0 <= i < g.len() implies exists|j: int| 0 <= j < t.len() && #[trigger] g[i] == #[trigger] t[j] by {
                if i == g.len() - 1 {
                    assert(g[i] == t[t.len() - 1]);
                } else {
                    let j = choose|j: int| 0 <= j < d.len() && f[i] == d[j];
                    assert(g[i] == t[j]);
                }
            }
        } else {
            assert forall|i: int| 0 <= i < f.len() implies exists|j: int| 0 <= j < t.len() && #[trigger] f[i] == #[trigger] t[j] by {
                let j = choose|j: int| 0 <= j < d.len() && f[i] == d[j];
                assert(f[i] == t[j]);
            }
        }
    }
}

proof fn lemma_insert_pos(t: Seq<(Seq<char>, OutcomeView)>, id: Seq<char>, k: int)
    requires
        0 <= k <= t.len(),
        forall|j: int| 0 <= j < k ==> lex_lt(#[trigger] t[j].0, id),
        k == t.len() || !lex_lt(t[k].0, id),
    ensures
        insert_pos(t, id) == k,
    decreases k,
{
    if k > 0 {
        assert forall|j: int| 0 <= j < k - 1 implies lex_lt(#[trigger] t.drop_first()[j].0, id) by {
            assert(t.drop_first()[j] == t[j + 1]);
        }
        lemma_insert_pos(t.drop_first(), id, k - 1);
    }
}

impl CaddyConfigCoordinator {
    /// Records `outcome` for `id` at its place in ascending order, replacing any earlier one.
    fn upsert_record(&mut self, id: String, outcome: PreparedOutcome)
        requires
            old(self).wf(),
        ensures
            final(self).wf(),
            final(self).spec_records() == upsert(old(self).spec_records(), id@, outcome_view(outcome)),
            final(self).spec_current() == old(self).spec_current(),
    {
        let ghost t = records_view(self.records@);
        let ghost o = outcome_view(outcome);
        let mut j: usize = 0;
        while j < self.records.len() && text_lt(self.records[j].registration_id.as_str(), id.as_str())
            invariant
                j <= self.records.len(),
                t == records_view(self.records@),
                forall|k: int| 0 <= k < j ==> lex_lt(#[trigger] t[k].0, id@),
            decreases self.records.len() - j,
        {
            j = j + 1;
        }
        proof {
            lemma_insert_pos(t, id@, j as int);
        }
        let ghost ids = record_ids(t);
        let record = PreparedRecord { registration_id: id, outcome };
        if j < self.records.len() && self.records[j].registration_id == record.registration_id {
            self.records[j] = record;
            proof {
                assert(records_view(self.records@) =~= t.update(j as int, (record.registration_id@, o)));
                assert(record_ids(records_view(self.records@)) =~= ids);
            }
        } else {
            proof {
                if j < t.len() {
                    crate::ordered::lemma_lex_total(t[j as int].0, record.registration_id@);
                }
            }
            self.records.insert(j, record);
            proof {
                let nt = records_view(self.records@);
                assert(nt =~= t.insert(j as int, (record.registration_id@, o)));
                let nids = record_ids(nt);
                assert forall|a: int, b: int| 0 <= a < b < nids.len() implies lex_lt(
                    #[trigger] nids[a],
                    #[trigger] nids[b],
                ) by {
                    if b < j {
                        assert(nids[a] == ids[a]);
                        assert(nids[b] == ids[b]);
                    } else if a < j && b == j {
                        assert(nids[a] == t[a].0);
                    } else if a < j {
                        assert(nids[a] == ids[a]);
                        assert(nids[b] == ids[b - 1]);
                        assert(lex_lt(ids[a], ids[b - 1]));
                    } else if a == j {
                        assert(nids[b] == ids[b - 1]);
                        if b - 1 > j {
                            assert(lex_lt(ids[j as int], ids[b - 1]));
                            crate::ordered::lemma_lex_transitive(id@, ids[j as int], ids[b - 1]);
                        }
                    } else {
                        assert(nids[a] == ids[a - 1]);
                        assert(nids[b] == ids[b - 1]);
                    }
                }
            }
        }
    }

    /// Forgets the outcomes of registrations that are no longer registered.
    fn retain_records(&mut self, registrations: &[EntrypointRegistration])
        requires
            old(self).wf(),
        ensures
            final(self).wf(),
            final(self).spec_records() == retained(old(self).spec_records(), registration_ids(registration_views(registrations@))),
            final(self).spec_current() == old(self).spec_current(),
    {
        let ghost rv = registration_views(registrations@);
        let ghost ids = registration_ids(rv);
        let ghost pred = |e: (Seq<char>, OutcomeView)| ids.contains(e.0);
        let ghost t = records_view(self.records@);
        let mut rest: Vec<PreparedRecord> = Vec::new();
        std::mem::swap(&mut rest, &mut self.records);
        let mut kept: Vec<PreparedRecord> = Vec::new();
        let mut k: usize = 0;
        let n = rest.len();
        assert(records_view(rest@) =~= t.subrange(0, n as int));
        while rest.len() > 0
            invariant
                k + rest.len() == n,
                n == t.len(),
                rv == registration_views(registrations@),
                ids == registration_ids(rv),
                pred == (|e: (Seq<char>, OutcomeView)| ids.contains(e.0)),
                records_view(rest@) == t.subrange(k as int, n as int),
                records_view(kept@) == t.subrange(0, k as int).filter(pred),
            decreases rest.len(),
        {
            let ghost prev_rest = rest@;
            let record = rest.remove(0);
            proof {
                reveal(Seq::filter);
                assert(t.subrange(0, k + 1).drop_last() =~= t.subrange(0, k as int));
                assert(records_view(prev_rest)[0] == t[k as int]);
                assert(rest@ =~= prev_rest.subrange(1, prev_rest.len() as int));
                assert(records_view(rest@) =~= records_view(prev_rest).subrange(1, prev_rest.len() as int));
                assert(t.subrange(k as int, n as int).subrange(1, prev_rest.len() as int) =~= t.subrange(k + 1, n as int));
                assert(records_view(rest@) =~= t.subrange(k + 1, n as int));
                assert(t[k as int] == (record.registration_id@, outcome_view(record.outcome)));
            }
            let mut present = false;
            let mut i: usize = 0;
            while i < registrations.len()
                invariant
                    i <= registrations.len(),
                    rv == registration_views(registrations@),
                    present == exists|j: int| 0 <= j < i && #[trigger] rv[j].id == record.registration_id@,
                decreases registrations.len() - i,
            {
                if registrations[i].registration_id == record.registration_id {
                    assert(rv[i as int].id == record.registration_id@);
                    present = true;
                }
                i = i + 1;
            }
            proof {
                assert(present == ids.contains(record.registration_id@));
            }
            if present {
                let ghost prev = kept@;
                kept.push(record);
                proof {
                    assert(records_view(kept@) =~= records_view(prev).push((record.registration_id@, outcome_view(record.outcome))));
                }
            }
            k = k + 1;
        }
        assert(t.subrange(0, n as int) =~= t);
        proof {
            lemma_filter_sorted(t, pred);
        }
        self.records = kept;
    }

    /// The remembered diagnostics of the enabled registrations, in order.
    fn enabled_diagnostics(&self, registrations: &[EntrypointRegistration]) -> (r: Vec<ConfigDiagnostic>)
        ensures
            diagnostic_views(r@) == recorded_diagnostics(self.spec_records(), enabled_registration_ids(registration_views(registrations@))),
    {
        let ghost rv = registration_views(registrations@);
        let ghost ids = enabled_registration_ids(rv);
        let ghost t = records_view(self.records@);
        let mut out: Vec<ConfigDiagnostic> = Vec::new();
        assert(diagnostic_views(out@) =~= Seq::<DiagnosticView>::empty());
        let mut k: usize = 0;
        while k < self.records.len()
            invariant
                k <= self.records.len(),
                t == records_view(self.records@),
                rv == registration_views(registrations@),
                ids == enabled_registration_ids(rv),
                diagnostic_views(out@) == recorded_diagnostics(t.subrange(0, k as int), ids),
            decreases self.records.len() - k,
        {
            assert(t.subrange(0, k + 1).drop_last() =~= t.subrange(0, k as int));
            assert(t.subrange(0, k + 1).last() == t[k as int]);
            let record = &self.records[k];
            match &record.outcome {
                PreparedOutcome::Diagnostics(ds) => {
                    let mut enabled = false;
                    let mut i: usize = 0;
                    while i < registrations.len()
                        invariant
                            i <= registrations.len(),
                            rv == registration_views(registrations@),
                            enabled == exists|j: int| 0 <= j < i && #[trigger] rv[j].id == record.registration_id@ && rv[j].enabled,
                        decreases registrations.len() - i,
                    {
                        if registrations[i].registration_id == record.registration_id
                            && registrations[i].activation_state.is_enabled() {
                            assert(rv[i as int].id == record.registration_id@ && rv[i as int].enabled);
                            enabled = true;
                        }
                        i = i + 1;
                    }
                    proof {
                        assert(enabled == ids.contains(record.registration_id@));
                    }
                    if enabled {
                        let ghost before = diagnostic_views(out@);
                        let mut m: usize = 0;
                        while m < ds.len()
                            invariant
                                m <= ds.len(),
                                diagnostic_views(out@) == before + diagnostic_views(ds@).subrange(0, m as int),
                            decreases ds.len() - m,
                        {
                            let c = ds[m].copy();
                            let ghost prev = out@;
                            out.push(c);
                            proof {
                                assert(diagnostic_views(out@) =~= diagnostic_views(prev).push(c@));
                                assert(diagnostic_views(ds@).subrange(0, m + 1) =~= diagnostic_views(ds@).subrange(0, m as int).push(ds@[m as int]@));
                                assert(before + diagnostic_views(ds@).subrange(0, m + 1) =~= (before + diagnostic_views(ds@).subrange(0, m as int)).push(ds@[m as int]@));
                            }
                            m = m + 1;
                        }
                        assert(diagnostic_views(ds@).subrange(0, diagnostic_views(ds@).len() as int) =~= diagnostic_views(ds@));
                    } else {
                        assert(diagnostic_views(out@) =~= diagnostic_views(out@) + Seq::<DiagnosticView>::empty());
                    }
                },
                PreparedOutcome::Routes(_) => {
                    assert(diagnostic_views(out@) =~= diagnostic_views(out@) + Seq::<DiagnosticView>::empty());
                },
            }
            k = k + 1;
        }
        assert(t.subrange(0, t.len() as int) =~= t);
        out
    }

    /// Copies of the remembered routes, as a route table.
    fn route_entries(&self) -> (r: Vec<RouteEntry>)
        ensures
            route_table(r@) == recorded_routes(self.spec_records()),
    {
        let ghost t = records_view(self.records@);
        let mut out: Vec<RouteEntry> = Vec::new();
        assert(route_table(out@) =~= Seq::<(Seq<char>, Seq<Json>)>::empty());
        let mut k: usize = 0;
        while k < self.records.len()
            invariant
                k <= self.records.len(),
                t == records_view(self.records@),
                route_table(out@) == recorded_routes(t.subrange(0, k as int)),
            decreases self.records.len() - k,
        {
            assert(t.subrange(0, k + 1).drop_last() =~= t.subrange(0, k as int));
            assert(t.subrange(0, k + 1).last() == t[k as int]);
            match &self.records[k].outcome {
                PreparedOutcome::Routes(rs) => {
                    let entry = RouteEntry { registration_id: self.records[k].registration_id.clone(), routes: copy_values(rs) };
                    let ghost prev = out@;
                    out.push(entry);
                    proof {
                        assert(route_table(out@) =~= route_table(prev).push((entry.registration_id@, jsons_of(entry.routes@))));
                    }
                },
                PreparedOutcome::Diagnostics(_) => {},
            }
            k = k + 1;
        }
        assert(t.subrange(0, t.len() as int) =~= t);
        out
    }
}

impl CaddyConfigCoordinator {
    /// Remembers a prepared registration: its routes when it was prepared cleanly; otherwise
    /// its diagnostics, attributed to `source_path` where they name no file, which also
    /// become the failed state at time `now`. Hands the registration back.
    pub fn commit_prepared_registration(&mut self, source_path: String, prepared: PreparedRegistration, now: i64) -> (r: EntrypointRegistration)
        requires
            old(self).wf(),
        ensures
            final(self).wf(),
            r@ == prepared.registration@,
            prepared.diagnostics@.len() == 0 ==> {
                &&& final(self).spec_records() == upsert(
                    old(self).spec_records(),
                    prepared.registration@.id,
                    OutcomeView::Routes(jsons_of(prepared.routes@)),
                )
                &&& final(self).spec_current() == old(self).spec_current()
            },
            prepared.diagnostics@.len() > 0 ==> {
                let ds = diagnostic_views(prepared.diagnostics@).map_values(
                    |d: DiagnosticView| sourced(d, source_path@),
                );
                &&& final(self).spec_records() == upsert(
                    old(self).spec_records(),
                    prepared.registration@.id,
                    OutcomeView::Diagnostics(ds),
                )
                &&& final(self).spec_current() == failed_state(old(self).spec_current(), now, ds)
            },
    {
        let PreparedRegistration { registration, routes, diagnostics } = prepared;
        let id = registration.registration_id.clone();
        if diagnostics.len() == 0 {
            self.upsert_record(id, PreparedOutcome::Routes(routes));
        } else {
            let ghost dv = diagnostic_views(diagnostics@);
            let mut sourced_diagnostics: Vec<ConfigDiagnostic> = Vec::new();
            let mut rest = diagnostics;
            let n = rest.len();
            let mut k: usize = 0;
            assert(diagnostic_views(rest@) =~= dv.subrange(0, n as int));
            while rest.len() > 0
                invariant
                    k + rest.len() == n,
                    n == dv.len(),
                    diagnostic_views(rest@) == dv.subrange(k as int, n as int),
                    diagnostic_views(sourced_diagnostics@) == dv.subrange(0, k as int).map_values(
                        |d: DiagnosticView| sourced(d, source_path@),
                    ),
                decreases rest.len(),
            {
                let ghost prev_rest = rest@;
                let mut d = rest.remove(0);
                proof {
                    assert(diagnostic_views(prev_rest)[0] == dv[k as int]);
                    assert(rest@ =~= prev_rest.subrange(1, prev_rest.len() as int));
                    assert(diagnostic_views(rest@) =~= diagnostic_views(prev_rest).subrange(1, prev_rest.len() as int));
                    assert(dv.subrange(k as int, n as int).subrange(1, prev_rest.len() as int) =~= dv.subrange(k + 1, n as int));
                }
                let ghost before = d@;
                if d.source_config_paths.len() == 0 {
                    let mut paths: Vec<String> = Vec::new();
                    paths.push(source_path.clone());
                    d.source_config_paths = paths;
                    proof {
                        assert(strings_view(d.source_config_paths@) =~= seq![source_path@]);
                    }
                }
                let ghost prev = sourced_diagnostics@;
                sourced_diagnostics.push(d);
                proof {
                    assert(d@ == sourced(before, source_path@));
                    assert(diagnostic_views(sourced_diagnostics@) =~= diagnostic_views(prev).push(d@));
                    assert(dv.subrange(0, k + 1) =~= dv.subrange(0, k as int).push(dv[k as int]));
                    assert(dv.subrange(0, k + 1).map_values(|d: DiagnosticView| sourced(d, source_path@)) =~= dv.subrange(
                        0,
                        k as int,
                    ).map_values(|d: DiagnosticView| sourced(d, source_path@)).push(sourced(dv[k as int], source_path@)));
                }
                k = k + 1;
            }
            assert(dv.subrange(0, n as int) =~= dv);
            let reported = copy_diagnostics(&sourced_diagnostics);
            self.upsert_record(id, PreparedOutcome::Diagnostics(sourced_diagnostics));
            self.current = ConfigState {
                status: ConfigApplyStatus::Failed,
                last_attempted_at_utc: Some(now),
                last_successful_reload_at_utc: self.current.last_successful_reload_at_utc,
                effective_config_hash: match &self.current.effective_config_hash {
                    Some(h) => Some(h.clone()),
                    None => None,
                },
                diagnostics: reported,
            };
        }
        registration
    }

    /// Decides what to do with the current registrations at time `attempted`. The outcomes of
    /// registrations that are gone are forgotten. Diagnostics of enabled registrations and
    /// conflicts between them refuse the apply and become the failed state; with no enabled
    /// domain Caddy is stopped; otherwise the configuration of the enabled registrations is
    /// composed for applying.
    pub fn begin_apply(&mut self, registrations: &[EntrypointRegistration], attempted: i64) -> (r: CaddyApplyAction)
        requires
            old(self).wf(),
        ensures
            final(self).wf(),
            ({
                let rs = registration_views(registrations@);
                let kept = retained(old(self).spec_records(), registration_ids(rs));
                let blocking = blocking_diagnostics(kept, rs);
                let active = enabled_registrations(rs);
                &&& final(self).spec_records() == kept
                &&& blocking.len() > 0 ==> {
                    &&& final(self).spec_current() == failed_state(old(self).spec_current(), attempted, blocking)
                    &&& r matches CaddyApplyAction::Current(state) && state@ == final(self).spec_current()
                }
                &&& blocking.len() == 0 ==> {
                    &&& final(self).spec_current() == old(self).spec_current()
                    &&& nothing_enabled(active) ==> r == CaddyApplyAction::Stop { attempted }
                    &&& !nothing_enabled(active) ==> (r matches CaddyApplyAction::Apply { attempted: a, config, rendered, hash, source_config_paths }
                        && a == attempted
                        && config@ == composed_config(active, recorded_routes(kept))
                        && rendered@ == pretty_json(config@)
                        && hash@ == lower_hex(sha256_digest(rendered@))
                        && strings_view(source_config_paths@) == active.map_values(|x: RegistrationView| x.path))
                }
            }),
    {
        let ghost rv = registration_views(registrations@);
        self.retain_records(registrations);
        let mut diagnostics = self.enabled_diagnostics(registrations);
        let conflicts = detect_conflicts(registrations);
        let ghost own = diagnostic_views(diagnostics@);
        let mut k: usize = 0;
        while k < conflicts.len()
            invariant
                k <= conflicts.len(),
                diagnostic_views(diagnostics@) == own + diagnostic_views(conflicts@).subrange(0, k as int),
            decreases conflicts.len() - k,
        {
            let c = conflicts[k].copy();
            let ghost prev = diagnostics@;
            diagnostics.push(c);
            proof {
                assert(diagnostic_views(diagnostics@) =~= diagnostic_views(prev).push(c@));
                assert(diagnostic_views(conflicts@).subrange(0, k + 1) =~= diagnostic_views(conflicts@).subrange(0, k as int).push(conflicts@[k as int]@));
                assert(own + diagnostic_views(conflicts@).subrange(0, k + 1) =~= (own + diagnostic_views(conflicts@).subrange(0, k as int)).push(conflicts@[k as int]@));
            }
            k = k + 1;
        }
        assert(diagnostic_views(conflicts@).subrange(0, diagnostic_views(conflicts@).len() as int) =~= diagnostic_views(conflicts@));
        if diagnostics.len() > 0 {
            self.current = ConfigState {
                status: ConfigApplyStatus::Failed,
                last_attempted_at_utc: Some(attempted),
                last_successful_reload_at_utc: self.current.last_successful_reload_at_utc,
                effective_config_hash: match &self.current.effective_config_hash {
                    Some(h) => Some(h.clone()),
                    None => None,
                },
                diagnostics,
            };
            return CaddyApplyAction::Current(self.current.copy());
        }
        let ghost pred = |x: RegistrationView| x.enabled;
        let mut active: Vec<EntrypointRegistration> = Vec::new();
        let mut paths: Vec<String> = Vec::new();
        let mut any_domain = false;
        let mut i: usize = 0;
        assert(registration_views(active@) =~= Seq::<RegistrationView>::empty());
        assert(strings_view(paths@) =~= Seq::<Seq<char>>::empty());
        while i < registrations.len()
            invariant
                i <= registrations.len(),
                rv == registration_views(registrations@),
                pred == (|x: RegistrationView| x.enabled),
                registration_views(active@) == rv.subrange(0, i as int).filter(pred),
                strings_view(paths@) == rv.subrange(0, i as int).filter(pred).map_values(|x: RegistrationView| x.path),
                any_domain == !nothing_enabled(rv.subrange(0, i as int).filter(pred)),
            decreases registrations.len() - i,
        {
            proof {
                reveal(Seq::filter);
                assert(rv.subrange(0, i + 1).drop_last() =~= rv.subrange(0, i as int));
                assert(rv.subrange(0, i + 1).last() == registrations@[i as int]@);
            }
            let reg = &registrations[i];
            if reg.activation_state.is_enabled() {
                let hosts = active_domains(reg);
                proof {
                    crate::caddy_config::lemma_no_enabled_names(reg@, strings_view(hosts@));
                }
                let ghost fa = rv.subrange(0, i as int).filter(pred);
                let c = reg.copy();
                let ghost prev_active = active@;
                active.push(c);
                let ghost prev_paths = paths@;
                paths.push(reg.source_config_path.clone());
                proof {
                    assert(rv.subrange(0, i + 1).filter(pred) == fa.push(reg@));
                    assert(registration_views(active@) =~= registration_views(prev_active).push(c@));
                    assert(strings_view(paths@) =~= strings_view(prev_paths).push(reg@.path));
                    assert(fa.push(reg@).map_values(|x: RegistrationView| x.path) =~= fa.map_values(|x: RegistrationView| x.path).push(reg@.path));
                    let na = fa.push(reg@);
                    if nothing_enabled(na) {
                        assert(enabled_names(na[na.len() - 1].domains).len() == 0);
                        assert forall|j: int| 0 <= j < fa.len() implies enabled_names(#[trigger] fa[j].domains).len() == 0 by {
                            assert(na[j] == fa[j]);
                        }
                    }
                    if nothing_enabled(fa) && hosts@.len() == 0 {
                        assert forall|j: int| 0 <= j < na.len() implies enabled_names(#[trigger] na[j].domains).len() == 0 by {
                            if j < fa.len() {
                                assert(na[j] == fa[j]);
                            }
                        }
                    }
                }
                if hosts.len() > 0 {
                    any_domain = true;
                }
            }
            i = i + 1;
        }
        assert(rv.subrange(0, rv.len() as int) =~= rv);
        if !any_domain {
            return CaddyApplyAction::Stop { attempted };
        }
        let table = self.route_entries();
        let config = compose_config(active.as_slice(), &table);
        let rendered = render_pretty(&config);
        let hash = hex_encode(sha256(rendered.as_slice()).as_slice());
        CaddyApplyAction::Apply { attempted, config, rendered, hash, source_config_paths: paths }
    }

    /// Records that Caddy was stopped at `attempted`: idle, without a configuration.
    pub fn finish_idle(&mut self, attempted: i64) -> (r: ConfigState)
        requires
            old(self).wf(),
        ensures
            final(self).wf(),
            final(self).spec_records() == old(self).spec_records(),
            final(self).spec_current() == (ConfigStateView {
                status: ConfigApplyStatus::Idle,
                attempted: Some(attempted),
                reloaded: old(self).spec_current().reloaded,
                hash: None,
                diagnostics: Seq::empty(),
            }),
            r@ == final(self).spec_current(),
    {
        self.current = ConfigState {
            status: ConfigApplyStatus::Idle,
            last_attempted_at_utc: Some(attempted),
            last_successful_reload_at_utc: self.current.last_successful_reload_at_utc,
            effective_config_hash: None,
            diagnostics: Vec::new(),
        };
        assert(diagnostic_views(self.current.diagnostics@) =~= Seq::<DiagnosticView>::empty());
        self.current.copy()
    }

    /// Records the outcome of applying the configuration with `hash` at `attempted`: applied
    /// and reloaded at `now`, or failed with the runtime's message.
    pub fn finish_runtime_apply(&mut self, attempted: i64, hash: String, source_config_paths: Vec<String>, result: Result<(), String>, now: i64) -> (r: ConfigState)
        requires
            old(self).wf(),
        ensures
            final(self).wf(),
            final(self).spec_records() == old(self).spec_records(),
            result is Ok ==> final(self).spec_current() == (ConfigStateView {
                status: ConfigApplyStatus::Applied,
                attempted: Some(attempted),
                reloaded: Some(now),
                hash: Some(hash@),
                diagnostics: Seq::empty(),
            }),
            result matches Err(e) ==> final(self).spec_current() == failed_state(
                old(self).spec_current(),
                attempted,
                seq![runtime_apply_failed(e@, strings_view(source_config_paths@))],
            ),
            r@ == final(self).spec_current(),
    {
        match result {
            Ok(()) => {
                self.current = ConfigState {
                    status: ConfigApplyStatus::Applied,
                    last_attempted_at_utc: Some(attempted),
                    last_successful_reload_at_utc: Some(now),
                    effective_config_hash: Some(hash),
                    diagnostics: Vec::new(),
                };
                assert(diagnostic_views(self.current.diagnostics@) =~= Seq::<DiagnosticView>::empty());
            },
            Err(error) => {
                let diag = ConfigDiagnostic {
                    code: "runtime-apply-failed".to_owned(),
                    message: error,
                    domain_key: None,
                    source_config_paths,
                };
                let mut diagnostics: Vec<ConfigDiagnostic> = Vec::new();
                diagnostics.push(diag);
                assert(diagnostic_views(diagnostics@) =~= seq![diag@]);
                self.current = ConfigState {
                    status: ConfigApplyStatus::Failed,
                    last_attempted_at_utc: Some(attempted),
                    last_successful_reload_at_utc: self.current.last_successful_reload_at_utc,
                    effective_config_hash: match &self.current.effective_config_hash {
                        Some(h) => Some(h.clone()),
                        None => None,
                    },
                    diagnostics,
                };
            },
        }
        self.current.copy()
    }
}

} // verus!
