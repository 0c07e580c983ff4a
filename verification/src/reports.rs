//! The command-line reports: what `status`, `projects`, `domains`, `port`, `caddyfile`,
//! `domain`, `diagnostics` and `logs` print, as lines and tables that the caller renders.

use vstd::prelude::*;
use crate::caddy_config::{ActivationState, ConfigDiagnostic, EntrypointRegistration, RegisteredDomain};
use crate::caddy_coordinator::ConfigApplyStatus;
use crate::data_model::stable_sort_positions;
use crate::inspection::{
    OwnerView, PortOwner, RouteMatch, display_socket, display_upstream, in_project_order, in_route_order,
    order_routes, owners_view, protocol_label, route_view, routes_in, routes_view, socket_label, upstream_label,
};
use crate::logs::strings_view;
use crate::operator::join_with;
use crate::storage::{LogStreamStatus, RuntimeDiagnostic};
use crate::text::{ascii_lowercase, decimal_digits, push_str, to_ascii_lowercase, to_chars, from_chars, u64_to_decimal};

verus! {

// ---------------------------------------------------------------------------------------
// Blocks
// ---------------------------------------------------------------------------------------

/// A piece of a report: a line of text, or a table with a header row.
#[derive(Debug)]
pub enum ReportBlock {
    Line(String),
    Table { header: Vec<String>, rows: Vec<Vec<String>> },
}

/// The view of a report block.
pub enum BlockView {
    Line(Seq<char>),
    Table(Seq<Seq<char>>, Seq<Seq<Seq<char>>>),
}

/// The views of table rows.
pub open spec fn rows_view(rows: Seq<Vec<String>>) -> Seq<Seq<Seq<char>>> {
    rows.map_values(|r: Vec<String>| strings_view(r@))
}

impl View for ReportBlock {
    type V = BlockView;

    open spec fn view(&self) -> BlockView {
        match self {
            ReportBlock::Line(s) => BlockView::Line(s@),
            ReportBlock::Table { header, rows } => BlockView::Table(strings_view(header@), rows_view(rows@)),
        }
    }
}

/// The views of a list of blocks.
pub open spec fn blocks_view(v: Seq<ReportBlock>) -> Seq<BlockView> {
    v.map_values(|b: ReportBlock| b@)
}

/// A line block.
pub open spec fn line(s: Seq<char>) -> BlockView {
    BlockView::Line(s)
}

fn push_line(v: &mut Vec<ReportBlock>, s: String)
    ensures
        blocks_view(final(v)@) == blocks_view(old(v)@).push(line(s@)),
{
    v.push(ReportBlock::Line(s));
    assert(blocks_view(v@) =~= blocks_view(old(v)@).push(line(s@)));
}

fn push_text(v: &mut Vec<ReportBlock>, s: &str)
    ensures
        blocks_view(final(v)@) == blocks_view(old(v)@).push(line(s@)),
{
    push_line(v, s.to_owned());
}

fn push_table(v: &mut Vec<ReportBlock>, header: Vec<String>, rows: Vec<Vec<String>>)
    ensures
        blocks_view(final(v)@) == blocks_view(old(v)@).push(BlockView::Table(strings_view(header@), rows_view(rows@))),
{
    let ghost hv = strings_view(header@);
    let ghost rv = rows_view(rows@);
    v.push(ReportBlock::Table { header, rows });
    assert(blocks_view(v@) =~= blocks_view(old(v)@).push(BlockView::Table(hv, rv)));
}

fn texts(parts: &[&str]) -> (r: Vec<String>)
    ensures
        strings_view(r@) == parts@.map_values(|p: &str| p@),
{
    let mut r: Vec<String> = Vec::new();
    let mut i: usize = 0;
    while i < parts.len()
        invariant
            i <= parts@.len(),
            strings_view(r@) == parts@.subrange(0, i as int).map_values(|p: &str| p@),
        decreases parts.len() - i,
    {
        let ghost prev = strings_view(r@);
        let t = parts[i].to_owned();
        r.push(t);
        assert(strings_view(r@) =~= prev.push(t@));
        assert(parts@.subrange(0, i + 1).map_values(|p: &str| p@) =~= parts@.subrange(0, i as int).map_values(|p: &str| p@).push(
            parts@[i as int]@,
        ));
        i = i + 1;
    }
    assert(parts@.subrange(0, parts@.len() as int) =~= parts@);
    r
}

fn concat(a: &str, b: &str) -> (r: String)
    ensures
        r@ == a@ + b@,
{
    let mut r = a.to_owned();
    push_str(&mut r, b);
    r
}

// ---------------------------------------------------------------------------------------
// Labels
// ---------------------------------------------------------------------------------------

/// The label of an activation state.
pub open spec fn activation_text(s: ActivationState) -> Seq<char> {
    match s {
        ActivationState::Unknown => "unknown"@,
        ActivationState::Registered => "registered"@,
        ActivationState::Activating => "activating"@,
        ActivationState::Active => "active"@,
        ActivationState::Inactive => "inactive"@,
        ActivationState::Faulted => "faulted"@,
    }
}

/// The label of an activation state.
pub fn activation_label(s: ActivationState) -> (r: &'static str)
    ensures
        r@ == activation_text(s),
{
    match s {
        ActivationState::Unknown => "unknown",
        ActivationState::Registered => "registered",
        ActivationState::Activating => "activating",
        ActivationState::Active => "active",
        ActivationState::Inactive => "inactive",
        ActivationState::Faulted => "faulted",
    }
}

/// The state of a domain as its project and itself make it: faulted if either is, else
/// inactive if either is, active if both are, pending otherwise.
pub open spec fn effective_text(project: ActivationState, domain: ActivationState) -> Seq<char> {
    if project == ActivationState::Faulted || domain == ActivationState::Faulted {
        "faulted"@
    } else if project == ActivationState::Inactive || domain == ActivationState::Inactive {
        "inactive"@
    } else if project == ActivationState::Active && domain == ActivationState::Active {
        "active"@
    } else {
        "pending"@
    }
}

/// The effective state of a domain.
pub fn effective_state(project: ActivationState, domain: ActivationState) -> (r: &'static str)
    ensures
        r@ == effective_text(project, domain),
{
    if project == ActivationState::Faulted || domain == ActivationState::Faulted {
        "faulted"
    } else if project == ActivationState::Inactive || domain == ActivationState::Inactive {
        "inactive"
    } else if project == ActivationState::Active && domain == ActivationState::Active {
        "active"
    } else {
        "pending"
    }
}

/// The state of the Caddy process that the daemon runs.
#[derive(Debug, Clone, Copy, PartialEq, Eq, Structural)]
pub enum CaddyRuntimeStatus {
    Unknown,
    Idle,
    Running,
}

/// The label of a runtime status.
pub open spec fn runtime_text(s: CaddyRuntimeStatus) -> Seq<char> {
    match s {
        CaddyRuntimeStatus::Unknown => "unknown"@,
        CaddyRuntimeStatus::Idle => "idle"@,
        CaddyRuntimeStatus::Running => "running"@,
    }
}

fn runtime_label(s: CaddyRuntimeStatus) -> (r: &'static str)
    ensures
        r@ == runtime_text(s),
{
    match s {
        CaddyRuntimeStatus::Unknown => "unknown",
        CaddyRuntimeStatus::Idle => "idle",
        CaddyRuntimeStatus::Running => "running",
    }
}

/// The label of a configuration status.
pub open spec fn config_text(s: ConfigApplyStatus) -> Seq<char> {
    match s {
        ConfigApplyStatus::Idle => "idle"@,
        ConfigApplyStatus::Applied => "applied"@,
        ConfigApplyStatus::Failed => "failed"@,
    }
}

fn config_label(s: ConfigApplyStatus) -> (r: &'static str)
    ensures
        r@ == config_text(s),
{
    match s {
        ConfigApplyStatus::Idle => "idle",
        ConfigApplyStatus::Applied => "applied",
        ConfigApplyStatus::Failed => "failed",
    }
}

// ---------------------------------------------------------------------------------------
// Status, projects, domains
// ---------------------------------------------------------------------------------------

/// The daemon, Caddy and configuration state lines.
pub open spec fn state_lines(runtime: CaddyRuntimeStatus, config: ConfigApplyStatus) -> Seq<BlockView> {
    seq![
        line("cadderd  running"@),
        line("Caddy    "@ + runtime_text(runtime)),
        line("Config   "@ + config_text(config)),
    ]
}

fn push_state_lines(v: &mut Vec<ReportBlock>, runtime: CaddyRuntimeStatus, config: ConfigApplyStatus)
    ensures
        blocks_view(final(v)@) == blocks_view(old(v)@) + state_lines(runtime, config),
{
    push_text(v, "cadderd  running");
    push_line(v, concat("Caddy    ", runtime_label(runtime)));
    push_line(v, concat("Config   ", config_label(config)));
    assert(blocks_view(v@) =~= blocks_view(old(v)@) + state_lines(runtime, config));
}

/// The `status` report.
pub fn status_report(runtime: CaddyRuntimeStatus, config: ConfigApplyStatus) -> (r: Vec<ReportBlock>)
    ensures
        blocks_view(r@) == state_lines(runtime, config),
{
    let mut v: Vec<ReportBlock> = Vec::new();
    push_state_lines(&mut v, runtime, config);
    assert(blocks_view(v@) =~= state_lines(runtime, config));
    v
}

/// Positions `0..n`.
pub open spec fn all_positions(n: int) -> Seq<int> {
    Seq::new(n as nat, |i: int| i)
}

/// A project's row: its state, working directory and Caddyfile.
pub open spec fn project_row(regs: Seq<EntrypointRegistration>, caddyfiles: Seq<String>, i: int) -> Seq<Seq<char>> {
    seq![activation_text(regs[i].activation_state), regs[i].source_working_directory@, caddyfiles[i]@]
}

/// The `projects` report: a table of projects ordered by working directory. `caddyfiles`
/// holds each project's Caddyfile path.
pub open spec fn projects_report_view(regs: Seq<EntrypointRegistration>, caddyfiles: Seq<String>) -> Seq<BlockView> {
    if regs.len() == 0 {
        seq![line("No projects registered."@)]
    } else {
        seq![
            BlockView::Table(
                seq!["STATE"@, "PROJECT"@, "CADDYFILE"@],
                in_project_order(regs, all_positions(regs.len() as int)).map_values(
                    |i: int| project_row(regs, caddyfiles, i),
                ),
            ),
        ]
    }
}

fn project_row_of(regs: &Vec<EntrypointRegistration>, caddyfiles: &Vec<String>, i: usize) -> (r: Vec<String>)
    requires
        i < regs@.len(),
        i < caddyfiles@.len(),
    ensures
        strings_view(r@) == project_row(regs@, caddyfiles@, i as int),
{
    let r = vec![
        activation_label(regs[i].activation_state).to_owned(),
        regs[i].source_working_directory.clone(),
        caddyfiles[i].clone(),
    ];
    assert(strings_view(r@) =~= project_row(regs@, caddyfiles@, i as int));
    r
}

/// The rows of the listed projects, in the order given.
fn project_rows(regs: &Vec<EntrypointRegistration>, caddyfiles: &Vec<String>, order: &Vec<usize>) -> (r: Vec<Vec<String>>)
    requires
        caddyfiles@.len() == regs@.len(),
        forall|k: int| 0 <= k < order@.len() ==> #[trigger] order@[k] < regs@.len(),
    ensures
        rows_view(r@) == order@.map_values(|i: usize| i as int).map_values(|i: int| project_row(regs@, caddyfiles@, i)),
{
    let mut rows: Vec<Vec<String>> = Vec::new();
    let mut k: usize = 0;
    while k < order.len()
        invariant
            k <= order.len(),
            caddyfiles@.len() == regs@.len(),
            forall|j: int| 0 <= j < order@.len() ==> #[trigger] order@[j] < regs@.len(),
            rows_view(rows@) == order@.map_values(|i: usize| i as int).subrange(0, k as int).map_values(
                |i: int| project_row(regs@, caddyfiles@, i),
            ),
        decreases order.len() - k,
    {
        let row = project_row_of(regs, caddyfiles, order[k]);
        let ghost old_rows = rows_view(rows@);
        rows.push(row);
        proof {
            let om = order@.map_values(|i: usize| i as int);
            assert(rows_view(rows@) =~= old_rows.push(strings_view(row@)));
            assert(om.subrange(0, k + 1).map_values(|i: int| project_row(regs@, caddyfiles@, i)) =~= om.subrange(
                0,
                k as int,
            ).map_values(|i: int| project_row(regs@, caddyfiles@, i)).push(project_row(regs@, caddyfiles@, om[k as int])));
        }
        k = k + 1;
    }
    assert(order@.map_values(|i: usize| i as int).subrange(0, order@.len() as int) =~= order@.map_values(|i: usize| i as int));
    rows
}

/// The `projects` report. `caddyfiles` holds each project's Caddyfile path.
pub fn projects_report(regs: &Vec<EntrypointRegistration>, caddyfiles: &Vec<String>) -> (r: Vec<ReportBlock>)
    requires
        caddyfiles@.len() == regs@.len(),
    ensures
        blocks_view(r@) == projects_report_view(regs@, caddyfiles@),
{
    let mut v: Vec<ReportBlock> = Vec::new();
    if regs.len() == 0 {
        push_text(&mut v, "No projects registered.");
        assert(blocks_view(v@) =~= projects_report_view(regs@, caddyfiles@));
        return v;
    }
    let mut keys: Vec<(String, String)> = Vec::new();
    let mut i: usize = 0;
    while i < regs.len()
        invariant
            i <= regs.len(),
            crate::data_model::keys_view(keys@) == all_positions(i as int).map_values(
                |k: int| (regs@[k].source_working_directory@, Seq::<char>::empty()),
            ),
        decreases regs.len() - i,
    {
        let ghost old_keys = crate::data_model::keys_view(keys@);
        let key = (regs[i].source_working_directory.clone(), String::new());
        keys.push(key);
        assert(crate::data_model::keys_view(keys@) =~= old_keys.push((key.0@, key.1@)));
        assert(all_positions(i + 1).map_values(|k: int| (regs@[k].source_working_directory@, Seq::<char>::empty()))
            =~= all_positions(i as int).map_values(|k: int| (regs@[k].source_working_directory@, Seq::<char>::empty())).push(
            (regs@[i as int].source_working_directory@, Seq::<char>::empty()),
        ));
        i = i + 1;
    }
    let order = stable_sort_positions(&keys);
    let ghost ps = all_positions(regs@.len() as int);
    proof {
        assert(order@.map_values(|p: usize| p as int).map_values(|p: int| ps[p]) =~= order@.map_values(|p: usize| p as int));
        assert(in_project_order(regs@, ps) == order@.map_values(|p: usize| p as int));
    }
    let rows = project_rows(regs, caddyfiles, &order);
    let header = texts(&["STATE", "PROJECT", "CADDYFILE"]);
    proof {
        reveal_strlit("STATE");
        reveal_strlit("PROJECT");
        reveal_strlit("CADDYFILE");
        assert(strings_view(header@) =~= seq!["STATE"@, "PROJECT"@, "CADDYFILE"@]);
    }
    push_table(&mut v, header, rows);
    assert(blocks_view(v@) =~= projects_report_view(regs@, caddyfiles@));
    v
}

/// How a domain's upstream is shown: its label, or `-` when unknown.
pub open spec fn upstream_cell(u: Option<String>) -> Seq<char> {
    match u {
        Some(s) => upstream_label(s@),
        None => "-"@,
    }
}

fn upstream_cell_of(u: &Option<String>) -> (r: String)
    ensures
        r@ == upstream_cell(*u),
{
    match u {
        Some(s) => display_upstream(s.as_str()),
        None => "-".to_owned(),
    }
}

/// The entries of project `i`'s domains, with their upstream cells, in snapshot order.
pub open spec fn domain_entries_of(i: int, ds: Seq<RegisteredDomain>) -> Seq<(int, int, Seq<char>)>
    decreases ds.len(),
{
    if ds.len() == 0 {
        Seq::empty()
    } else {
        domain_entries_of(i, ds.drop_last()).push((i, ds.len() - 1, upstream_cell(ds.last().upstream)))
    }
}

/// The entries of every registered domain, in snapshot order.
pub open spec fn domain_entries(regs: Seq<EntrypointRegistration>) -> Seq<(int, int, Seq<char>)>
    decreases regs.len(),
{
    if regs.len() == 0 {
        Seq::empty()
    } else {
        domain_entries(regs.drop_last()) + domain_entries_of(regs.len() - 1, regs.last().registered_domains@)
    }
}

/// A domain's row: its effective state, name, upstream and project.
pub open spec fn domain_row(regs: Seq<EntrypointRegistration>, m: (int, int, Seq<char>)) -> Seq<Seq<char>> {
    let p = regs[m.0];
    let d = p.registered_domains@[m.1];
    seq![effective_text(p.activation_state, d.activation_state), d.name.raw@, m.2, p.source_working_directory@]
}

/// The `domains` report: a table of every domain ordered by working directory and canonical
/// name.
pub open spec fn domains_report_view(regs: Seq<EntrypointRegistration>) -> Seq<BlockView> {
    let entries = in_route_order(regs, domain_entries(regs));
    if entries.len() == 0 {
        seq![line("No domains registered."@)]
    } else {
        seq![
            BlockView::Table(
                seq!["STATE"@, "DOMAIN"@, "UPSTREAM"@, "PROJECT"@],
                entries.map_values(|m: (int, int, Seq<char>)| domain_row(regs, m)),
            ),
        ]
    }
}

/// The `domains` report.
pub fn domains_report(regs: &Vec<EntrypointRegistration>) -> (r: Vec<ReportBlock>)
    ensures
        blocks_view(r@) == domains_report_view(regs@),
{
    let mut cands: Vec<RouteMatch> = Vec::new();
    let mut i: usize = 0;
    assert(regs@.subrange(0, 0) =~= Seq::<EntrypointRegistration>::empty());
    while i < regs.len()
        invariant
            i <= regs.len(),
            routes_view(cands@) == domain_entries(regs@.subrange(0, i as int)),
            routes_in(regs@, routes_view(cands@)),
        decreases regs.len() - i,
    {
        let ds = &regs[i].registered_domains;
        let ghost before = routes_view(cands@);
        let mut j: usize = 0;
        assert(ds@.subrange(0, 0) =~= Seq::<RegisteredDomain>::empty());
        assert(before + domain_entries_of(i as int, ds@.subrange(0, 0)) =~= before);
        while j < ds.len()
            invariant
                i < regs.len(),
                j <= ds.len(),
                ds == &regs@[i as int].registered_domains,
                routes_view(cands@) == before + domain_entries_of(i as int, ds@.subrange(0, j as int)),
                routes_in(regs@, routes_view(cands@)),
            decreases ds.len() - j,
        {
            assert(ds@.subrange(0, j + 1).drop_last() =~= ds@.subrange(0, j as int));
            assert(ds@.subrange(0, j + 1).last() == ds@[j as int]);
            let ghost prev = routes_view(cands@);
            let upstream = upstream_cell_of(&ds[j].upstream);
            let ghost cell = upstream@;
            cands.push(RouteMatch { project: i, domain: j, upstream });
            proof {
                assert(domain_entries_of(i as int, ds@.subrange(0, j + 1)) == domain_entries_of(i as int, ds@.subrange(0, j as int)).push(
                    (i as int, j as int, cell),
                ));
                assert(routes_view(cands@) =~= prev.push((i as int, j as int, cell)));
                assert(routes_view(cands@) =~= before + domain_entries_of(i as int, ds@.subrange(0, j + 1)));
                let rv = routes_view(cands@);
                assert forall|k: int| 0 <= k < rv.len() implies 0 <= #[trigger] rv[k].0 < regs@.len()
                    && 0 <= rv[k].1 < regs@[rv[k].0].registered_domains@.len() by {
                    if k < prev.len() {
                        assert(rv[k] == prev[k]);
                    }
                }
            }
            j = j + 1;
        }
        assert(ds@.subrange(0, ds@.len() as int) =~= ds@);
        assert(regs@.subrange(0, i + 1).drop_last() =~= regs@.subrange(0, i as int));
        i = i + 1;
    }
    assert(regs@.subrange(0, regs@.len() as int) =~= regs@);
    let ordered = order_routes(regs, &cands);
    let mut v: Vec<ReportBlock> = Vec::new();
    if ordered.len() == 0 {
        push_text(&mut v, "No domains registered.");
        assert(blocks_view(v@) =~= domains_report_view(regs@));
        return v;
    }
    let ghost es = routes_view(ordered@);
    let mut rows: Vec<Vec<String>> = Vec::new();
    let mut k: usize = 0;
    while k < ordered.len()
        invariant
            k <= ordered.len(),
            es == routes_view(ordered@),
            routes_in(regs@, es),
            rows_view(rows@) == es.subrange(0, k as int).map_values(|m: (int, int, Seq<char>)| domain_row(regs@, m)),
        decreases ordered.len() - k,
    {
        assert(0 <= es[k as int].0 < regs@.len());
        let p = &regs[ordered[k].project];
        let d = &p.registered_domains[ordered[k].domain];
        let row = vec![
            effective_state(p.activation_state, d.activation_state).to_owned(),
            d.name.raw.clone(),
            ordered[k].upstream.clone(),
            p.source_working_directory.clone(),
        ];
        let ghost old_rows = rows_view(rows@);
        rows.push(row);
        proof {
            assert(strings_view(row@) =~= domain_row(regs@, es[k as int]));
            assert(rows_view(rows@) =~= old_rows.push(strings_view(row@)));
            assert(es.subrange(0, k + 1).map_values(|m: (int, int, Seq<char>)| domain_row(regs@, m)) =~= es.subrange(
                0,
                k as int,
            ).map_values(|m: (int, int, Seq<char>)| domain_row(regs@, m)).push(domain_row(regs@, es[k as int])));
        }
        k = k + 1;
    }
    assert(es.subrange(0, es.len() as int) =~= es);
    let header = texts(&["STATE", "DOMAIN", "UPSTREAM", "PROJECT"]);
    proof {
        assert(strings_view(header@) =~= seq!["STATE"@, "DOMAIN"@, "UPSTREAM"@, "PROJECT"@]);
    }
    push_table(&mut v, header, rows);
    assert(blocks_view(v@) =~= domains_report_view(regs@));
    v
}

// ---------------------------------------------------------------------------------------
// Sockets and routes
// ---------------------------------------------------------------------------------------

/// An optional text, or a default.
pub open spec fn text_or(o: Option<Seq<char>>, default: Seq<char>) -> Seq<char> {
    match o {
        Some(t) => t,
        None => default,
    }
}

/// An optional borrowed text.
pub open spec fn opt_str(o: Option<&str>) -> Option<Seq<char>> {
    match o {
        Some(t) => Some(t@),
        None => None,
    }
}

fn text_or_default(o: &Option<String>, default: &str) -> (r: String)
    ensures
        r@ == text_or(crate::inspection::opt_text(*o), default@),
{
    match o {
        Some(t) => t.clone(),
        None => default.to_owned(),
    }
}

/// An owner's row: protocol, socket address, process id, process name and executable.
pub open spec fn owner_row(o: OwnerView) -> Seq<Seq<char>> {
    seq![
        protocol_label(o.protocol),
        socket_label(o),
        match o.pid {
            Some(p) => decimal_digits(p as nat),
            None => "unknown"@,
        },
        text_or(o.process_name, "unknown"@),
        text_or(o.executable_path, "-"@),
    ]
}

/// The owners of a port as a table, or a note that none was found.
pub open spec fn owners_blocks(owners: Seq<OwnerView>) -> Seq<BlockView> {
    if owners.len() == 0 {
        seq![line("No listening socket found."@)]
    } else {
        seq![
            BlockView::Table(
                seq!["PROTOCOL"@, "ADDRESS"@, "PID"@, "PROCESS"@, "EXECUTABLE"@],
                owners.map_values(|o: OwnerView| owner_row(o)),
            ),
        ]
    }
}

/// The socket part of a report: why sockets could not be inspected, or their owners.
pub open spec fn socket_blocks(owners: Seq<OwnerView>, note: Option<Seq<char>>) -> Seq<BlockView> {
    match note {
        Some(n) => seq![line("Unavailable: "@ + n)],
        None => owners_blocks(owners),
    }
}

fn push_socket_report(v: &mut Vec<ReportBlock>, owners: &Vec<PortOwner>, note: Option<&str>)
    ensures
        blocks_view(final(v)@) == blocks_view(old(v)@) + socket_blocks(owners_view(owners@), opt_str(note)),
{
    if let Some(n) = note {
        push_line(v, concat("Unavailable: ", n));
        assert(blocks_view(v@) =~= blocks_view(old(v)@) + socket_blocks(owners_view(owners@), opt_str(note)));
        return;
    }
    if owners.len() == 0 {
        push_text(v, "No listening socket found.");
        assert(blocks_view(v@) =~= blocks_view(old(v)@) + socket_blocks(owners_view(owners@), opt_str(note)));
        return;
    }
    let ghost ov = owners_view(owners@);
    let mut rows: Vec<Vec<String>> = Vec::new();
    let mut k: usize = 0;
    while k < owners.len()
        invariant
            k <= owners.len(),
            ov == owners_view(owners@),
            rows_view(rows@) == ov.subrange(0, k as int).map_values(|o: OwnerView| owner_row(o)),
        decreases owners.len() - k,
    {
        let o = &owners[k];
        let pid = match o.pid {
            Some(p) => u64_to_decimal(p as u64),
            None => "unknown".to_owned(),
        };
        let row = vec![
            o.protocol.label().to_owned(),
            display_socket(o),
            pid,
            text_or_default(&o.process_name, "unknown"),
            text_or_default(&o.executable_path, "-"),
        ];
        let ghost old_rows = rows_view(rows@);
        rows.push(row);
        proof {
            assert(strings_view(row@) =~= owner_row(ov[k as int]));
            assert(rows_view(rows@) =~= old_rows.push(strings_view(row@)));
            assert(ov.subrange(0, k + 1).map_values(|o: OwnerView| owner_row(o)) =~= ov.subrange(0, k as int).map_values(
                |o: OwnerView| owner_row(o),
            ).push(owner_row(ov[k as int])));
        }
        k = k + 1;
    }
    assert(ov.subrange(0, ov.len() as int) =~= ov);
    let header = texts(&["PROTOCOL", "ADDRESS", "PID", "PROCESS", "EXECUTABLE"]);
    assert(strings_view(header@) =~= seq!["PROTOCOL"@, "ADDRESS"@, "PID"@, "PROCESS"@, "EXECUTABLE"@]);
    push_table(v, header, rows);
    assert(blocks_view(v@) =~= blocks_view(old(v)@) + socket_blocks(owners_view(owners@), opt_str(note)));
}

/// A route's row: the states of its project and domain, the domain, its upstream label, the
/// project and its Caddyfile.
pub open spec fn route_row(regs: Seq<EntrypointRegistration>, caddyfiles: Seq<String>, m: (int, int, Seq<char>)) -> Seq<Seq<char>> {
    let p = regs[m.0];
    let d = p.registered_domains@[m.1];
    seq![
        activation_text(p.activation_state),
        activation_text(d.activation_state),
        d.name.raw@,
        upstream_label(m.2),
        p.source_working_directory@,
        caddyfiles[m.0]@,
    ]
}

/// Routes as a table, or a note that none matched.
pub open spec fn routes_blocks(regs: Seq<EntrypointRegistration>, caddyfiles: Seq<String>, routes: Seq<(int, int, Seq<char>)>) -> Seq<BlockView> {
    if routes.len() == 0 {
        seq![line("No matching routes."@)]
    } else {
        seq![
            BlockView::Table(
                seq!["PROJECT STATE"@, "DOMAIN STATE"@, "DOMAIN"@, "UPSTREAM"@, "PROJECT"@, "CADDYFILE"@],
                routes.map_values(|m: (int, int, Seq<char>)| route_row(regs, caddyfiles, m)),
            ),
        ]
    }
}

fn push_routes(v: &mut Vec<ReportBlock>, regs: &Vec<EntrypointRegistration>, caddyfiles: &Vec<String>, routes: &Vec<RouteMatch>)
    requires
        caddyfiles@.len() == regs@.len(),
        routes_in(regs@, routes_view(routes@)),
    ensures
        blocks_view(final(v)@) == blocks_view(old(v)@) + routes_blocks(regs@, caddyfiles@, routes_view(routes@)),
{
    if routes.len() == 0 {
        push_text(v, "No matching routes.");
        assert(blocks_view(v@) =~= blocks_view(old(v)@) + routes_blocks(regs@, caddyfiles@, routes_view(routes@)));
        return;
    }
    let ghost ms = routes_view(routes@);
    let mut rows: Vec<Vec<String>> = Vec::new();
    let mut k: usize = 0;
    while k < routes.len()
        invariant
            k <= routes.len(),
            caddyfiles@.len() == regs@.len(),
            ms == routes_view(routes@),
            routes_in(regs@, ms),
            rows_view(rows@) == ms.subrange(0, k as int).map_values(|m: (int, int, Seq<char>)| route_row(regs@, caddyfiles@, m)),
        decreases routes.len() - k,
    {
        assert(0 <= ms[k as int].0 < regs@.len());
        let m = &routes[k];
        let p = &regs[m.project];
        let d = &p.registered_domains[m.domain];
        let row = vec![
            activation_label(p.activation_state).to_owned(),
            activation_label(d.activation_state).to_owned(),
            d.name.raw.clone(),
            display_upstream(m.upstream.as_str()),
            p.source_working_directory.clone(),
            caddyfiles[m.project].clone(),
        ];
        let ghost old_rows = rows_view(rows@);
        rows.push(row);
        proof {
            assert(strings_view(row@) =~= route_row(regs@, caddyfiles@, ms[k as int]));
            assert(rows_view(rows@) =~= old_rows.push(strings_view(row@)));
            assert(ms.subrange(0, k + 1).map_values(|m: (int, int, Seq<char>)| route_row(regs@, caddyfiles@, m))
                =~= ms.subrange(0, k as int).map_values(|m: (int, int, Seq<char>)| route_row(regs@, caddyfiles@, m)).push(
                route_row(regs@, caddyfiles@, ms[k as int]),
            ));
        }
        k = k + 1;
    }
    assert(ms.subrange(0, ms.len() as int) =~= ms);
    let header = texts(&["PROJECT STATE", "DOMAIN STATE", "DOMAIN", "UPSTREAM", "PROJECT", "CADDYFILE"]);
    assert(strings_view(header@) =~= seq!["PROJECT STATE"@, "DOMAIN STATE"@, "DOMAIN"@, "UPSTREAM"@, "PROJECT"@, "CADDYFILE"@]);
    push_table(v, header, rows);
    assert(blocks_view(v@) =~= blocks_view(old(v)@) + routes_blocks(regs@, caddyfiles@, routes_view(routes@)));
}

/// The `port` report: the sockets on the port, the routes whose upstream points at it, and
/// a note about the daemon when there is one.
pub open spec fn port_report_view(
    port: u16,
    owners: Seq<OwnerView>,
    socket_note: Option<Seq<char>>,
    routes: Option<Seq<(int, int, Seq<char>)>>,
    regs: Seq<EntrypointRegistration>,
    caddyfiles: Seq<String>,
    cadder_note: Option<Seq<char>>,
) -> Seq<BlockView> {
    seq![line("Port "@ + decimal_digits(port as nat)), line(Seq::empty()), line("Sockets"@)] + socket_blocks(owners, socket_note)
        + seq![line(Seq::empty()), line("Cadder routes"@)] + match routes {
        Some(rs) => routes_blocks(regs, caddyfiles, rs),
        None => seq![line("Registration data unavailable."@)],
    } + match cadder_note {
        Some(n) => seq![line(Seq::empty()), line("Cadder: "@ + n)],
        None => Seq::empty(),
    }
}

/// The `port` report. `caddyfiles` holds each project's Caddyfile path; `routes` are absent
/// when registration data is unavailable.
pub fn port_report(
    port: u16,
    owners: &Vec<PortOwner>,
    socket_note: Option<&str>,
    routes: Option<&Vec<RouteMatch>>,
    regs: &Vec<EntrypointRegistration>,
    caddyfiles: &Vec<String>,
    cadder_note: Option<&str>,
) -> (r: Vec<ReportBlock>)
    requires
        caddyfiles@.len() == regs@.len(),
        routes matches Some(rs) ==> routes_in(regs@, routes_view(rs@)),
    ensures
        blocks_view(r@) == port_report_view(
            port,
            owners_view(owners@),
            opt_str(socket_note),
            match routes {
                Some(rs) => Some(routes_view(rs@)),
                None => None,
            },
            regs@,
            caddyfiles@,
            opt_str(cadder_note),
        ),
{
    let mut v: Vec<ReportBlock> = Vec::new();
    push_line(&mut v, concat("Port ", u64_to_decimal(port as u64).as_str()));
    push_line(&mut v, String::new());
    push_text(&mut v, "Sockets");
    let ghost head = blocks_view(v@);
    push_socket_report(&mut v, owners, socket_note);
    push_line(&mut v, String::new());
    push_text(&mut v, "Cadder routes");
    let ghost mid = blocks_view(v@);
    match routes {
        Some(rs) => push_routes(&mut v, regs, caddyfiles, rs),
        None => push_text(&mut v, "Registration data unavailable."),
    }
    let ghost tail = blocks_view(v@);
    if let Some(n) = cadder_note {
        push_line(&mut v, String::new());
        push_line(&mut v, concat("Cadder: ", n));
    }
    assert(blocks_view(v@) =~= port_report_view(
        port,
        owners_view(owners@),
        opt_str(socket_note),
        match routes {
            Some(rs) => Some(routes_view(rs@)),
            None => None,
        },
        regs@,
        caddyfiles@,
        opt_str(cadder_note),
    ));
    v
}

/// The owners of every inspected local port, port by port.
pub open spec fn group_owners(groups: Seq<(u16, Vec<PortOwner>)>) -> Seq<OwnerView>
    decreases groups.len(),
{
    if groups.len() == 0 {
        Seq::empty()
    } else {
        group_owners(groups.drop_last()) + owners_view(groups.last().1@)
    }
}

/// The local upstream sockets part of a report: shown when ports were inspected or when
/// inspection was unavailable.
pub open spec fn local_socket_blocks(groups: Seq<(u16, Vec<PortOwner>)>, note: Option<Seq<char>>) -> Seq<BlockView> {
    if groups.len() > 0 {
        seq![line(Seq::empty()), line("Local upstream sockets"@)] + socket_blocks(group_owners(groups), note)
    } else {
        match note {
            Some(n) => seq![line(Seq::empty()), line("Local upstream sockets"@), line("Unavailable: "@ + n)],
            None => Seq::empty(),
        }
    }
}

fn push_local_sockets(v: &mut Vec<ReportBlock>, groups: &Vec<(u16, Vec<PortOwner>)>, note: Option<&str>)
    ensures
        blocks_view(final(v)@) == blocks_view(old(v)@) + local_socket_blocks(groups@, opt_str(note)),
{
    if groups.len() > 0 {
        let mut all: Vec<PortOwner> = Vec::new();
        let mut g: usize = 0;
        assert(groups@.subrange(0, 0) =~= Seq::<(u16, Vec<PortOwner>)>::empty());
        while g < groups.len()
            invariant
                g <= groups.len(),
                owners_view(all@) == group_owners(groups@.subrange(0, g as int)),
            decreases groups.len() - g,
        {
            let owners = &groups[g].1;
            let ghost before = owners_view(all@);
            let mut k: usize = 0;
            assert(before + owners_view(owners@.subrange(0, 0)) =~= before);
            while k < owners.len()
                invariant
                    k <= owners.len(),
                    owners == &groups@[g as int].1,
                    owners_view(all@) == before + owners_view(owners@.subrange(0, k as int)),
                decreases owners.len() - k,
            {
                let c = owners[k].copy();
                let ghost prev = owners_view(all@);
                all.push(c);
                assert(owners_view(all@) =~= prev.push(c@));
                assert(owners_view(owners@.subrange(0, k + 1)) =~= owners_view(owners@.subrange(0, k as int)).push(owners@[k as int]@));
                k = k + 1;
            }
            assert(owners@.subrange(0, owners@.len() as int) =~= owners@);
            assert(groups@.subrange(0, g + 1).drop_last() =~= groups@.subrange(0, g as int));
            g = g + 1;
        }
        assert(groups@.subrange(0, groups@.len() as int) =~= groups@);
        push_line(v, String::new());
        push_text(v, "Local upstream sockets");
        push_socket_report(v, &all, note);
    } else if let Some(n) = note {
        push_line(v, String::new());
        push_text(v, "Local upstream sockets");
        push_line(v, concat("Unavailable: ", n));
    }
    assert(blocks_view(v@) =~= blocks_view(old(v)@) + local_socket_blocks(groups@, opt_str(note)));
}

/// A domain's row in a project listing: the project's state, the domain's state, the domain
/// and its upstream.
pub open spec fn domain_cells(project_state: ActivationState, d: RegisteredDomain) -> Seq<Seq<char>> {
    seq![activation_text(project_state), activation_text(d.activation_state), d.name.raw@, upstream_cell(d.upstream)]
}

/// The rows of the listed projects' domains: project state, domain state, domain, upstream.
pub open spec fn project_domain_rows(regs: Seq<EntrypointRegistration>, projects: Seq<int>) -> Seq<Seq<Seq<char>>>
    decreases projects.len(),
{
    if projects.len() == 0 {
        Seq::empty()
    } else {
        let p = regs[projects.last()];
        project_domain_rows(regs, projects.drop_last()) + p.registered_domains@.map_values(
            |d: RegisteredDomain| domain_cells(p.activation_state, d),
        )
    }
}

/// The `caddyfile` report: the daemon state, whether the Caddyfile is registered, its
/// projects and their domains, and the local upstream sockets.
pub open spec fn caddyfile_report_view(
    requested: Seq<char>,
    runtime: CaddyRuntimeStatus,
    config: ConfigApplyStatus,
    regs: Seq<EntrypointRegistration>,
    projects: Seq<int>,
    caddyfiles: Seq<String>,
    groups: Seq<(u16, Vec<PortOwner>)>,
    note: Option<Seq<char>>,
) -> Seq<BlockView> {
    seq![line("Caddyfile "@ + requested)] + state_lines(runtime, config) + if projects.len() == 0 {
        seq![line("Registered no"@)]
    } else {
        seq![
            line("Registered yes"@),
            line(Seq::empty()),
            BlockView::Table(
                seq!["PROJECT STATE"@, "PROJECT"@, "CADDYFILE"@],
                projects.map_values(|i: int| project_row(regs, caddyfiles, i)),
            ),
            line(Seq::empty()),
            line("Domains"@),
            BlockView::Table(
                seq!["PROJECT STATE"@, "DOMAIN STATE"@, "DOMAIN"@, "UPSTREAM"@],
                project_domain_rows(regs, projects),
            ),
        ] + local_socket_blocks(groups, note)
    }
}

fn domain_rows_of(regs: &Vec<EntrypointRegistration>, projects: &Vec<usize>) -> (r: Vec<Vec<String>>)
    requires
        forall|k: int| 0 <= k < projects@.len() ==> #[trigger] projects@[k] < regs@.len(),
    ensures
        rows_view(r@) == project_domain_rows(regs@, projects@.map_values(|i: usize| i as int)),
{
    let ghost ps = projects@.map_values(|i: usize| i as int);
    let mut rows: Vec<Vec<String>> = Vec::new();
    let mut k: usize = 0;
    assert(ps.subrange(0, 0) =~= Seq::<int>::empty());
    while k < projects.len()
        invariant
            k <= projects.len(),
            ps == projects@.map_values(|i: usize| i as int),
            forall|j: int| 0 <= j < projects@.len() ==> #[trigger] projects@[j] < regs@.len(),
            rows_view(rows@) == project_domain_rows(regs@, ps.subrange(0, k as int)),
        decreases projects.len() - k,
    {
        let p = &regs[projects[k]];
        let ds = &p.registered_domains;
        let ghost before = rows_view(rows@);
        let mut j: usize = 0;
        assert(before + ds@.subrange(0, 0).map_values(|d: RegisteredDomain| domain_cells(p.activation_state, d)) =~= before);
        while j < ds.len()
            invariant
                j <= ds.len(),
                ds == &p.registered_domains,
                rows_view(rows@) == before + ds@.subrange(0, j as int).map_values(
                    |d: RegisteredDomain| domain_cells(p.activation_state, d),
                ),
            decreases ds.len() - j,
        {
            let d = &ds[j];
            let row = vec![
                activation_label(p.activation_state).to_owned(),
                activation_label(d.activation_state).to_owned(),
                d.name.raw.clone(),
                upstream_cell_of(&d.upstream),
            ];
            let ghost old_rows = rows_view(rows@);
            rows.push(row);
            proof {
                assert(strings_view(row@) =~= domain_cells(p.activation_state, ds@[j as int]));
                assert(rows_view(rows@) =~= old_rows.push(strings_view(row@)));
                assert(ds@.subrange(0, j + 1).map_values(|d: RegisteredDomain| domain_cells(p.activation_state, d))
                    =~= ds@.subrange(0, j as int).map_values(|d: RegisteredDomain| domain_cells(p.activation_state, d)).push(
                    domain_cells(p.activation_state, ds@[j as int]),
                ));
            }
            j = j + 1;
        }
        assert(ds@.subrange(0, ds@.len() as int) =~= ds@);
        assert(ps.subrange(0, k + 1).drop_last() =~= ps.subrange(0, k as int));
        k = k + 1;
    }
    assert(ps.subrange(0, ps.len() as int) =~= ps);
    rows
}

/// The `caddyfile` report. `projects` are the positions of the projects registered for the
/// requested Caddyfile, in the order shown; `caddyfiles` holds each project's Caddyfile
/// path; `owners_by_port` holds the owners of each inspected upstream port.
pub fn caddyfile_report(
    requested: &str,
    runtime: CaddyRuntimeStatus,
    config: ConfigApplyStatus,
    regs: &Vec<EntrypointRegistration>,
    projects: &Vec<usize>,
    caddyfiles: &Vec<String>,
    owners_by_port: &Vec<(u16, Vec<PortOwner>)>,
    socket_note: Option<&str>,
) -> (r: Vec<ReportBlock>)
    requires
        caddyfiles@.len() == regs@.len(),
        forall|k: int| 0 <= k < projects@.len() ==> #[trigger] projects@[k] < regs@.len(),
    ensures
        blocks_view(r@) == caddyfile_report_view(
            requested@,
            runtime,
            config,
            regs@,
            projects@.map_values(|i: usize| i as int),
            caddyfiles@,
            owners_by_port@,
            opt_str(socket_note),
        ),
{
    let mut v: Vec<ReportBlock> = Vec::new();
    push_line(&mut v, concat("Caddyfile ", requested));
    push_state_lines(&mut v, runtime, config);
    if projects.len() == 0 {
        push_text(&mut v, "Registered no");
        assert(blocks_view(v@) =~= caddyfile_report_view(
            requested@,
            runtime,
            config,
            regs@,
            projects@.map_values(|i: usize| i as int),
            caddyfiles@,
            owners_by_port@,
            opt_str(socket_note),
        ));
        return v;
    }
    push_text(&mut v, "Registered yes");
    push_line(&mut v, String::new());
    let header = texts(&["PROJECT STATE", "PROJECT", "CADDYFILE"]);
    assert(strings_view(header@) =~= seq!["PROJECT STATE"@, "PROJECT"@, "CADDYFILE"@]);
    push_table(&mut v, header, project_rows(regs, caddyfiles, projects));
    push_line(&mut v, String::new());
    push_text(&mut v, "Domains");
    let header = texts(&["PROJECT STATE", "DOMAIN STATE", "DOMAIN", "UPSTREAM"]);
    assert(strings_view(header@) =~= seq!["PROJECT STATE"@, "DOMAIN STATE"@, "DOMAIN"@, "UPSTREAM"@]);
    push_table(&mut v, header, domain_rows_of(regs, projects));
    push_local_sockets(&mut v, owners_by_port, socket_note);
    assert(blocks_view(v@) =~= caddyfile_report_view(
        requested@,
        runtime,
        config,
        regs@,
        projects@.map_values(|i: usize| i as int),
        caddyfiles@,
        owners_by_port@,
        opt_str(socket_note),
    ));
    v
}

/// The `domain` report: the daemon state, the routes of the domain and the local upstream
/// sockets.
pub open spec fn domain_report_view(
    requested: Seq<char>,
    runtime: CaddyRuntimeStatus,
    config: ConfigApplyStatus,
    routes: Seq<(int, int, Seq<char>)>,
    regs: Seq<EntrypointRegistration>,
    caddyfiles: Seq<String>,
    groups: Seq<(u16, Vec<PortOwner>)>,
    note: Option<Seq<char>>,
) -> Seq<BlockView> {
    seq![line("Domain "@ + requested)] + state_lines(runtime, config) + seq![line(Seq::empty())] + routes_blocks(
        regs,
        caddyfiles,
        routes,
    ) + local_socket_blocks(groups, note)
}

/// The `domain` report.
pub fn domain_report(
    requested: &str,
    runtime: CaddyRuntimeStatus,
    config: ConfigApplyStatus,
    routes: &Vec<RouteMatch>,
    regs: &Vec<EntrypointRegistration>,
    caddyfiles: &Vec<String>,
    owners_by_port: &Vec<(u16, Vec<PortOwner>)>,
    socket_note: Option<&str>,
) -> (r: Vec<ReportBlock>)
    requires
        caddyfiles@.len() == regs@.len(),
        routes_in(regs@, routes_view(routes@)),
    ensures
        blocks_view(r@) == domain_report_view(
            requested@,
            runtime,
            config,
            routes_view(routes@),
            regs@,
            caddyfiles@,
            owners_by_port@,
            opt_str(socket_note),
        ),
{
    let mut v: Vec<ReportBlock> = Vec::new();
    push_line(&mut v, concat("Domain ", requested));
    push_state_lines(&mut v, runtime, config);
    push_line(&mut v, String::new());
    push_routes(&mut v, regs, caddyfiles, routes);
    push_local_sockets(&mut v, owners_by_port, socket_note);
    assert(blocks_view(v@) =~= domain_report_view(
        requested@,
        runtime,
        config,
        routes_view(routes@),
        regs@,
        caddyfiles@,
        owners_by_port@,
        opt_str(socket_note),
    ));
    v
}

// ---------------------------------------------------------------------------------------
// Diagnostics and logs
// ---------------------------------------------------------------------------------------

/// What the daemon reports about Caddy's process and its findings.
#[derive(Debug)]
pub struct DiagnosticsView {
    pub runtime_status: String,
    pub config_status: String,
    pub process_id: Option<u32>,
    pub version: Option<String>,
    pub binary_path: Option<String>,
    pub admin_endpoint: Option<String>,
    pub runtime_diagnostics: Vec<RuntimeDiagnostic>,
    pub config_diagnostics: Vec<ConfigDiagnostic>,
}

/// A labelled line when there is a value.
pub open spec fn value_line(label: Seq<char>, value: Option<Seq<char>>) -> Seq<BlockView> {
    match value {
        Some(v) => seq![line(label + v)],
        None => Seq::empty(),
    }
}

fn push_value_line(v: &mut Vec<ReportBlock>, label: &str, value: &Option<String>)
    ensures
        blocks_view(final(v)@) == blocks_view(old(v)@) + value_line(label@, crate::inspection::opt_text(*value)),
{
    if let Some(x) = value {
        push_line(v, concat(label, x.as_str()));
    }
    assert(blocks_view(v@) =~= blocks_view(old(v)@) + value_line(label@, crate::inspection::opt_text(*value)));
}

/// A runtime diagnostic's row: code, operation, message.
pub open spec fn runtime_diagnostic_row(d: RuntimeDiagnostic) -> Seq<Seq<char>> {
    seq![d.code@, text_or(crate::inspection::opt_text(d.operation), "-"@), d.message@]
}

/// The Caddyfiles of a configuration diagnostic: joined by `, `, or `-` when there are none.
pub open spec fn caddyfiles_cell(paths: Seq<String>) -> Seq<char> {
    if paths.len() == 0 {
        "-"@
    } else {
        join_with(strings_view(paths), ", "@)
    }
}

/// A configuration diagnostic's row: code, domain, Caddyfiles, message.
pub open spec fn config_diagnostic_row(d: ConfigDiagnostic) -> Seq<Seq<char>> {
    seq![d.code@, text_or(crate::inspection::opt_text(d.domain_key), "-"@), caddyfiles_cell(d.source_config_paths@), d.message@]
}

/// The runtime diagnostics as a table, or `None.`.
pub open spec fn runtime_diagnostic_blocks(ds: Seq<RuntimeDiagnostic>) -> Seq<BlockView> {
    if ds.len() == 0 {
        seq![line("None."@)]
    } else {
        seq![
            BlockView::Table(
                seq!["CODE"@, "OPERATION"@, "MESSAGE"@],
                ds.map_values(|x: RuntimeDiagnostic| runtime_diagnostic_row(x)),
            ),
        ]
    }
}

/// The configuration diagnostics as a table, or `None.`.
pub open spec fn config_diagnostic_blocks(ds: Seq<ConfigDiagnostic>) -> Seq<BlockView> {
    if ds.len() == 0 {
        seq![line("None."@)]
    } else {
        seq![
            BlockView::Table(
                seq!["CODE"@, "DOMAIN"@, "CADDYFILES"@, "MESSAGE"@],
                ds.map_values(|x: ConfigDiagnostic| config_diagnostic_row(x)),
            ),
        ]
    }
}

/// The state and process lines of the `diagnostics` report.
pub open spec fn diagnostics_head(d: DiagnosticsView) -> Seq<BlockView> {
    seq![line("Caddy    "@ + ascii_lowercase(d.runtime_status@)), line("Config   "@ + ascii_lowercase(d.config_status@))]
        + value_line(
        "PID      "@,
        match d.process_id {
            Some(p) => Some(decimal_digits(p as nat)),
            None => None,
        },
    ) + value_line("Version  "@, crate::inspection::opt_text(d.version)) + value_line(
        "Binary   "@,
        crate::inspection::opt_text(d.binary_path),
    ) + value_line("Admin    "@, crate::inspection::opt_text(d.admin_endpoint))
}

/// The `diagnostics` report: Caddy's and the configuration's state, the process details
/// that are known, then the runtime and configuration diagnostics.
pub open spec fn diagnostics_report_view(d: DiagnosticsView) -> Seq<BlockView> {
    diagnostics_head(d) + seq![line(Seq::empty()), line("Runtime diagnostics"@)] + runtime_diagnostic_blocks(
        d.runtime_diagnostics@,
    ) + seq![line(Seq::empty()), line("Configuration diagnostics"@)] + config_diagnostic_blocks(d.config_diagnostics@)
}

fn lowercase(s: &str) -> (r: String)
    ensures
        r@ == ascii_lowercase(s@),
{
    let chars = to_chars(s);
    let lower = to_ascii_lowercase(&chars);
    from_chars(lower.as_slice())
}

fn join_paths(paths: &Vec<String>) -> (r: String)
    ensures
        r@ == caddyfiles_cell(paths@),
{
    if paths.len() == 0 {
        return "-".to_owned();
    }
    let ghost pv = strings_view(paths@);
    let mut r = paths[0].clone();
    let mut i: usize = 1;
    assert(pv.subrange(0, 1).len() == 1);
    while i < paths.len()
        invariant
            1 <= i <= paths.len(),
            pv == strings_view(paths@),
            r@ == join_with(pv.subrange(0, i as int), ", "@),
        decreases paths.len() - i,
    {
        push_str(&mut r, ", ");
        push_str(&mut r, paths[i].as_str());
        assert(pv.subrange(0, i + 1).drop_last() =~= pv.subrange(0, i as int));
        i = i + 1;
    }
    assert(pv.subrange(0, pv.len() as int) =~= pv);
    r
}

fn push_runtime_diagnostics(v: &mut Vec<ReportBlock>, ds: &Vec<RuntimeDiagnostic>)
    ensures
        blocks_view(final(v)@) == blocks_view(old(v)@) + runtime_diagnostic_blocks(ds@),
{
    if ds.len() == 0 {
        push_text(v, "None.");
        assert(blocks_view(v@) =~= blocks_view(old(v)@) + runtime_diagnostic_blocks(ds@));
        return;
    }
    let mut rows: Vec<Vec<String>> = Vec::new();
    let mut k: usize = 0;
    while k < ds.len()
        invariant
            k <= ds.len(),
            rows_view(rows@) == ds@.subrange(0, k as int).map_values(|x: RuntimeDiagnostic| runtime_diagnostic_row(x)),
        decreases ds.len() - k,
    {
        let row = vec![ds[k].code.clone(), text_or_default(&ds[k].operation, "-"), ds[k].message.clone()];
        let ghost old_rows = rows_view(rows@);
        rows.push(row);
        proof {
            assert(strings_view(row@) =~= runtime_diagnostic_row(ds@[k as int]));
            assert(rows_view(rows@) =~= old_rows.push(strings_view(row@)));
            assert(ds@.subrange(0, k + 1).map_values(|x: RuntimeDiagnostic| runtime_diagnostic_row(x)) =~= ds@.subrange(
                0,
                k as int,
            ).map_values(|x: RuntimeDiagnostic| runtime_diagnostic_row(x)).push(runtime_diagnostic_row(ds@[k as int])));
        }
        k = k + 1;
    }
    assert(ds@.subrange(0, ds@.len() as int) =~= ds@);
    let header = texts(&["CODE", "OPERATION", "MESSAGE"]);
    assert(strings_view(header@) =~= seq!["CODE"@, "OPERATION"@, "MESSAGE"@]);
    push_table(v, header, rows);
    assert(blocks_view(v@) =~= blocks_view(old(v)@) + runtime_diagnostic_blocks(ds@));
}

fn push_config_diagnostics(v: &mut Vec<ReportBlock>, ds: &Vec<ConfigDiagnostic>)
    ensures
        blocks_view(final(v)@) == blocks_view(old(v)@) + config_diagnostic_blocks(ds@),
{
    if ds.len() == 0 {
        push_text(v, "None.");
        assert(blocks_view(v@) =~= blocks_view(old(v)@) + config_diagnostic_blocks(ds@));
        return;
    }
    let mut rows: Vec<Vec<String>> = Vec::new();
    let mut k: usize = 0;
    while k < ds.len()
        invariant
            k <= ds.len(),
            rows_view(rows@) == ds@.subrange(0, k as int).map_values(|x: ConfigDiagnostic| config_diagnostic_row(x)),
        decreases ds.len() - k,
    {
        let row = vec![
            ds[k].code.clone(),
            text_or_default(&ds[k].domain_key, "-"),
            join_paths(&ds[k].source_config_paths),
            ds[k].message.clone(),
        ];
        let ghost old_rows = rows_view(rows@);
        rows.push(row);
        proof {
            assert(strings_view(row@) =~= config_diagnostic_row(ds@[k as int]));
            assert(rows_view(rows@) =~= old_rows.push(strings_view(row@)));
            assert(ds@.subrange(0, k + 1).map_values(|x: ConfigDiagnostic| config_diagnostic_row(x)) =~= ds@.subrange(
                0,
                k as int,
            ).map_values(|x: ConfigDiagnostic| config_diagnostic_row(x)).push(config_diagnostic_row(ds@[k as int])));
        }
        k = k + 1;
    }
    assert(ds@.subrange(0, ds@.len() as int) =~= ds@);
    let header = texts(&["CODE", "DOMAIN", "CADDYFILES", "MESSAGE"]);
    assert(strings_view(header@) =~= seq!["CODE"@, "DOMAIN"@, "CADDYFILES"@, "MESSAGE"@]);
    push_table(v, header, rows);
    assert(blocks_view(v@) =~= blocks_view(old(v)@) + config_diagnostic_blocks(ds@));
}

/// The `diagnostics` report.
pub fn diagnostics_report(d: &DiagnosticsView) -> (r: Vec<ReportBlock>)
    ensures
        blocks_view(r@) == diagnostics_report_view(*d),
{
    let mut v: Vec<ReportBlock> = Vec::new();
    push_line(&mut v, concat("Caddy    ", lowercase(d.runtime_status.as_str()).as_str()));
    push_line(&mut v, concat("Config   ", lowercase(d.config_status.as_str()).as_str()));
    let pid = match d.process_id {
        Some(p) => Some(u64_to_decimal(p as u64)),
        None => None,
    };
    push_value_line(&mut v, "PID      ", &pid);
    push_value_line(&mut v, "Version  ", &d.version);
    push_value_line(&mut v, "Binary   ", &d.binary_path);
    push_value_line(&mut v, "Admin    ", &d.admin_endpoint);
    assert(blocks_view(v@) =~= diagnostics_head(*d));
    let ghost head = blocks_view(v@);
    push_line(&mut v, String::new());
    push_text(&mut v, "Runtime diagnostics");
    push_runtime_diagnostics(&mut v, &d.runtime_diagnostics);
    push_line(&mut v, String::new());
    push_text(&mut v, "Configuration diagnostics");
    push_config_diagnostics(&mut v, &d.config_diagnostics);
    assert(blocks_view(v@) =~= diagnostics_report_view(*d));
    v
}

/// A log entry as the `logs` report shows it; its time is already written in RFC 3339.
#[derive(Debug)]
pub struct LogRow {
    pub sequence_number: u64,
    pub timestamp: String,
    pub severity: String,
    pub raw_message: String,
}

/// The log entries of a stream, with the stream's state.
#[derive(Debug)]
pub struct LogsView {
    pub stream_status: LogStreamStatus,
    pub channel: String,
    pub domain_key: Option<String>,
    pub entries: Vec<LogRow>,
}

/// The label of a log stream's state.
pub open spec fn stream_status_text(s: LogStreamStatus) -> Seq<char> {
    match s {
        LogStreamStatus::Active => "active"@,
        LogStreamStatus::Empty => "empty"@,
        LogStreamStatus::Stale => "stale"@,
        LogStreamStatus::Removed => "removed"@,
    }
}

fn stream_status_label(s: LogStreamStatus) -> (r: &'static str)
    ensures
        r@ == stream_status_text(s),
{
    match s {
        LogStreamStatus::Active => "active",
        LogStreamStatus::Empty => "empty",
        LogStreamStatus::Stale => "stale",
        LogStreamStatus::Removed => "removed",
    }
}

/// A log entry's row: sequence number, time, level in lower case, message.
pub open spec fn log_row(e: LogRow) -> Seq<Seq<char>> {
    seq![decimal_digits(e.sequence_number as nat), e.timestamp@, ascii_lowercase(e.severity@), e.raw_message@]
}

/// The `logs` report: the stream's state, channel and domain, then its entries.
pub open spec fn logs_report_view(l: LogsView) -> Seq<BlockView> {
    seq![line("Status   "@ + stream_status_text(l.stream_status)), line("Channel  "@ + l.channel@)] + value_line(
        "Domain   "@,
        crate::inspection::opt_text(l.domain_key),
    ) + if l.entries@.len() == 0 {
        seq![line(Seq::empty()), line("No log entries."@)]
    } else {
        seq![
            line(Seq::empty()),
            BlockView::Table(
                seq!["SEQ"@, "TIME (UTC)"@, "LEVEL"@, "MESSAGE"@],
                l.entries@.map_values(|e: LogRow| log_row(e)),
            ),
        ]
    }
}

/// The `logs` report.
pub fn logs_report(l: &LogsView) -> (r: Vec<ReportBlock>)
    ensures
        blocks_view(r@) == logs_report_view(*l),
{
    let mut v: Vec<ReportBlock> = Vec::new();
    push_line(&mut v, concat("Status   ", stream_status_label(l.stream_status)));
    push_line(&mut v, concat("Channel  ", l.channel.as_str()));
    push_value_line(&mut v, "Domain   ", &l.domain_key);
    push_line(&mut v, String::new());
    if l.entries.len() == 0 {
        push_text(&mut v, "No log entries.");
        assert(blocks_view(v@) =~= logs_report_view(*l));
        return v;
    }
    let es = &l.entries;
    let mut rows: Vec<Vec<String>> = Vec::new();
    let mut k: usize = 0;
    while k < es.len()
        invariant
            k <= es.len(),
            rows_view(rows@) == es@.subrange(0, k as int).map_values(|e: LogRow| log_row(e)),
        decreases es.len() - k,
    {
        let row = vec![
            u64_to_decimal(es[k].sequence_number),
            es[k].timestamp.clone(),
            lowercase(es[k].severity.as_str()),
            es[k].raw_message.clone(),
        ];
        let ghost old_rows = rows_view(rows@);
        rows.push(row);
        proof {
            assert(strings_view(row@) =~= log_row(es@[k as int]));
            assert(rows_view(rows@) =~= old_rows.push(strings_view(row@)));
            assert(es@.subrange(0, k + 1).map_values(|e: LogRow| log_row(e)) =~= es@.subrange(0, k as int).map_values(
                |e: LogRow| log_row(e),
            ).push(log_row(es@[k as int])));
        }
        k = k + 1;
    }
    assert(es@.subrange(0, es@.len() as int) =~= es@);
    let header = texts(&["SEQ", "TIME (UTC)", "LEVEL", "MESSAGE"]);
    assert(strings_view(header@) =~= seq!["SEQ"@, "TIME (UTC)"@, "LEVEL"@, "MESSAGE"@]);
    push_table(&mut v, header, rows);
    assert(blocks_view(v@) =~= logs_report_view(*l));
    v
}

} // verus!
