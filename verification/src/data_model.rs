//! The client's model of the daemon snapshot: the rows of the domains table, grouped by
//! project in order of working directory, and the activation change that toggling a row
//! requests.

use vstd::prelude::*;
use crate::ordered::lex_lt;
use vstd::string::StringSliceAdditionalSpecFns;

verus! {

/// A domain as the snapshot lists it.
#[derive(Debug, Clone)]
pub struct SnapshotDomain {
    /// The domain as registered.
    pub domain: String,
    pub canonical_domain: String,
    pub enabled: bool,
    pub upstream: Option<String>,
}

/// A registered project as the snapshot lists it, with its domains.
#[derive(Debug, Clone)]
pub struct SnapshotEntrypoint {
    pub registration_id: String,
    pub working_directory: String,
    pub enabled: bool,
    pub domains: Vec<SnapshotDomain>,
}

/// The registrations of a daemon state snapshot.
#[derive(Debug, Clone)]
pub struct Snapshot {
    pub registrations: Vec<SnapshotEntrypoint>,
}

/// What a table row stands for.
#[derive(Debug, Clone, PartialEq, Eq)]
pub enum EntityId {
    Entrypoint(String),
    Domain { registration_id: String, canonical_domain: String },
}

/// The view of an entity.
pub enum EntityView {
    Entrypoint(Seq<char>),
    Domain(Seq<char>, Seq<char>),
}

/// The view of an entity.
pub open spec fn entity_view(e: EntityId) -> EntityView {
    match e {
        EntityId::Entrypoint(id) => EntityView::Entrypoint(id@),
        EntityId::Domain { registration_id, canonical_domain } => EntityView::Domain(
            registration_id@,
            canonical_domain@,
        ),
    }
}

/// Whether a row is a project or one of its domains.
#[derive(Debug, Clone, Copy, PartialEq, Eq, Structural)]
pub enum DomainRowKind {
    Entrypoint,
    Domain,
}

/// One row of the domains table.
#[derive(Debug, Clone)]
pub struct DomainTableRow {
    entity: EntityId,
    kind: DomainRowKind,
    enabled: bool,
    visually_enabled: bool,
    name: String,
    name_emphasis_start: Option<usize>,
    endpoint: String,
    last_in_project: bool,
}

/// The view of a row.
pub struct RowView {
    pub entity: EntityView,
    pub kind: DomainRowKind,
    pub enabled: bool,
    pub visually_enabled: bool,
    pub name: Seq<char>,
    pub name_emphasis_start: Option<usize>,
    pub endpoint: Seq<char>,
    pub last_in_project: bool,
}

impl View for DomainTableRow {
    type V = RowView;

    closed spec fn view(&self) -> RowView {
        RowView {
            entity: entity_view(self.entity),
            kind: self.kind,
            enabled: self.enabled,
            visually_enabled: self.visually_enabled,
            name: self.name@,
            name_emphasis_start: self.name_emphasis_start,
            endpoint: self.endpoint@,
            last_in_project: self.last_in_project,
        }
    }
}

/// The views of a list of rows.
pub open spec fn rows_view(rows: Seq<DomainTableRow>) -> Seq<RowView> {
    rows.map_values(|r: DomainTableRow| r@)
}

// ---------------------------------------------------------------------------------------
// Stable ordering by a pair of texts
// ---------------------------------------------------------------------------------------

/// Lexicographic order of pairs of texts.
pub open spec fn pair_lt(a: (Seq<char>, Seq<char>), b: (Seq<char>, Seq<char>)) -> bool {
    lex_lt(a.0, b.0) || (a.0 == b.0 && lex_lt(a.1, b.1))
}

/// How many leading elements of `order` do not sort after key `k`.
pub open spec fn stable_position(order: Seq<int>, keys: Seq<(Seq<char>, Seq<char>)>, k: (Seq<char>, Seq<char>)) -> int
    decreases order.len(),
{
    if order.len() == 0 {
        0
    } else if !pair_lt(k, keys[order[0]]) {
        1 + stable_position(order.drop_first(), keys, k)
    } else {
        0
    }
}

/// The positions `0..n` in stable ascending order of their keys: each position is inserted
/// after every earlier one whose key does not sort after its own.
pub open spec fn stable_order(n: int, keys: Seq<(Seq<char>, Seq<char>)>) -> Seq<int>
    decreases n,
{
    if n <= 0 {
        Seq::empty()
    } else {
        let rest = stable_order(n - 1, keys);
        rest.insert(stable_position(rest, keys, keys[n - 1]), n - 1)
    }
}

/// The view of a list of key pairs.
pub open spec fn keys_view(keys: Seq<(String, String)>) -> Seq<(Seq<char>, Seq<char>)> {
    keys.map_values(|k: (String, String)| (k.0@, k.1@))
}

proof fn lemma_stable_order_bounds(n: int, keys: Seq<(Seq<char>, Seq<char>)>)
    requires
        n >= 0,
    ensures
        stable_order(n, keys).len() == n,
        forall|i: int| 0 <= i < n ==> 0 <= #[trigger] stable_order(n, keys)[i] < n,
    decreases n,
{
    if n > 0 {
        lemma_stable_order_bounds(n - 1, keys);
        let rest = stable_order(n - 1, keys);
        lemma_stable_position_bounds(rest, keys, keys[n - 1]);
        let p = stable_position(rest, keys, keys[n - 1]);
        let o = rest.insert(p, n - 1);
        assert forall|i: int| 0 <= i < n implies 0 <= #[trigger] o[i] < n by {
            if i < p {
                assert(o[i] == rest[i]);
            } else if i > p {
                assert(o[i] == rest[i - 1]);
            }
        }
    }
}

/// The stable order of `n` positions holds `n` positions, each of `0..n` among them: it
/// reorders the positions without losing any.
pub proof fn lemma_stable_order_covers(n: int, keys: Seq<(Seq<char>, Seq<char>)>, p: int)
    requires
        0 <= p < n,
    ensures
        stable_order(n, keys).len() == n,
        stable_order(n, keys).contains(p),
    decreases n,
{
    lemma_stable_order_bounds(n, keys);
    let rest = stable_order(n - 1, keys);
    lemma_stable_order_bounds(n - 1, keys);
    lemma_stable_position_bounds(rest, keys, keys[n - 1]);
    let pos = stable_position(rest, keys, keys[n - 1]);
    let o = rest.insert(pos, n - 1);
    assert(stable_order(n, keys) == o);
    if p == n - 1 {
        assert(o[pos] == n - 1);
    } else {
        lemma_stable_order_covers(n - 1, keys, p);
        let j = choose|j: int| 0 <= j < rest.len() && rest[j] == p;
        if j < pos {
            assert(o[j] == p);
        } else {
            assert(o[j + 1] == p);
        }
    }
}

proof fn lemma_stable_position_bounds(order: Seq<int>, keys: Seq<(Seq<char>, Seq<char>)>, k: (Seq<char>, Seq<char>))
    ensures
        0 <= stable_position(order, keys, k) <= order.len(),
    decreases order.len(),
{
    if order.len() > 0 {
        lemma_stable_position_bounds(order.drop_first(), keys, k);
    }
}

fn key_lt(a: &(String, String), b: &(String, String)) -> (r: bool)
    ensures
        r == pair_lt((a.0@, a.1@), (b.0@, b.1@)),
{
    if crate::ordered::text_lt(a.0.as_str(), b.0.as_str()) {
        true
    } else if a.0 == b.0 {
        crate::ordered::text_lt(a.1.as_str(), b.1.as_str())
    } else {
        false
    }
}

/// The positions of `keys` in stable ascending order.
pub fn stable_sort_positions(keys: &Vec<(String, String)>) -> (r: Vec<usize>)
    ensures
        r@.len() == keys@.len(),
        forall|i: int| 0 <= i < r@.len() ==> #[trigger] r@[i] < keys@.len(),
        r@.map_values(|p: usize| p as int) == stable_order(keys@.len() as int, keys_view(keys@)),
{
    let ghost kv = keys_view(keys@);
    let mut order: Vec<usize> = Vec::new();
    let mut n: usize = 0;
    assert(order@.map_values(|p: usize| p as int) =~= stable_order(0, kv));
    while n < keys.len()
        invariant
            n <= keys.len(),
            kv == keys_view(keys@),
            order@.len() == n,
            forall|i: int| 0 <= i < order@.len() ==> #[trigger] order@[i] < n,
            order@.map_values(|p: usize| p as int) == stable_order(n as int, kv),
        decreases keys.len() - n,
    {
        let ghost rest = order@.map_values(|p: usize| p as int);
        let mut j: usize = 0;
        assert(rest.subrange(0, rest.len() as int) =~= rest);
        while j < order.len() && !key_lt(&keys[n], &keys[order[j]])
            invariant
                j <= order.len(),
                n < keys.len(),
                kv == keys_view(keys@),
                rest == order@.map_values(|p: usize| p as int),
                forall|i: int| 0 <= i < order@.len() ==> #[trigger] order@[i] < n,
                stable_position(rest, kv, kv[n as int]) == j + stable_position(rest.subrange(j as int, rest.len() as int), kv, kv[n as int]),
            decreases order.len() - j,
        {
            let ghost tail = rest.subrange(j as int, rest.len() as int);
            assert(tail[0] == order@[j as int] as int);
            assert(tail.drop_first() =~= rest.subrange(j + 1, rest.len() as int));
            assert(kv[order@[j as int] as int] == (keys@[order@[j as int] as int].0@, keys@[order@[j as int] as int].1@));
            assert(kv[n as int] == (keys@[n as int].0@, keys@[n as int].1@));
            j = j + 1;
        }
        proof {
            let tail = rest.subrange(j as int, rest.len() as int);
            if j < order.len() {
                assert(tail[0] == order@[j as int] as int);
                assert(kv[order@[j as int] as int] == (keys@[order@[j as int] as int].0@, keys@[order@[j as int] as int].1@));
                assert(kv[n as int] == (keys@[n as int].0@, keys@[n as int].1@));
            }
            assert(stable_position(rest, kv, kv[n as int]) == j);
        }
        order.insert(j, n);
        proof {
            assert(order@.map_values(|p: usize| p as int) =~= rest.insert(j as int, n as int));
        }
        n = n + 1;
    }
    order
}

// ---------------------------------------------------------------------------------------
// Rows
// ---------------------------------------------------------------------------------------

/// The sort key of a project: its working directory.
pub open spec fn entrypoint_keys(regs: Seq<SnapshotEntrypoint>) -> Seq<(Seq<char>, Seq<char>)> {
    regs.map_values(|e: SnapshotEntrypoint| (e.working_directory@, Seq::<char>::empty()))
}

/// Every domain of the snapshot with its project's index, in snapshot order.
pub open spec fn all_domains(regs: Seq<SnapshotEntrypoint>) -> Seq<(int, SnapshotDomain)>
    decreases regs.len(),
{
    if regs.len() == 0 {
        Seq::empty()
    } else {
        let i = regs.len() - 1;
        all_domains(regs.drop_last()) + regs.last().domains@.map_values(|d: SnapshotDomain| (i, d))
    }
}

/// The sort key of a domain: its project's working directory, then its canonical name.
pub open spec fn domain_keys(regs: Seq<SnapshotEntrypoint>) -> Seq<(Seq<char>, Seq<char>)> {
    all_domains(regs).map_values(
        |d: (int, SnapshotDomain)| (regs[d.0].working_directory@, d.1.canonical_domain@),
    )
}

/// The domains of the snapshot, sorted by working directory and canonical name.
pub open spec fn sorted_domains(regs: Seq<SnapshotEntrypoint>) -> Seq<(int, SnapshotDomain)> {
    stable_order(all_domains(regs).len() as int, domain_keys(regs)).map_values(
        |p: int| all_domains(regs)[p],
    )
}

/// Whether a domain belongs to registration `id`.
pub open spec fn owned_by(regs: Seq<SnapshotEntrypoint>, id: Seq<char>) -> spec_fn((int, SnapshotDomain)) -> bool {
    |d: (int, SnapshotDomain)| regs[d.0].registration_id@ == id
}

/// The sorted domains that belong to registration `id`.
pub open spec fn domains_of(regs: Seq<SnapshotEntrypoint>, id: Seq<char>) -> Seq<(int, SnapshotDomain)> {
    sorted_domains(regs).filter(owned_by(regs, id))
}

/// The upstream of a domain as the table shows it: empty when there is none.
pub open spec fn endpoint_text(u: Option<String>) -> Seq<char> {
    match u {
        Some(s) => s@,
        None => Seq::empty(),
    }
}

/// The emphasis start recorded for a working directory: the last entry for it.
pub open spec fn emphasis_for(emphasis: Seq<(Seq<char>, usize)>, wd: Seq<char>) -> Option<usize>
    decreases emphasis.len(),
{
    if emphasis.len() == 0 {
        None
    } else if emphasis.last().0 == wd {
        Some(emphasis.last().1)
    } else {
        emphasis_for(emphasis.drop_last(), wd)
    }
}

/// The row of a project.
pub open spec fn entrypoint_row(e: SnapshotEntrypoint, emphasis: Seq<(Seq<char>, usize)>) -> RowView {
    RowView {
        entity: EntityView::Entrypoint(e.registration_id@),
        kind: DomainRowKind::Entrypoint,
        enabled: e.enabled,
        visually_enabled: e.enabled,
        name: e.working_directory@,
        name_emphasis_start: emphasis_for(emphasis, e.working_directory@),
        endpoint: Seq::empty(),
        last_in_project: false,
    }
}

/// The row of a domain under project `e`.
pub open spec fn domain_row(e: SnapshotEntrypoint, d: SnapshotDomain, last: bool) -> RowView {
    RowView {
        entity: EntityView::Domain(e.registration_id@, d.canonical_domain@),
        kind: DomainRowKind::Domain,
        enabled: d.enabled,
        visually_enabled: e.enabled && d.enabled,
        name: d.domain@,
        name_emphasis_start: None,
        endpoint: endpoint_text(d.upstream),
        last_in_project: last,
    }
}

/// The rows of one project: its own row, then its domains in order, the last one marked.
pub open spec fn project_rows(regs: Seq<SnapshotEntrypoint>, emphasis: Seq<(Seq<char>, usize)>, e: SnapshotEntrypoint) -> Seq<RowView> {
    let ds = domains_of(regs, e.registration_id@);
    seq![entrypoint_row(e, emphasis)] + Seq::new(
        ds.len(),
        |k: int| domain_row(e, ds[k].1, k + 1 == ds.len()),
    )
}

/// The rows of the projects at the given positions, in that order.
pub open spec fn rows_in_order(regs: Seq<SnapshotEntrypoint>, emphasis: Seq<(Seq<char>, usize)>, order: Seq<int>) -> Seq<RowView>
    decreases order.len(),
{
    if order.len() == 0 {
        Seq::empty()
    } else {
        rows_in_order(regs, emphasis, order.drop_last()) + project_rows(regs, emphasis, regs[order.last()])
    }
}

/// The rows of the domains table: projects in stable order of working directory, each
/// followed by its domains in order of working directory and canonical name.
pub open spec fn table_rows(regs: Seq<SnapshotEntrypoint>, emphasis: Seq<(Seq<char>, usize)>) -> Seq<RowView> {
    rows_in_order(regs, emphasis, stable_order(regs.len() as int, entrypoint_keys(regs)))
}

/// The view of emphasis entries.
pub open spec fn emphasis_view(e: Seq<(String, usize)>) -> Seq<(Seq<char>, usize)> {
    e.map_values(|x: (String, usize)| (x.0@, x.1))
}

/// The domain of a flattened position.
pub open spec fn pair_domain(regs: Seq<SnapshotEntrypoint>, p: (usize, usize)) -> (int, SnapshotDomain) {
    (p.0 as int, regs[p.0 as int].domains@[p.1 as int])
}

pub(crate) fn copy_opt(s: &Option<String>) -> (r: Option<String>)
    ensures
        r == *s,
{
    match s {
        Some(v) => Some(v.clone()),
        None => None,
    }
}

fn lookup_emphasis(emphasis: &Vec<(String, usize)>, wd: &str) -> (r: Option<usize>)
    ensures
        r == emphasis_for(emphasis_view(emphasis@), wd@),
{
    let ghost ev = emphasis_view(emphasis@);
    let mut i: usize = emphasis.len();
    assert(ev.subrange(0, ev.len() as int) =~= ev);
    while i > 0
        invariant
            i <= emphasis.len(),
            ev == emphasis_view(emphasis@),
            emphasis_for(ev, wd@) == emphasis_for(ev.subrange(0, i as int), wd@),
        decreases i,
    {
        let ghost pre = ev.subrange(0, i as int);
        assert(pre.drop_last() =~= ev.subrange(0, i - 1));
        assert(pre.last() == ev[i - 1]);
        if emphasis[i - 1].0.as_str().to_owned() == wd.to_owned() {
            return Some(emphasis[i - 1].1);
        }
        i = i - 1;
    }
    None
}

/// The table rows of a snapshot.
fn rows_for(snapshot: &Snapshot, emphasis: &Vec<(String, usize)>) -> (r: Vec<DomainTableRow>)
    ensures
        rows_view(r@) == table_rows(snapshot.registrations@, emphasis_view(emphasis@)),
{
    let regs = &snapshot.registrations;
    let ghost rv = regs@;
    let ghost ev = emphasis_view(emphasis@);
    // projects by working directory
    let mut ekeys: Vec<(String, String)> = Vec::new();
    let mut i: usize = 0;
    while i < regs.len()
        invariant
            i <= regs.len(),
            rv == regs@,
            keys_view(ekeys@) == entrypoint_keys(rv.subrange(0, i as int)),
        decreases regs.len() - i,
    {
        let ghost prev = ekeys@;
        ekeys.push((regs[i].working_directory.clone(), String::new()));
        proof {
            assert(rv.subrange(0, i + 1) =~= rv.subrange(0, i as int).push(rv[i as int]));
            assert(keys_view(ekeys@) =~= keys_view(prev).push((rv[i as int].working_directory@, Seq::<char>::empty())));
            assert(entrypoint_keys(rv.subrange(0, i + 1)) =~= entrypoint_keys(rv.subrange(0, i as int)).push(
                (rv[i as int].working_directory@, Seq::<char>::empty()),
            ));
        }
        i = i + 1;
    }
    assert(rv.subrange(0, rv.len() as int) =~= rv);
    let eorder = stable_sort_positions(&ekeys);
    // every domain with its project, in snapshot order
    let mut all: Vec<(usize, usize)> = Vec::new();
    let mut dkeys: Vec<(String, String)> = Vec::new();
    let mut i: usize = 0;
    while i < regs.len()
        invariant
            i <= regs.len(),
            rv == regs@,
            all@.map_values(|p: (usize, usize)| pair_domain(rv, p)) == all_domains(rv.subrange(0, i as int)),
            forall|k: int| 0 <= k < all@.len() ==> (#[trigger] all@[k]).0 < i && all@[k].1 < rv[all@[k].0 as int].domains@.len(),
            keys_view(dkeys@) == all_domains(rv.subrange(0, i as int)).map_values(
                |d: (int, SnapshotDomain)| (rv[d.0].working_directory@, d.1.canonical_domain@),
            ),
        decreases regs.len() - i,
    {
        let ghost before_all = all@;
        let ghost before_keys = keys_view(dkeys@);
        let ds = &regs[i].domains;
        let mut j: usize = 0;
        while j < ds.len()
            invariant
                i < regs.len(),
                rv == regs@,
                ds == &regs@[i as int].domains,
                j <= ds.len(),
                all@.map_values(|p: (usize, usize)| pair_domain(rv, p)) == before_all.map_values(
                    |p: (usize, usize)| pair_domain(rv, p),
                ) + ds@.subrange(0, j as int).map_values(|d: SnapshotDomain| (i as int, d)),
                forall|k: int| 0 <= k < all@.len() ==> (#[trigger] all@[k]).0 <= i && all@[k].1 < rv[all@[k].0 as int].domains@.len(),
                keys_view(dkeys@) == before_keys + ds@.subrange(0, j as int).map_values(
                    |d: SnapshotDomain| (rv[i as int].working_directory@, d.canonical_domain@),
                ),
            decreases ds.len() - j,
        {
            let ghost pa = all@;
            let ghost pk = dkeys@;
            all.push((i, j));
            dkeys.push((regs[i].working_directory.clone(), ds[j].canonical_domain.clone()));
            proof {
                assert(ds@.subrange(0, j + 1) =~= ds@.subrange(0, j as int).push(ds@[j as int]));
                assert(all@.map_values(|p: (usize, usize)| pair_domain(rv, p)) =~= pa.map_values(
                    |p: (usize, usize)| pair_domain(rv, p),
                ).push((i as int, ds@[j as int])));
                assert(ds@.subrange(0, j + 1).map_values(|d: SnapshotDomain| (i as int, d)) =~= ds@.subrange(
                    0,
                    j as int,
                ).map_values(|d: SnapshotDomain| (i as int, d)).push((i as int, ds@[j as int])));
                assert(keys_view(dkeys@) =~= keys_view(pk).push((rv[i as int].working_directory@, ds@[j as int].canonical_domain@)));
                assert(ds@.subrange(0, j + 1).map_values(
                    |d: SnapshotDomain| (rv[i as int].working_directory@, d.canonical_domain@),
                ) =~= ds@.subrange(0, j as int).map_values(
                    |d: SnapshotDomain| (rv[i as int].working_directory@, d.canonical_domain@),
                ).push((rv[i as int].working_directory@, ds@[j as int].canonical_domain@)));
            }
            j = j + 1;
        }
        proof {
            assert(ds@.subrange(0, ds@.len() as int) =~= ds@);
            let pre = rv.subrange(0, i as int);
            let next = rv.subrange(0, i + 1);
            assert(next.drop_last() =~= pre);
            assert(next.last() == rv[i as int]);
            assert(all_domains(next) == all_domains(pre) + rv[i as int].domains@.map_values(|d: SnapshotDomain| (i as int, d)));
            assert(all_domains(next).map_values(
                |d: (int, SnapshotDomain)| (rv[d.0].working_directory@, d.1.canonical_domain@),
            ) =~= all_domains(pre).map_values(
                |d: (int, SnapshotDomain)| (rv[d.0].working_directory@, d.1.canonical_domain@),
            ) + ds@.map_values(|d: SnapshotDomain| (rv[i as int].working_directory@, d.canonical_domain@)));
        }
        i = i + 1;
    }
    assert(rv.subrange(0, rv.len() as int) =~= rv);
    let dorder = stable_sort_positions(&dkeys);
    proof {
        assert(keys_view(dkeys@) == domain_keys(rv));
        assert(all_domains(rv).len() == all@.len()) by {
            assert(all@.map_values(|p: (usize, usize)| pair_domain(rv, p)).len() == all@.len());
        }
    }
    let ghost sorted = sorted_domains(rv);
    let ghost eo = stable_order(rv.len() as int, entrypoint_keys(rv));
    // the rows, project by project
    let mut rows: Vec<DomainTableRow> = Vec::new();
    let mut k: usize = 0;
    while k < eorder.len()
        invariant
            k <= eorder.len(),
            rv == regs@,
            ev == emphasis_view(emphasis@),
            eorder@.len() == rv.len(),
            forall|x: int| 0 <= x < eorder@.len() ==> #[trigger] eorder@[x] < rv.len(),
            eorder@.map_values(|p: usize| p as int) == eo,
            dorder@.len() == all@.len(),
            forall|x: int| 0 <= x < dorder@.len() ==> #[trigger] dorder@[x] < all@.len(),
            dorder@.map_values(|p: usize| p as int) == stable_order(all@.len() as int, domain_keys(rv)),
            all@.map_values(|p: (usize, usize)| pair_domain(rv, p)) == all_domains(rv),
            forall|x: int| 0 <= x < all@.len() ==> (#[trigger] all@[x]).0 < rv.len() && all@[x].1 < rv[all@[x].0 as int].domains@.len(),
            sorted == sorted_domains(rv),
            all_domains(rv).len() == all@.len(),
            rows_view(rows@) == rows_in_order(rv, ev, eo.subrange(0, k as int)),
        decreases eorder.len() - k,
    {
        let e = &regs[eorder[k]];
        // this project's domains, in sorted order
        let mut mine: Vec<(usize, usize)> = Vec::new();
        let ghost pred = owned_by(rv, e.registration_id@);
        let mut x: usize = 0;
        while x < dorder.len()
            invariant
                x <= dorder.len(),
                rv == regs@,
                dorder@.len() == all@.len(),
                forall|y: int| 0 <= y < dorder@.len() ==> #[trigger] dorder@[y] < all@.len(),
                dorder@.map_values(|p: usize| p as int) == stable_order(all@.len() as int, domain_keys(rv)),
                all@.map_values(|p: (usize, usize)| pair_domain(rv, p)) == all_domains(rv),
                forall|y: int| 0 <= y < all@.len() ==> (#[trigger] all@[y]).0 < rv.len() && all@[y].1 < rv[all@[y].0 as int].domains@.len(),
                sorted == sorted_domains(rv),
                all_domains(rv).len() == all@.len(),
                pred == owned_by(rv, e.registration_id@),
                forall|y: int| 0 <= y < mine@.len() ==> (#[trigger] mine@[y]).0 < rv.len() && mine@[y].1 < rv[mine@[y].0 as int].domains@.len(),
                mine@.map_values(|p: (usize, usize)| pair_domain(rv, p)) == sorted.subrange(0, x as int).filter(pred),
            decreases dorder.len() - x,
        {
            let p = all[dorder[x]];
            proof {
                reveal(Seq::filter);
                assert(sorted.subrange(0, x + 1).drop_last() =~= sorted.subrange(0, x as int));
                assert(sorted[x as int] == all_domains(rv)[dorder@[x as int] as int]);
                assert(all_domains(rv)[dorder@[x as int] as int] == pair_domain(rv, p));
                assert(sorted.subrange(0, x + 1).last() == pair_domain(rv, p));
            }
            if regs[p.0].registration_id == e.registration_id {
                let ghost prev = mine@;
                mine.push(p);
                proof {
                    assert(mine@.map_values(|q: (usize, usize)| pair_domain(rv, q)) =~= prev.map_values(
                        |q: (usize, usize)| pair_domain(rv, q),
                    ).push(pair_domain(rv, p)));
                }
            }
            x = x + 1;
        }
        proof {
            assert(sorted.subrange(0, sorted.len() as int) =~= sorted);
            assert(sorted.len() == dorder@.len());
        }
        let ghost ds = domains_of(rv, e.registration_id@);
        assert(mine@.map_values(|p: (usize, usize)| pair_domain(rv, p)) == ds);
        let ghost before = rows_view(rows@);
        let erow = DomainTableRow {
            entity: EntityId::Entrypoint(e.registration_id.clone()),
            kind: DomainRowKind::Entrypoint,
            enabled: e.enabled,
            visually_enabled: e.enabled,
            name: e.working_directory.clone(),
            name_emphasis_start: lookup_emphasis(emphasis, e.working_directory.as_str()),
            endpoint: String::new(),
            last_in_project: false,
        };
        rows.push(erow);
        proof {
            assert(rows_view(rows@) =~= before.push(entrypoint_row(*e, ev)));
        }
        let mut m: usize = 0;
        while m < mine.len()
            invariant
                m <= mine.len(),
                rv == regs@,
                forall|y: int| 0 <= y < mine@.len() ==> (#[trigger] mine@[y]).0 < rv.len() && mine@[y].1 < rv[mine@[y].0 as int].domains@.len(),
                mine@.map_values(|p: (usize, usize)| pair_domain(rv, p)) == ds,
                rows_view(rows@) == before.push(entrypoint_row(*e, ev)) + Seq::new(
                    m as nat,
                    |j: int| domain_row(*e, ds[j].1, j + 1 == ds.len()),
                ),
            decreases mine.len() - m,
        {
            let p = mine[m];
            let d = &regs[p.0].domains[p.1];
            proof {
                assert(ds[m as int] == pair_domain(rv, p));
            }
            let row = DomainTableRow {
                entity: EntityId::Domain {
                    registration_id: e.registration_id.clone(),
                    canonical_domain: d.canonical_domain.clone(),
                },
                kind: DomainRowKind::Domain,
                enabled: d.enabled,
                visually_enabled: e.enabled && d.enabled,
                name: d.domain.clone(),
                name_emphasis_start: None,
                endpoint: match &d.upstream {
                    Some(u) => u.clone(),
                    None => String::new(),
                },
                last_in_project: m + 1 == mine.len(),
            };
            let ghost prev = rows_view(rows@);
            rows.push(row);
            proof {
                assert(row@ == domain_row(*e, ds[m as int].1, m + 1 == ds.len()));
                assert(rows_view(rows@) =~= prev.push(row@));
                assert(Seq::new((m + 1) as nat, |j: int| domain_row(*e, ds[j].1, j + 1 == ds.len())) =~= Seq::new(
                    m as nat,
                    |j: int| domain_row(*e, ds[j].1, j + 1 == ds.len()),
                ).push(domain_row(*e, ds[m as int].1, m + 1 == ds.len())));
                assert(before.push(entrypoint_row(*e, ev)) + Seq::new(
                    (m + 1) as nat,
                    |j: int| domain_row(*e, ds[j].1, j + 1 == ds.len()),
                ) =~= (before.push(entrypoint_row(*e, ev)) + Seq::new(
                    m as nat,
                    |j: int| domain_row(*e, ds[j].1, j + 1 == ds.len()),
                )).push(domain_row(*e, ds[m as int].1, m + 1 == ds.len())));
            }
            m = m + 1;
        }
        proof {
            let o = eo.subrange(0, k + 1);
            assert(o.drop_last() =~= eo.subrange(0, k as int));
            assert(o.last() == eorder@[k as int] as int);
            assert(rv[o.last()] == *e);
            assert(project_rows(rv, ev, *e) =~= seq![entrypoint_row(*e, ev)] + Seq::new(
                ds.len(),
                |j: int| domain_row(*e, ds[j].1, j + 1 == ds.len()),
            ));
            assert(rows_view(rows@) =~= before + project_rows(rv, ev, *e));
        }
        k = k + 1;
    }
    assert(eo.subrange(0, eo.len() as int) =~= eo);
    rows
}

/// The activation change that toggling a row requests.
#[derive(Debug, Clone, PartialEq, Eq)]
pub struct MutationTarget {
    pub entity: EntityId,
    pub enabled: bool,
}

/// The first project with registration `id`.
pub open spec fn find_entrypoint(regs: Seq<SnapshotEntrypoint>, id: Seq<char>) -> Option<SnapshotEntrypoint>
    decreases regs.len(),
{
    if regs.len() == 0 {
        None
    } else if regs[0].registration_id@ == id {
        Some(regs[0])
    } else {
        find_entrypoint(regs.drop_first(), id)
    }
}

/// The first domain of `ds` with canonical name `c`.
pub open spec fn find_domain(ds: Seq<SnapshotDomain>, c: Seq<char>) -> Option<SnapshotDomain>
    decreases ds.len(),
{
    if ds.len() == 0 {
        None
    } else if ds[0].canonical_domain@ == c {
        Some(ds[0])
    } else {
        find_domain(ds.drop_first(), c)
    }
}

/// What toggling an entity requests: the opposite of its current activation, when the
/// entity still exists.
pub open spec fn toggle_target(regs: Seq<SnapshotEntrypoint>, entity: EntityView) -> Option<bool> {
    match entity {
        EntityView::Entrypoint(id) => match find_entrypoint(regs, id) {
            Some(e) => Some(!e.enabled),
            None => None,
        },
        EntityView::Domain(id, c) => match find_entrypoint(regs, id) {
            Some(e) => match find_domain(e.domains@, c) {
                Some(d) => Some(!d.enabled),
                None => None,
            },
            None => None,
        },
    }
}

fn find_entrypoint_index(regs: &Vec<SnapshotEntrypoint>, id: &str) -> (r: Option<usize>)
    ensures
        match find_entrypoint(regs@, id@) {
            Some(e) => r matches Some(i) && i < regs@.len() && regs@[i as int] == e,
            None => r is None,
        },
{
    let ghost rv = regs@;
    assert(rv.subrange(0, rv.len() as int) =~= rv);
    let mut i: usize = 0;
    while i < regs.len()
        invariant
            i <= regs.len(),
            rv == regs@,
            find_entrypoint(rv, id@) == find_entrypoint(rv.subrange(i as int, rv.len() as int), id@),
        decreases regs.len() - i,
    {
        let ghost rest = rv.subrange(i as int, rv.len() as int);
        assert(rest[0] == rv[i as int]);
        assert(rest.drop_first() =~= rv.subrange(i + 1, rv.len() as int));
        if regs[i].registration_id.as_str().to_owned() == id.to_owned() {
            return Some(i);
        }
        i = i + 1;
    }
    None
}

fn find_domain_index(ds: &Vec<SnapshotDomain>, c: &str) -> (r: Option<usize>)
    ensures
        match find_domain(ds@, c@) {
            Some(d) => r matches Some(i) && i < ds@.len() && ds@[i as int] == d,
            None => r is None,
        },
{
    let ghost dv = ds@;
    assert(dv.subrange(0, dv.len() as int) =~= dv);
    let mut i: usize = 0;
    while i < ds.len()
        invariant
            i <= ds.len(),
            dv == ds@,
            find_domain(dv, c@) == find_domain(dv.subrange(i as int, dv.len() as int), c@),
        decreases ds.len() - i,
    {
        let ghost rest = dv.subrange(i as int, dv.len() as int);
        assert(rest[0] == dv[i as int]);
        assert(rest.drop_first() =~= dv.subrange(i + 1, dv.len() as int));
        if ds[i].canonical_domain.as_str().to_owned() == c.to_owned() {
            return Some(i);
        }
        i = i + 1;
    }
    None
}

fn copy_entity(e: &EntityId) -> (r: EntityId)
    ensures
        entity_view(r) == entity_view(*e),
{
    match e {
        EntityId::Entrypoint(id) => EntityId::Entrypoint(id.clone()),
        EntityId::Domain { registration_id, canonical_domain } => EntityId::Domain {
            registration_id: registration_id.clone(),
            canonical_domain: canonical_domain.clone(),
        },
    }
}

/// The client's view of the daemon state and what it remembers between snapshots.
#[derive(Debug, Clone)]
pub struct DataModel {
    snapshot: Option<Snapshot>,
    project_name_emphasis: Vec<(String, usize)>,
}

/// The emphasis entries of a new snapshot: for each project in order, the start remembered
/// for its working directory, else the computed default.
pub open spec fn next_emphasis(previous: Seq<(Seq<char>, usize)>, regs: Seq<SnapshotEntrypoint>, defaults: Seq<usize>) -> Seq<(Seq<char>, usize)> {
    Seq::new(
        regs.len(),
        |i: int| (
            regs[i].working_directory@,
            match emphasis_for(previous, regs[i].working_directory@) {
                Some(s) => s,
                None => defaults[i],
            },
        ),
    )
}

impl DataModel {
    /// The current snapshot's projects, if there is a snapshot.
    pub closed spec fn spec_registrations(&self) -> Option<Seq<SnapshotEntrypoint>> {
        match self.snapshot {
            Some(s) => Some(s.registrations@),
            None => None,
        }
    }

    /// The remembered emphasis starts, by working directory.
    pub closed spec fn spec_emphasis(&self) -> Seq<(Seq<char>, usize)> {
        emphasis_view(self.project_name_emphasis@)
    }

    /// A model without a snapshot.
    pub fn new() -> (r: DataModel)
        ensures
            r.spec_registrations() is None,
            r.spec_emphasis() == Seq::<(Seq<char>, usize)>::empty(),
    {
        let r = DataModel { snapshot: None, project_name_emphasis: Vec::new() };
        assert(emphasis_view(r.project_name_emphasis@) =~= Seq::<(Seq<char>, usize)>::empty());
        r
    }

    /// Takes a new snapshot. Each project keeps the emphasis start remembered for its working
    /// directory; a new one gets its entry of `defaults` (computed by the caller for each
    /// project, in order).
    pub fn replace_snapshot(&mut self, snapshot: Snapshot, defaults: &Vec<usize>)
        requires
            defaults@.len() == snapshot.registrations@.len(),
        ensures
            final(self).spec_registrations() == Some(snapshot.registrations@),
            final(self).spec_emphasis() == next_emphasis(old(self).spec_emphasis(), snapshot.registrations@, defaults@),
    {
        let ghost previous = emphasis_view(self.project_name_emphasis@);
        let regs = &snapshot.registrations;
        let mut next: Vec<(String, usize)> = Vec::new();
        let mut i: usize = 0;
        while i < regs.len()
            invariant
                i <= regs.len(),
                defaults@.len() == regs@.len(),
                previous == emphasis_view(self.project_name_emphasis@),
                emphasis_view(next@) == next_emphasis(previous, regs@, defaults@).subrange(0, i as int),
            decreases regs.len() - i,
        {
            let start = match lookup_emphasis(&self.project_name_emphasis, regs[i].working_directory.as_str()) {
                Some(s) => s,
                None => defaults[i],
            };
            let ghost prev = next@;
            next.push((regs[i].working_directory.clone(), start));
            proof {
                assert(emphasis_view(next@) =~= emphasis_view(prev).push((regs@[i as int].working_directory@, start)));
                assert(next_emphasis(previous, regs@, defaults@).subrange(0, i + 1) =~= next_emphasis(previous, regs@, defaults@).subrange(
                    0,
                    i as int,
                ).push((regs@[i as int].working_directory@, start)));
            }
            i = i + 1;
        }
        assert(next_emphasis(previous, regs@, defaults@).subrange(0, regs@.len() as int) =~= next_emphasis(previous, regs@, defaults@));
        self.project_name_emphasis = next;
        self.snapshot = Some(snapshot);
    }

    /// Forgets the snapshot and the remembered emphasis.
    pub fn clear_snapshot(&mut self)
        ensures
            final(self).spec_registrations() is None,
            final(self).spec_emphasis() == Seq::<(Seq<char>, usize)>::empty(),
    {
        self.snapshot = None;
        self.project_name_emphasis = Vec::new();
        assert(emphasis_view(self.project_name_emphasis@) =~= Seq::<(Seq<char>, usize)>::empty());
    }

    /// The rows of the domains table; none without a snapshot.
    pub fn domain_rows(&self) -> (r: Vec<DomainTableRow>)
        ensures
            match self.spec_registrations() {
                Some(regs) => rows_view(r@) == table_rows(regs, self.spec_emphasis()),
                None => r@.len() == 0,
            },
    {
        match &self.snapshot {
            Some(snapshot) => rows_for(snapshot, &self.project_name_emphasis),
            None => Vec::new(),
        }
    }

    /// The activation change that toggling `entity` requests, if it still exists.
    pub fn mutation_target(&self, entity: &EntityId) -> (r: Option<MutationTarget>)
        ensures
            match self.spec_registrations() {
                Some(regs) => match toggle_target(regs, entity_view(*entity)) {
                    Some(enabled) => r matches Some(t) && entity_view(t.entity) == entity_view(*entity)
                        && t.enabled == enabled,
                    None => r is None,
                },
                None => r is None,
            },
    {
        let snapshot = match &self.snapshot {
            Some(s) => s,
            None => {
                return None;
            },
        };
        match entity {
            EntityId::Entrypoint(id) => match find_entrypoint_index(&snapshot.registrations, id.as_str()) {
                Some(i) => Some(MutationTarget { entity: copy_entity(entity), enabled: !snapshot.registrations[i].enabled }),
                None => None,
            },
            EntityId::Domain { registration_id, canonical_domain } => match find_entrypoint_index(
                &snapshot.registrations,
                registration_id.as_str(),
            ) {
                Some(i) => match find_domain_index(&snapshot.registrations[i].domains, canonical_domain.as_str()) {
                    Some(j) => Some(
                        MutationTarget {
                            entity: copy_entity(entity),
                            enabled: !snapshot.registrations[i].domains[j].enabled,
                        },
                    ),
                    None => None,
                },
                None => None,
            },
        }
    }
}

impl DomainTableRow {
    /// What the row stands for.
    pub fn entity(&self) -> (r: EntityId)
        ensures
            entity_view(r) == self@.entity,
    {
        copy_entity(&self.entity)
    }

    /// Whether the row is a project or a domain.
    pub fn kind(&self) -> (r: DomainRowKind)
        ensures
            r == self@.kind,
    {
        self.kind
    }

    /// Whether the row's own activation is on.
    pub fn enabled(&self) -> (r: bool)
        ensures
            r == self@.enabled,
    {
        self.enabled
    }

    /// Whether the row is shown as active: a domain only while its project is active too.
    pub fn visually_enabled(&self) -> (r: bool)
        ensures
            r == self@.visually_enabled,
    {
        self.visually_enabled
    }

    /// The name shown.
    pub fn name(&self) -> (r: &str)
        ensures
            r@ == self@.name,
    {
        self.name.as_str()
    }

    /// Where the emphasized part of a project name starts.
    pub fn name_emphasis_start(&self) -> (r: Option<usize>)
        ensures
            r == self@.name_emphasis_start,
    {
        self.name_emphasis_start
    }

    /// The upstream shown; empty for projects.
    pub fn endpoint(&self) -> (r: &str)
        ensures
            r@ == self@.endpoint,
    {
        self.endpoint.as_str()
    }

    /// Whether the row is the last domain of its project.
    pub fn is_last_in_project(&self) -> (r: bool)
        ensures
            r == self@.last_in_project,
    {
        self.last_in_project
    }
}

// ---------------------------------------------------------------------------------------
// Laws
// ---------------------------------------------------------------------------------------

/// Registration identifiers are distinct, and so are canonical names within each project.
pub open spec fn snapshot_keys_unique(regs: Seq<SnapshotEntrypoint>) -> bool {
    &&& forall|i: int, j: int| 0 <= i < j < regs.len() ==> #[trigger] regs[i].registration_id@ != #[trigger] regs[j].registration_id@
    &&& forall|i: int, a: int, b: int| 0 <= i < regs.len() && 0 <= a < b < regs[i].domains@.len()
        ==> #[trigger] regs[i].domains@[a].canonical_domain@ != #[trigger] regs[i].domains@[b].canonical_domain@
}

proof fn lemma_find_entrypoint(regs: Seq<SnapshotEntrypoint>, i: int)
    requires
        forall|a: int, b: int| 0 <= a < b < regs.len() ==> #[trigger] regs[a].registration_id@ != #[trigger] regs[b].registration_id@,
        0 <= i < regs.len(),
    ensures
        find_entrypoint(regs, regs[i].registration_id@) == Some(regs[i]),
    decreases i,
{
    if i > 0 {
        let d = regs.drop_first();
        assert forall|a: int, b: int| 0 <= a < b < d.len() implies #[trigger] d[a].registration_id@ != #[trigger] d[b].registration_id@ by {
            assert(d[a] == regs[a + 1] && d[b] == regs[b + 1]);
        }
        assert(regs[0].registration_id@ != regs[i].registration_id@);
        lemma_find_entrypoint(d, i - 1);
        assert(d[i - 1] == regs[i]);
    }
}

proof fn lemma_find_domain(ds: Seq<SnapshotDomain>, a: int)
    requires
        forall|x: int, y: int| 0 <= x < y < ds.len() ==> #[trigger] ds[x].canonical_domain@ != #[trigger] ds[y].canonical_domain@,
        0 <= a < ds.len(),
    ensures
        find_domain(ds, ds[a].canonical_domain@) == Some(ds[a]),
    decreases a,
{
    if a > 0 {
        let d = ds.drop_first();
        assert forall|x: int, y: int| 0 <= x < y < d.len() implies #[trigger] d[x].canonical_domain@ != #[trigger] d[y].canonical_domain@ by {
            assert(d[x] == ds[x + 1] && d[y] == ds[y + 1]);
        }
        assert(ds[0].canonical_domain@ != ds[a].canonical_domain@);
        lemma_find_domain(d, a - 1);
        assert(d[a - 1] == ds[a]);
    }
}

proof fn lemma_all_domains_members(regs: Seq<SnapshotEntrypoint>)
    ensures
        forall|k: int| 0 <= k < all_domains(regs).len() ==> 0 <= (#[trigger] all_domains(regs)[k]).0 < regs.len()
            && regs[all_domains(regs)[k].0].domains@.contains(all_domains(regs)[k].1),
    decreases regs.len(),
{
    if regs.len() > 0 {
        let d = regs.drop_last();
        lemma_all_domains_members(d);
        let n = regs.len() - 1;
        let tail = regs.last().domains@.map_values(|x: SnapshotDomain| (n, x));
        assert forall|k: int| 0 <= k < all_domains(regs).len() implies 0 <= (#[trigger] all_domains(regs)[k]).0 < regs.len()
            && regs[all_domains(regs)[k].0].domains@.contains(all_domains(regs)[k].1) by {
            let a = all_domains(d);
            if k < a.len() {
                assert(all_domains(regs)[k] == a[k]);
                assert(regs[a[k].0] == d[a[k].0]);
            } else {
                assert(all_domains(regs)[k] == tail[k - a.len()]);
                assert(regs[n] == regs.last());
                assert(regs.last().domains@[k - a.len()] == tail[k - a.len()].1);
            }
        }
    }
}

proof fn lemma_domains_of_members(regs: Seq<SnapshotEntrypoint>, id: Seq<char>)
    ensures
        forall|k: int| 0 <= k < domains_of(regs, id).len() ==> 0 <= (#[trigger] domains_of(regs, id)[k]).0 < regs.len()
            && regs[domains_of(regs, id)[k].0].registration_id@ == id
            && regs[domains_of(regs, id)[k].0].domains@.contains(domains_of(regs, id)[k].1),
{
    lemma_all_domains_members(regs);
    let n = all_domains(regs).len() as int;
    lemma_stable_order_bounds(n, domain_keys(regs));
    let sorted = sorted_domains(regs);
    let pred = owned_by(regs, id);
    assert forall|k: int| 0 <= k < domains_of(regs, id).len() implies 0 <= (#[trigger] domains_of(regs, id)[k]).0 < regs.len()
        && regs[domains_of(regs, id)[k].0].registration_id@ == id
        && regs[domains_of(regs, id)[k].0].domains@.contains(domains_of(regs, id)[k].1) by {
        let x = domains_of(regs, id)[k];
        assert(sorted.filter(pred).contains(x));
        sorted.lemma_filter_contains_rev(pred, x);
        sorted.lemma_filter_pred(pred, k);
        let q = choose|q: int| 0 <= q < sorted.len() && sorted[q] == x;
        let p = stable_order(n, domain_keys(regs))[q];
        assert(sorted[q] == all_domains(regs)[p]);
    }
}

proof fn lemma_rows_toggle(regs: Seq<SnapshotEntrypoint>, emphasis: Seq<(Seq<char>, usize)>, order: Seq<int>)
    requires
        snapshot_keys_unique(regs),
        forall|i: int| 0 <= i < order.len() ==> 0 <= #[trigger] order[i] < regs.len(),
    ensures
        forall|k: int| 0 <= k < rows_in_order(regs, emphasis, order).len() ==> toggle_target(
            regs,
            (#[trigger] rows_in_order(regs, emphasis, order)[k]).entity,
        ) == Some(!rows_in_order(regs, emphasis, order)[k].enabled),
    decreases order.len(),
{
    if order.len() > 0 {
        let pre = order.drop_last();
        assert forall|i: int| 0 <= i < pre.len() implies 0 <= #[trigger] pre[i] < regs.len() by {
            assert(pre[i] == order[i]);
        }
        lemma_rows_toggle(regs, emphasis, pre);
        let i = order.last();
        let e = regs[i];
        let first = rows_in_order(regs, emphasis, pre);
        let ds = domains_of(regs, e.registration_id@);
        let second = project_rows(regs, emphasis, e);
        let all = rows_in_order(regs, emphasis, order);
        assert(all == first + second);
        lemma_find_entrypoint(regs, i);
        lemma_domains_of_members(regs, e.registration_id@);
        assert forall|k: int| 0 <= k < all.len() implies toggle_target(regs, (#[trigger] all[k]).entity) == Some(!all[k].enabled) by {
            if k < first.len() {
                assert(all[k] == first[k]);
            } else if k == first.len() {
                assert(all[k] == entrypoint_row(e, emphasis));
            } else {
                let m = k - first.len() - 1;
                assert(all[k] == domain_row(e, ds[m].1, m + 1 == ds.len()));
                let j = ds[m].0;
                if j != i {
                    if j < i {
                        assert(regs[j].registration_id@ != regs[i].registration_id@);
                    } else {
                        assert(regs[i].registration_id@ != regs[j].registration_id@);
                    }
                }
                assert(j == i);
                let a = choose|a: int| 0 <= a < e.domains@.len() && e.domains@[a] == ds[m].1;
                assert forall|x: int, y: int| 0 <= x < y < e.domains@.len() implies #[trigger] e.domains@[x].canonical_domain@
                    != #[trigger] e.domains@[y].canonical_domain@ by {
                    assert(regs[i].domains@[x].canonical_domain@ != regs[i].domains@[y].canonical_domain@);
                }
                lemma_find_domain(e.domains@, a);
            }
        }
    }
}

/// Toggling any row of the domains table requests the opposite of that row's own
/// activation, when registration identifiers are distinct and each project's canonical
/// names are distinct.
pub proof fn lemma_toggling_a_row_flips_it(regs: Seq<SnapshotEntrypoint>, emphasis: Seq<(Seq<char>, usize)>)
    requires
        snapshot_keys_unique(regs),
    ensures
        forall|k: int| 0 <= k < table_rows(regs, emphasis).len() ==> toggle_target(
            regs,
            (#[trigger] table_rows(regs, emphasis)[k]).entity,
        ) == Some(!table_rows(regs, emphasis)[k].enabled),
{
    lemma_stable_order_bounds(regs.len() as int, entrypoint_keys(regs));
    lemma_rows_toggle(regs, emphasis, stable_order(regs.len() as int, entrypoint_keys(regs)));
}

// ---------------------------------------------------------------------------------------
// Project name emphasis
// ---------------------------------------------------------------------------------------

/// A path separator byte: `/` or `\`.
pub open spec fn is_separator(b: u8) -> bool {
    b == 47 || b == 92
}

/// The byte index just past the last separator, or 0.
pub open spec fn after_last_separator(b: Seq<u8>) -> int
    decreases b.len(),
{
    if b.len() == 0 {
        0
    } else if is_separator(b.last()) {
        b.len() as int
    } else {
        after_last_separator(b.drop_last())
    }
}

/// Where a project name's emphasis starts, in bytes: with a non-empty path relative to the
/// repository root that the path ends with, at the separator before that relative path (or
/// at the relative path itself); otherwise just past the last separator.
pub open spec fn emphasis_start_of(path: Seq<u8>, relative: Option<Seq<u8>>) -> int {
    match relative {
        Some(r) => if r.len() > 0 && r.len() <= path.len() && path.subrange(path.len() - r.len(), path.len() as int) == r {
            let start = path.len() - r.len();
            if start > 0 && is_separator(path[start - 1]) {
                start - 1
            } else {
                start
            }
        } else {
            after_last_separator(path)
        },
        None => after_last_separator(path),
    }
}

proof fn lemma_after_last_separator(b: Seq<u8>, k: int)
    requires
        0 <= k <= b.len(),
        forall|j: int| k <= j < b.len() ==> !is_separator(#[trigger] b[j]),
        k == 0 || is_separator(b[k - 1]),
    ensures
        after_last_separator(b) == k,
    decreases b.len(),
{
    if b.len() > k {
        lemma_after_last_separator(b.drop_last(), k);
    }
}

/// The byte index where the emphasized part of a project path starts, given the path's
/// part relative to its repository root, if it has one.
pub fn emphasis_start_from_relative(path: &str, relative: Option<&str>) -> (r: usize)
    ensures
        r as int == emphasis_start_of(
            path.spec_bytes(),
            match relative {
                Some(x) => Some(x.spec_bytes()),
                None => None,
            },
        ),
{
    let bytes = path.as_bytes();
    match relative {
        Some(rel) => {
            let rb = rel.as_bytes();
            if rb.len() > 0 && rb.len() <= bytes.len() {
                let start = bytes.len() - rb.len();
                let mut i: usize = 0;
                while i < rb.len() && bytes[start + i] == rb[i]
                    invariant
                        i <= rb.len(),
                        start + rb.len() == bytes.len(),
                        forall|j: int| 0 <= j < i ==> bytes@[start + j] == rb@[j],
                    decreases rb.len() - i,
                {
                    i = i + 1;
                }
                let ends_with = i == rb.len();
                proof {
                    let tail = bytes@.subrange(start as int, bytes@.len() as int);
                    if ends_with {
                        assert(tail =~= rb@);
                    } else {
                        assert(tail[i as int] != rb@[i as int]);
                    }
                }
                if ends_with {
                    if start > 0 && (bytes[start - 1] == 47 || bytes[start - 1] == 92) {
                        return start - 1;
                    } else {
                        return start;
                    }
                }
            }
        },
        None => {},
    }
    let mut k: usize = bytes.len();
    while k > 0 && bytes[k - 1] != 47 && bytes[k - 1] != 92
        invariant
            k <= bytes.len(),
            forall|j: int| k <= j < bytes@.len() ==> !is_separator(#[trigger] bytes@[j]),
        decreases k,
    {
        k = k - 1;
    }
    proof {
        lemma_after_last_separator(bytes@, k as int);
    }
    k
}

/// The part of `path` relative to `root` (`std::path::Path::strip_prefix`, rendered with
/// `to_string_lossy`), if `root` is a prefix of it. Path components are read by the rules of
/// the platform the library runs on, so nothing about the result is stated.
#[verifier::external_body]
fn relative_to_root(path: &str, root: &str) -> (r: Option<String>)
{
    std::path::Path::new(path).strip_prefix(root).ok().map(|relative| relative.to_string_lossy().into_owned())
}

/// Where the emphasized part of a project path starts: the path within its repository when
/// it lies inside `git_root`, else its last component.
pub fn project_name_emphasis_start_with_root(path: &str, git_root: Option<&str>) -> (r: usize)
    ensures
        git_root is None ==> r as int == after_last_separator(path.spec_bytes()),
        exists|relative: Option<Seq<u8>>| r as int == emphasis_start_of(path.spec_bytes(), relative),
{
    let relative = match git_root {
        Some(root) => relative_to_root(path, root),
        None => None,
    };
    match relative {
        Some(rel) => emphasis_start_from_relative(path, Some(rel.as_str())),
        None => emphasis_start_from_relative(path, None),
    }
}

/// The row of the project that row `i` belongs to: the nearest project row at or before it.
pub open spec fn owner_index(rows: Seq<RowView>, i: int) -> int
    decreases i,
{
    if i <= 0 || rows[i].kind == DomainRowKind::Entrypoint {
        i
    } else {
        owner_index(rows, i - 1)
    }
}

/// Whether row `i` fits its place in the domains table: a project row is shown as enabled
/// exactly when it is enabled and is never the last row of its project; a domain row belongs
/// to the nearest project row before it, is the last of its project exactly when the next row
/// is a project row or there is none, and is shown as enabled exactly when it and its project
/// are both enabled.
pub open spec fn row_fits(rows: Seq<RowView>, i: int) -> bool {
    match rows[i].kind {
        DomainRowKind::Entrypoint => rows[i].visually_enabled == rows[i].enabled && !rows[i].last_in_project,
        DomainRowKind::Domain => {
            &&& rows[i].last_in_project == (i + 1 == rows.len() || rows[i + 1].kind == DomainRowKind::Entrypoint)
            &&& rows[owner_index(rows, i)].kind == DomainRowKind::Entrypoint
            &&& rows[i].visually_enabled == (rows[owner_index(rows, i)].enabled && rows[i].enabled)
        },
    }
}

/// The shape of the domains table: it starts with a project row, and every row fits its place.
pub open spec fn table_shape(rows: Seq<RowView>) -> bool {
    &&& rows.len() > 0 ==> rows[0].kind == DomainRowKind::Entrypoint
    &&& forall|i: int| 0 <= i < rows.len() ==> #[trigger] row_fits(rows, i)
}

proof fn lemma_owner_index_bounds(rows: Seq<RowView>, i: int)
    requires
        0 <= i < rows.len(),
    ensures
        0 <= owner_index(rows, i) <= i,
        owner_index(rows, i) == 0 || rows[owner_index(rows, i)].kind == DomainRowKind::Entrypoint,
        forall|k: int| owner_index(rows, i) < k <= i ==> rows[k].kind == DomainRowKind::Domain,
    decreases i,
{
    if i > 0 && rows[i].kind != DomainRowKind::Entrypoint {
        lemma_owner_index_bounds(rows, i - 1);
    }
}

proof fn lemma_owner_index_prefix(a: Seq<RowView>, b: Seq<RowView>, i: int)
    requires
        0 <= i < a.len(),
    ensures
        owner_index(a + b, i) == owner_index(a, i),
    decreases i,
{
    assert((a + b)[i] == a[i]);
    if i > 0 && a[i].kind != DomainRowKind::Entrypoint {
        lemma_owner_index_prefix(a, b, i - 1);
    }
}

proof fn lemma_owner_index_suffix(a: Seq<RowView>, b: Seq<RowView>, k: int)
    requires
        0 <= k < b.len(),
        b[0].kind == DomainRowKind::Entrypoint,
    ensures
        owner_index(a + b, a.len() + k) == a.len() + owner_index(b, k),
    decreases k,
{
    assert((a + b)[a.len() + k] == b[k]);
    if k > 0 && b[k].kind != DomainRowKind::Entrypoint {
        lemma_owner_index_suffix(a, b, k - 1);
    }
}

/// One project's rows: its own row first, then only domain rows, the last one marked, each
/// shown enabled exactly when it and the project are.
spec fn is_group(rows: Seq<RowView>) -> bool {
    &&& rows.len() > 0
    &&& rows[0].kind == DomainRowKind::Entrypoint
    &&& rows[0].visually_enabled == rows[0].enabled
    &&& !rows[0].last_in_project
    &&& forall|k: int| 1 <= k < rows.len() ==> {
        &&& (#[trigger] rows[k]).kind == DomainRowKind::Domain
        &&& rows[k].last_in_project == (k + 1 == rows.len())
        &&& rows[k].visually_enabled == (rows[0].enabled && rows[k].enabled)
    }
}

proof fn lemma_group_shape(rows: Seq<RowView>)
    requires
        is_group(rows),
    ensures
        table_shape(rows),
{
    assert forall|i: int| 0 <= i < rows.len() implies #[trigger] row_fits(rows, i) by {
        if i > 0 {
            if i + 1 < rows.len() {
                assert(rows[i + 1].kind == DomainRowKind::Domain);
            }
            lemma_owner_index_bounds(rows, i);
            let o = owner_index(rows, i);
            if o > 0 {
                assert(rows[o].kind == DomainRowKind::Domain);
            }
        }
    }
}

proof fn lemma_project_rows_group(regs: Seq<SnapshotEntrypoint>, emphasis: Seq<(Seq<char>, usize)>, e: SnapshotEntrypoint)
    ensures
        is_group(project_rows(regs, emphasis, e)),
{
    let rows = project_rows(regs, emphasis, e);
    let ds = domains_of(regs, e.registration_id@);
    assert(rows[0] == entrypoint_row(e, emphasis));
    assert forall|k: int| 1 <= k < rows.len() implies {
        &&& (#[trigger] rows[k]).kind == DomainRowKind::Domain
        &&& rows[k].last_in_project == (k + 1 == rows.len())
        &&& rows[k].visually_enabled == (rows[0].enabled && rows[k].enabled)
    } by {
        assert(rows[k] == domain_row(e, ds[k - 1].1, k == ds.len()));
    }
}

proof fn lemma_shape_concat_left(a: Seq<RowView>, b: Seq<RowView>, i: int)
    requires
        table_shape(a),
        table_shape(b),
        b.len() > 0,
        0 <= i < a.len(),
    ensures
        row_fits(a + b, i),
{
    let c = a + b;
    assert(c[i] == a[i]);
    assert(row_fits(a, i));
    if a[i].kind == DomainRowKind::Domain {
        lemma_owner_index_prefix(a, b, i);
        lemma_owner_index_bounds(a, i);
        assert(c[owner_index(a, i)] == a[owner_index(a, i)]);
        if i + 1 < a.len() {
            assert(c[i + 1] == a[i + 1]);
        } else {
            assert(c[i + 1] == b[0]);
        }
    }
}

proof fn lemma_shape_concat_right(a: Seq<RowView>, b: Seq<RowView>, k: int)
    requires
        table_shape(a),
        table_shape(b),
        b.len() > 0,
        0 <= k < b.len(),
    ensures
        row_fits(a + b, a.len() + k),
{
    let c = a + b;
    assert(c[a.len() + k] == b[k]);
    assert(row_fits(b, k));
    if b[k].kind == DomainRowKind::Domain {
        lemma_owner_index_suffix(a, b, k);
        lemma_owner_index_bounds(b, k);
        assert(c[a.len() + owner_index(b, k)] == b[owner_index(b, k)]);
        if k + 1 < b.len() {
            assert(c[a.len() + k + 1] == b[k + 1]);
        }
    }
}

proof fn lemma_shape_concat(a: Seq<RowView>, b: Seq<RowView>)
    requires
        table_shape(a),
        table_shape(b),
        b.len() > 0,
    ensures
        table_shape(a + b),
{
    let c = a + b;
    assert forall|i: int| 0 <= i < c.len() implies #[trigger] row_fits(c, i) by {
        if i < a.len() {
            lemma_shape_concat_left(a, b, i);
        } else {
            lemma_shape_concat_right(a, b, i - a.len());
        }
    }
    if a.len() > 0 {
        assert(c[0] == a[0]);
    } else {
        assert(c[0] == b[0]);
    }
}

proof fn lemma_rows_in_order_shape(regs: Seq<SnapshotEntrypoint>, emphasis: Seq<(Seq<char>, usize)>, order: Seq<int>)
    ensures
        table_shape(rows_in_order(regs, emphasis, order)),
    decreases order.len(),
{
    if order.len() > 0 {
        lemma_rows_in_order_shape(regs, emphasis, order.drop_last());
        lemma_project_rows_group(regs, emphasis, regs[order.last()]);
        lemma_group_shape(project_rows(regs, emphasis, regs[order.last()]));
        lemma_shape_concat(rows_in_order(regs, emphasis, order.drop_last()), project_rows(regs, emphasis, regs[order.last()]));
    }
}

/// The domains table of any snapshot has the shape that `table_shape` describes: projects
/// head their groups, a domain row is the last of its group exactly before the next project
/// row or the end, and a domain row is shown enabled exactly when it and its project are.
pub proof fn lemma_table_rows_shape(regs: Seq<SnapshotEntrypoint>, emphasis: Seq<(Seq<char>, usize)>)
    ensures
        table_shape(table_rows(regs, emphasis)),
{
    lemma_rows_in_order_shape(regs, emphasis, stable_order(regs.len() as int, entrypoint_keys(regs)));
}

/// How many domains the projects at the given positions own, added up.
pub open spec fn owned_domain_total(regs: Seq<SnapshotEntrypoint>, order: Seq<int>) -> int
    decreases order.len(),
{
    if order.len() == 0 {
        0
    } else {
        owned_domain_total(regs, order.drop_last()) + domains_of(regs, regs[order.last()].registration_id@).len()
    }
}

/// How many project rows a list of rows holds.
pub open spec fn project_row_count(rows: Seq<RowView>) -> int
    decreases rows.len(),
{
    if rows.len() == 0 {
        0
    } else {
        project_row_count(rows.drop_last()) + if rows.last().kind == DomainRowKind::Entrypoint {
            1int
        } else {
            0int
        }
    }
}

proof fn lemma_project_row_count_concat(a: Seq<RowView>, b: Seq<RowView>)
    ensures
        project_row_count(a + b) == project_row_count(a) + project_row_count(b),
    decreases b.len(),
{
    if b.len() == 0 {
        assert(a + b =~= a);
    } else {
        assert((a + b).drop_last() =~= a + b.drop_last());
        lemma_project_row_count_concat(a, b.drop_last());
    }
}

proof fn lemma_domain_rows_count(rows: Seq<RowView>)
    requires
        forall|k: int| 0 <= k < rows.len() ==> (#[trigger] rows[k]).kind == DomainRowKind::Domain,
    ensures
        project_row_count(rows) == 0,
    decreases rows.len(),
{
    if rows.len() > 0 {
        lemma_domain_rows_count(rows.drop_last());
    }
}

proof fn lemma_project_rows_count(regs: Seq<SnapshotEntrypoint>, emphasis: Seq<(Seq<char>, usize)>, e: SnapshotEntrypoint)
    ensures
        project_row_count(project_rows(regs, emphasis, e)) == 1,
        project_rows(regs, emphasis, e).len() == 1 + domains_of(regs, e.registration_id@).len(),
{
    let ds = domains_of(regs, e.registration_id@);
    let head = seq![entrypoint_row(e, emphasis)];
    let tail = Seq::new(ds.len(), |k: int| domain_row(e, ds[k].1, k + 1 == ds.len()));
    assert(project_rows(regs, emphasis, e) == head + tail);
    lemma_project_row_count_concat(head, tail);
    lemma_domain_rows_count(tail);
    assert(head.drop_last() =~= Seq::<RowView>::empty());
    assert(project_row_count(Seq::<RowView>::empty()) == 0);
    assert(project_row_count(head) == 1);
}

proof fn lemma_rows_in_order_counts(regs: Seq<SnapshotEntrypoint>, emphasis: Seq<(Seq<char>, usize)>, order: Seq<int>)
    ensures
        project_row_count(rows_in_order(regs, emphasis, order)) == order.len(),
        rows_in_order(regs, emphasis, order).len() == order.len() + owned_domain_total(regs, order),
    decreases order.len(),
{
    if order.len() > 0 {
        let e = regs[order.last()];
        lemma_rows_in_order_counts(regs, emphasis, order.drop_last());
        lemma_project_rows_count(regs, emphasis, e);
        lemma_project_row_count_concat(rows_in_order(regs, emphasis, order.drop_last()), project_rows(regs, emphasis, e));
    }
}

proof fn lemma_owned_total_concat(regs: Seq<SnapshotEntrypoint>, a: Seq<int>, b: Seq<int>)
    ensures
        owned_domain_total(regs, a + b) == owned_domain_total(regs, a) + owned_domain_total(regs, b),
    decreases b.len(),
{
    if b.len() == 0 {
        assert(a + b =~= a);
    } else {
        assert((a + b).drop_last() =~= a + b.drop_last());
        lemma_owned_total_concat(regs, a, b.drop_last());
    }
}

proof fn lemma_owned_total_insert(regs: Seq<SnapshotEntrypoint>, s: Seq<int>, p: int, x: int)
    requires
        0 <= p <= s.len(),
    ensures
        owned_domain_total(regs, s.insert(p, x)) == owned_domain_total(regs, s) + owned_domain_total(regs, seq![x]),
{
    let front = s.subrange(0, p);
    let back = s.subrange(p, s.len() as int);
    assert(s.insert(p, x) =~= front + seq![x] + back);
    assert(s =~= front + back);
    lemma_owned_total_concat(regs, front + seq![x], back);
    lemma_owned_total_concat(regs, front, seq![x]);
    lemma_owned_total_concat(regs, front, back);
}

proof fn lemma_stable_order_total(regs: Seq<SnapshotEntrypoint>, n: int, keys: Seq<(Seq<char>, Seq<char>)>)
    requires
        n >= 0,
    ensures
        owned_domain_total(regs, stable_order(n, keys)) == owned_domain_total(regs, Seq::new(n as nat, |i: int| i)),
    decreases n,
{
    if n > 0 {
        let rest = stable_order(n - 1, keys);
        lemma_stable_order_total(regs, n - 1, keys);
        lemma_stable_order_bounds(n - 1, keys);
        lemma_stable_position_bounds(rest, keys, keys[n - 1]);
        lemma_owned_total_insert(regs, rest, stable_position(rest, keys, keys[n - 1]), n - 1);
        let all = Seq::new(n as nat, |i: int| i);
        assert(all.drop_last() =~= Seq::new((n - 1) as nat, |i: int| i));
        assert(all.last() == n - 1);
        assert(seq![n - 1].drop_last() =~= Seq::<int>::empty());
        assert(owned_domain_total(regs, Seq::<int>::empty()) == 0);
        assert(owned_domain_total(regs, seq![n - 1]) == domains_of(regs, regs[n - 1].registration_id@).len());
    }
}

/// The domains table has one project row per project of the snapshot, and as many rows in
/// all as there are projects and domains that those projects own.
pub proof fn lemma_table_rows_count(regs: Seq<SnapshotEntrypoint>, emphasis: Seq<(Seq<char>, usize)>)
    ensures
        project_row_count(table_rows(regs, emphasis)) == regs.len(),
        table_rows(regs, emphasis).len() == regs.len() + owned_domain_total(
            regs,
            Seq::new(regs.len(), |i: int| i),
        ),
{
    let n = regs.len() as int;
    let keys = entrypoint_keys(regs);
    lemma_stable_order_bounds(n, keys);
    lemma_rows_in_order_counts(regs, emphasis, stable_order(n, keys));
    lemma_stable_order_total(regs, n, keys);
}

/// How many domains the projects register in all.
pub open spec fn registered_domain_count(regs: Seq<SnapshotEntrypoint>) -> int
    decreases regs.len(),
{
    if regs.len() == 0 {
        0
    } else {
        registered_domain_count(regs.drop_last()) + regs.last().domains@.len()
    }
}

/// No two projects share a registration identifier.
pub open spec fn distinct_registration_ids(regs: Seq<SnapshotEntrypoint>) -> bool {
    forall|i: int, j: int|
        0 <= i < regs.len() && 0 <= j < regs.len() && i != j ==> #[trigger] regs[i].registration_id@
            != #[trigger] regs[j].registration_id@
}

/// How many of the domains belong to registration `id`.
spec fn owner_count(regs: Seq<SnapshotEntrypoint>, s: Seq<(int, SnapshotDomain)>, id: Seq<char>) -> int
    decreases s.len(),
{
    if s.len() == 0 {
        0
    } else {
        owner_count(regs, s.drop_last(), id) + if regs[s.last().0].registration_id@ == id {
            1int
        } else {
            0int
        }
    }
}

proof fn lemma_filter_owner_count(regs: Seq<SnapshotEntrypoint>, s: Seq<(int, SnapshotDomain)>, id: Seq<char>)
    ensures
        s.filter(owned_by(regs, id)).len() == owner_count(regs, s, id),
    decreases s.len(),
{
    reveal(Seq::filter);
    if s.len() > 0 {
        lemma_filter_owner_count(regs, s.drop_last(), id);
    }
}

proof fn lemma_owner_count_concat(
    regs: Seq<SnapshotEntrypoint>,
    a: Seq<(int, SnapshotDomain)>,
    b: Seq<(int, SnapshotDomain)>,
    id: Seq<char>,
)
    ensures
        owner_count(regs, a + b, id) == owner_count(regs, a, id) + owner_count(regs, b, id),
    decreases b.len(),
{
    if b.len() == 0 {
        assert(a + b =~= a);
    } else {
        assert((a + b).drop_last() =~= a + b.drop_last());
        lemma_owner_count_concat(regs, a, b.drop_last(), id);
    }
}

/// How many of the positions hold a domain of registration `id`.
spec fn position_count(regs: Seq<SnapshotEntrypoint>, order: Seq<int>, id: Seq<char>) -> int
    decreases order.len(),
{
    if order.len() == 0 {
        0
    } else {
        position_count(regs, order.drop_last(), id) + if regs[all_domains(regs)[order.last()].0].registration_id@ == id {
            1int
        } else {
            0int
        }
    }
}

proof fn lemma_position_count_map(regs: Seq<SnapshotEntrypoint>, order: Seq<int>, id: Seq<char>)
    ensures
        owner_count(regs, order.map_values(|p: int| all_domains(regs)[p]), id) == position_count(regs, order, id),
    decreases order.len(),
{
    if order.len() > 0 {
        assert(order.map_values(|p: int| all_domains(regs)[p]).drop_last() =~= order.drop_last().map_values(
            |p: int| all_domains(regs)[p],
        ));
        lemma_position_count_map(regs, order.drop_last(), id);
    }
}

proof fn lemma_position_count_concat(regs: Seq<SnapshotEntrypoint>, a: Seq<int>, b: Seq<int>, id: Seq<char>)
    ensures
        position_count(regs, a + b, id) == position_count(regs, a, id) + position_count(regs, b, id),
    decreases b.len(),
{
    if b.len() == 0 {
        assert(a + b =~= a);
    } else {
        assert((a + b).drop_last() =~= a + b.drop_last());
        lemma_position_count_concat(regs, a, b.drop_last(), id);
    }
}

proof fn lemma_position_count_stable(regs: Seq<SnapshotEntrypoint>, n: int, keys: Seq<(Seq<char>, Seq<char>)>, id: Seq<char>)
    requires
        n >= 0,
    ensures
        position_count(regs, stable_order(n, keys), id) == position_count(regs, Seq::new(n as nat, |i: int| i), id),
    decreases n,
{
    if n > 0 {
        let rest = stable_order(n - 1, keys);
        lemma_position_count_stable(regs, n - 1, keys, id);
        lemma_stable_order_bounds(n - 1, keys);
        lemma_stable_position_bounds(rest, keys, keys[n - 1]);
        let p = stable_position(rest, keys, keys[n - 1]);
        let front = rest.subrange(0, p);
        let back = rest.subrange(p, rest.len() as int);
        assert(rest.insert(p, n - 1) =~= front + seq![n - 1] + back);
        assert(rest =~= front + back);
        lemma_position_count_concat(regs, front + seq![n - 1], back, id);
        lemma_position_count_concat(regs, front, seq![n - 1], id);
        lemma_position_count_concat(regs, front, back, id);
        assert(seq![n - 1].drop_last() =~= Seq::<int>::empty());
        assert(position_count(regs, Seq::<int>::empty(), id) == 0);
        let term = if regs[all_domains(regs)[n - 1].0].registration_id@ == id { 1int } else { 0int };
        assert(position_count(regs, seq![n - 1], id) == term);
        let all = Seq::new(n as nat, |i: int| i);
        assert(all.drop_last() =~= Seq::new((n - 1) as nat, |i: int| i));
        assert(all.last() == n - 1);
        assert(position_count(regs, all, id) == position_count(regs, Seq::new((n - 1) as nat, |i: int| i), id) + term);
        assert(stable_order(n, keys) == rest.insert(p, n - 1));
    }
}

proof fn lemma_owner_count_all(regs: Seq<SnapshotEntrypoint>, m: int, k: int)
    requires
        distinct_registration_ids(regs),
        0 <= m <= regs.len(),
        0 <= k < regs.len(),
    ensures
        owner_count(regs, all_domains(regs.subrange(0, m)), regs[k].registration_id@) == if k < m {
            regs[k].domains@.len() as int
        } else {
            0int
        },
    decreases m,
{
    if m > 0 {
        let pre = regs.subrange(0, m);
        assert(pre.drop_last() =~= regs.subrange(0, m - 1));
        lemma_owner_count_all(regs, m - 1, k);
        let block = pre.last().domains@.map_values(|d: SnapshotDomain| (m - 1, d));
        lemma_owner_count_concat(regs, all_domains(regs.subrange(0, m - 1)), block, regs[k].registration_id@);
        lemma_owner_count_block(regs, pre.last().domains@, m - 1, regs[k].registration_id@);
        assert(pre.last() == regs[m - 1]);
        if k != m - 1 {
            assert(regs[m - 1].registration_id@ != regs[k].registration_id@);
        }
    } else {
        assert(regs.subrange(0, 0) =~= Seq::<SnapshotEntrypoint>::empty());
    }
}

proof fn lemma_owner_count_block(regs: Seq<SnapshotEntrypoint>, ds: Seq<SnapshotDomain>, j: int, id: Seq<char>)
    ensures
        owner_count(regs, ds.map_values(|d: SnapshotDomain| (j, d)), id) == if regs[j].registration_id@ == id {
            ds.len() as int
        } else {
            0int
        },
    decreases ds.len(),
{
    if ds.len() > 0 {
        assert(ds.map_values(|d: SnapshotDomain| (j, d)).drop_last() =~= ds.drop_last().map_values(
            |d: SnapshotDomain| (j, d),
        ));
        lemma_owner_count_block(regs, ds.drop_last(), j, id);
    }
}

proof fn lemma_domains_of_len(regs: Seq<SnapshotEntrypoint>, k: int)
    requires
        distinct_registration_ids(regs),
        0 <= k < regs.len(),
    ensures
        domains_of(regs, regs[k].registration_id@).len() == regs[k].domains@.len(),
{
    let id = regs[k].registration_id@;
    let all = all_domains(regs);
    let n = all.len() as int;
    let keys = domain_keys(regs);
    lemma_filter_owner_count(regs, sorted_domains(regs), id);
    lemma_position_count_map(regs, stable_order(n, keys), id);
    lemma_position_count_stable(regs, n, keys, id);
    lemma_position_count_map(regs, Seq::new(n as nat, |i: int| i), id);
    assert(Seq::new(n as nat, |i: int| i).map_values(|p: int| all_domains(regs)[p]) =~= all);
    assert(regs.subrange(0, regs.len() as int) =~= regs);
    lemma_owner_count_all(regs, regs.len() as int, k);
}

proof fn lemma_owned_total_prefix(regs: Seq<SnapshotEntrypoint>, m: int)
    requires
        distinct_registration_ids(regs),
        0 <= m <= regs.len(),
    ensures
        owned_domain_total(regs, Seq::new(m as nat, |i: int| i)) == registered_domain_count(regs.subrange(0, m)),
    decreases m,
{
    if m > 0 {
        let all = Seq::new(m as nat, |i: int| i);
        assert(all.drop_last() =~= Seq::new((m - 1) as nat, |i: int| i));
        assert(all.last() == m - 1);
        lemma_owned_total_prefix(regs, m - 1);
        lemma_domains_of_len(regs, m - 1);
        assert(regs.subrange(0, m).drop_last() =~= regs.subrange(0, m - 1));
        assert(regs.subrange(0, m).last() == regs[m - 1]);
    } else {
        assert(regs.subrange(0, 0) =~= Seq::<SnapshotEntrypoint>::empty());
    }
}

/// When no two projects share a registration identifier, the domains table has one row per
/// project and one per registered domain.
pub proof fn lemma_table_rows_count_distinct(regs: Seq<SnapshotEntrypoint>, emphasis: Seq<(Seq<char>, usize)>)
    requires
        distinct_registration_ids(regs),
    ensures
        table_rows(regs, emphasis).len() == regs.len() + registered_domain_count(regs),
{
    lemma_table_rows_count(regs, emphasis);
    lemma_owned_total_prefix(regs, regs.len() as int);
    assert(regs.subrange(0, regs.len() as int) =~= regs);
}

} // verus!
