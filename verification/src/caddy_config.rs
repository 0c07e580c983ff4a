//! The registrations that entrypoints make with the daemon, and what the daemon derives from
//! them: the active domains, conflicts between entrypoints, the domains an adapted
//! configuration serves, and the Caddy configuration it composes.

use vstd::prelude::*;
use crate::json::{Json, JsonMember, JsonValue, json_of, jsons_of, members_of, lemma_jsons_of, lemma_jsons_of_push, lemma_members_of_push};
use crate::caddy_routes::{collect_hosts, extract_hosts, first_dial, first_reverse_proxy_dial, json_hosts, extract_http_routes, http_routes, filter_route, filter_route_hosts, namespaced_items, namespace_config_ids};
use crate::ordered::{insert_sorted, name_set, sorted_contains, sorted_of, strictly_sorted, lemma_is_sorted_of, lemma_lex_transitive, lex_lt};
use crate::domain::{canonical_domain, canonicalize_domain};
use crate::logs::strings_view;
use crate::ipc_errors::opt_view;
use crate::text::push_str;
use crate::iis::{decode_lossy, lossy_text};

verus! {

/// Where a registration or a domain stands in its activation; only an active one takes
/// part in routing.
#[derive(Debug, Clone, Copy, PartialEq, Eq, Structural)]
pub enum ActivationState {
    Unknown,
    Registered,
    Activating,
    Active,
    Inactive,
    Faulted,
}

impl ActivationState {
    /// Only an active registration or domain is routed.
    pub fn is_enabled(self) -> (r: bool)
        ensures
            r == (self == ActivationState::Active),
    {
        self == ActivationState::Active
    }
}

/// A domain name as registered and in canonical form.
#[derive(Debug)]
pub struct DomainName {
    pub raw: String,
    pub canonical: String,
}

/// A domain that an entrypoint registered, and the upstream it proxies to when known.
#[derive(Debug)]
pub struct RegisteredDomain {
    pub name: DomainName,
    pub activation_state: ActivationState,
    pub upstream: Option<String>,
}

/// The view of a registered domain.
pub struct DomainView {
    pub raw: Seq<char>,
    pub canonical: Seq<char>,
    pub enabled: bool,
    pub upstream: Option<Seq<char>>,
}

impl View for RegisteredDomain {
    type V = DomainView;

    open spec fn view(&self) -> DomainView {
        DomainView {
            raw: self.name.raw@,
            canonical: self.name.canonical@,
            enabled: self.activation_state == ActivationState::Active,
            upstream: opt_view(self.upstream),
        }
    }
}

impl RegisteredDomain {
    /// An active domain named `host`, with no known upstream.
    pub fn active(host: &str) -> (r: RegisteredDomain)
        ensures
            r@ == (DomainView {
                raw: host@,
                canonical: canonical_domain(host@),
                enabled: true,
                upstream: None,
            }),
    {
        RegisteredDomain {
            name: DomainName { raw: host.to_owned(), canonical: canonicalize_domain(host) },
            activation_state: ActivationState::Active,
            upstream: None,
        }
    }

    /// A copy of the domain.
    pub fn copy(&self) -> (r: RegisteredDomain)
        ensures
            r@ == self@,
    {
        RegisteredDomain {
            name: DomainName { raw: self.name.raw.clone(), canonical: self.name.canonical.clone() },
            activation_state: self.activation_state,
            upstream: match &self.upstream {
                Some(u) => Some(u.clone()),
                None => None,
            },
        }
    }
}

/// An entrypoint's registration: its identifier, the configuration file it runs, its
/// domains, and whether it is active.
#[derive(Debug)]
pub struct EntrypointRegistration {
    pub registration_id: String,
    pub source_working_directory: String,
    pub source_config_path: String,
    pub registered_domains: Vec<RegisteredDomain>,
    pub activation_state: ActivationState,
}

/// The view of a registration.
pub struct RegistrationView {
    pub id: Seq<char>,
    pub working_directory: Seq<char>,
    pub path: Seq<char>,
    pub domains: Seq<DomainView>,
    pub enabled: bool,
}

/// The views of a list of domains.
pub open spec fn domain_views(ds: Seq<RegisteredDomain>) -> Seq<DomainView> {
    ds.map_values(|d: RegisteredDomain| d@)
}

impl View for EntrypointRegistration {
    type V = RegistrationView;

    open spec fn view(&self) -> RegistrationView {
        RegistrationView {
            id: self.registration_id@,
            working_directory: self.source_working_directory@,
            path: self.source_config_path@,
            domains: domain_views(self.registered_domains@),
            enabled: self.activation_state == ActivationState::Active,
        }
    }
}

/// The views of a list of registrations.
pub open spec fn registration_views(rs: Seq<EntrypointRegistration>) -> Seq<RegistrationView> {
    rs.map_values(|r: EntrypointRegistration| r@)
}

/// Copies of a list of domains.
pub fn copy_domains(ds: &Vec<RegisteredDomain>) -> (r: Vec<RegisteredDomain>)
    ensures
        domain_views(r@) == domain_views(ds@),
{
    let mut out: Vec<RegisteredDomain> = Vec::new();
    let mut i: usize = 0;
    while i < ds.len()
        invariant
            i <= ds.len(),
            domain_views(out@) == domain_views(ds@.subrange(0, i as int)),
        decreases ds.len() - i,
    {
        let c = ds[i].copy();
        let ghost prev = out@;
        out.push(c);
        proof {
            assert(ds@.subrange(0, i + 1) =~= ds@.subrange(0, i as int).push(ds@[i as int]));
            assert(domain_views(out@) =~= domain_views(prev).push(c@));
            assert(domain_views(ds@.subrange(0, i + 1)) =~= domain_views(ds@.subrange(0, i as int)).push(ds@[i as int]@));
        }
        i = i + 1;
    }
    assert(ds@.subrange(0, ds@.len() as int) =~= ds@);
    out
}

impl EntrypointRegistration {
    /// A copy of the registration.
    pub fn copy(&self) -> (r: EntrypointRegistration)
        ensures
            r@ == self@,
    {
        EntrypointRegistration {
            registration_id: self.registration_id.clone(),
            source_working_directory: self.source_working_directory.clone(),
            source_config_path: self.source_config_path.clone(),
            registered_domains: copy_domains(&self.registered_domains),
            activation_state: self.activation_state,
        }
    }
}

/// A finding about the configuration, tied to a domain and to the files it came from.
#[derive(Debug)]
pub struct ConfigDiagnostic {
    pub code: String,
    pub message: String,
    pub domain_key: Option<String>,
    pub source_config_paths: Vec<String>,
}

/// The view of a diagnostic.
pub struct DiagnosticView {
    pub code: Seq<char>,
    pub message: Seq<char>,
    pub domain_key: Option<Seq<char>>,
    pub paths: Seq<Seq<char>>,
}

impl View for ConfigDiagnostic {
    type V = DiagnosticView;

    open spec fn view(&self) -> DiagnosticView {
        DiagnosticView {
            code: self.code@,
            message: self.message@,
            domain_key: opt_view(self.domain_key),
            paths: strings_view(self.source_config_paths@),
        }
    }
}

/// The views of a list of diagnostics.
pub open spec fn diagnostic_views(ds: Seq<ConfigDiagnostic>) -> Seq<DiagnosticView> {
    ds.map_values(|d: ConfigDiagnostic| d@)
}

/// Copies of a list of strings.
pub fn copy_strings(v: &Vec<String>) -> (r: Vec<String>)
    ensures
        strings_view(r@) == strings_view(v@),
{
    let mut out: Vec<String> = Vec::new();
    let mut i: usize = 0;
    while i < v.len()
        invariant
            i <= v.len(),
            strings_view(out@) == strings_view(v@.subrange(0, i as int)),
        decreases v.len() - i,
    {
        let c = v[i].clone();
        let ghost prev = out@;
        out.push(c);
        proof {
            assert(v@.subrange(0, i + 1) =~= v@.subrange(0, i as int).push(v@[i as int]));
            assert(strings_view(out@) =~= strings_view(prev).push(c@));
            assert(strings_view(v@.subrange(0, i + 1)) =~= strings_view(v@.subrange(0, i as int)).push(v@[i as int]@));
        }
        i = i + 1;
    }
    assert(v@.subrange(0, v@.len() as int) =~= v@);
    out
}

impl ConfigDiagnostic {
    /// A copy of the diagnostic.
    pub fn copy(&self) -> (r: ConfigDiagnostic)
        ensures
            r@ == self@,
    {
        ConfigDiagnostic {
            code: self.code.clone(),
            message: self.message.clone(),
            domain_key: match &self.domain_key {
                Some(k) => Some(k.clone()),
                None => None,
            },
            source_config_paths: copy_strings(&self.source_config_paths),
        }
    }
}

/// Copies of a list of diagnostics.
pub fn copy_diagnostics(v: &Vec<ConfigDiagnostic>) -> (r: Vec<ConfigDiagnostic>)
    ensures
        diagnostic_views(r@) == diagnostic_views(v@),
{
    let mut out: Vec<ConfigDiagnostic> = Vec::new();
    let mut i: usize = 0;
    while i < v.len()
        invariant
            i <= v.len(),
            diagnostic_views(out@) == diagnostic_views(v@.subrange(0, i as int)),
        decreases v.len() - i,
    {
        let c = v[i].copy();
        let ghost prev = out@;
        out.push(c);
        proof {
            assert(v@.subrange(0, i + 1) =~= v@.subrange(0, i as int).push(v@[i as int]));
            assert(diagnostic_views(out@) =~= diagnostic_views(prev).push(c@));
            assert(diagnostic_views(v@.subrange(0, i + 1)) =~= diagnostic_views(v@.subrange(0, i as int)).push(v@[i as int]@));
        }
        i = i + 1;
    }
    assert(v@.subrange(0, v@.len() as int) =~= v@);
    out
}

// ---------------------------------------------------------------------------------------
// Active domains
// ---------------------------------------------------------------------------------------

/// The canonical names of the enabled domains, in order.
pub open spec fn enabled_names(ds: Seq<DomainView>) -> Seq<Seq<char>>
    decreases ds.len(),
{
    if ds.len() == 0 {
        Seq::empty()
    } else if ds.last().enabled {
        enabled_names(ds.drop_last()).push(ds.last().canonical)
    } else {
        enabled_names(ds.drop_last())
    }
}

/// The canonical names of a registration's enabled domains.
pub open spec fn enabled_hosts(r: RegistrationView) -> Set<Seq<char>> {
    enabled_names(r.domains).to_set()
}

/// The canonical names of a registration's enabled domains, in ascending order.
pub fn active_domains(registration: &EntrypointRegistration) -> (r: Vec<String>)
    ensures
        strictly_sorted(strings_view(r@)),
        name_set(r@) == enabled_hosts(registration@),
        strings_view(r@) == sorted_of(enabled_hosts(registration@)),
{
    let ds = &registration.registered_domains;
    let ghost dv = domain_views(ds@);
    let mut hosts: Vec<String> = Vec::new();
    assert(strings_view(hosts@) =~= Seq::<Seq<char>>::empty());
    let mut i: usize = 0;
    while i < ds.len()
        invariant
            i <= ds.len(),
            dv == domain_views(ds@),
            strictly_sorted(strings_view(hosts@)),
            name_set(hosts@) == enabled_names(dv.subrange(0, i as int)).to_set(),
        decreases ds.len() - i,
    {
        assert(dv.subrange(0, i + 1).drop_last() =~= dv.subrange(0, i as int));
        assert(dv.subrange(0, i + 1).last() == ds@[i as int]@);
        if ds[i].activation_state.is_enabled() {
            insert_sorted(&mut hosts, ds[i].name.canonical.clone());
            proof {
                crate::caddy_routes::lemma_push_to_set(enabled_names(dv.subrange(0, i as int)), ds@[i as int].name.canonical@);
            }
        }
        i = i + 1;
    }
    assert(dv.subrange(0, dv.len() as int) =~= dv);
    proof {
        lemma_is_sorted_of(strings_view(hosts@));
    }
    hosts
}

// ---------------------------------------------------------------------------------------
// Conflicts
// ---------------------------------------------------------------------------------------

/// How often `d` occurs in `names`.
pub open spec fn count_of(names: Seq<Seq<char>>, d: Seq<char>) -> nat
    decreases names.len(),
{
    if names.len() == 0 {
        0
    } else {
        count_of(names.drop_last(), d) + if names.last() == d {
            1nat
        } else {
            0nat
        }
    }
}

/// The configuration files of the enabled registrations that enable `d`, once for each time
/// they enable it.
pub open spec fn owner_paths(rs: Seq<RegistrationView>, d: Seq<char>) -> Seq<Seq<char>>
    decreases rs.len(),
{
    if rs.len() == 0 {
        Seq::empty()
    } else {
        let r = rs.last();
        owner_paths(rs.drop_last(), d) + if r.enabled {
            Seq::new(count_of(enabled_names(r.domains), d), |_i: int| r.path)
        } else {
            Seq::empty()
        }
    }
}

/// The enabled domains of the enabled registrations.
pub open spec fn all_enabled_hosts(rs: Seq<RegistrationView>) -> Set<Seq<char>>
    decreases rs.len(),
{
    if rs.len() == 0 {
        Set::empty()
    } else if rs.last().enabled {
        all_enabled_hosts(rs.drop_last()).union(enabled_hosts(rs.last()))
    } else {
        all_enabled_hosts(rs.drop_last())
    }
}

/// The domains that more than one enabled registration enables, in ascending order.
pub open spec fn conflict_domains(rs: Seq<RegistrationView>) -> Seq<Seq<char>> {
    sorted_of(all_enabled_hosts(rs)).filter(|d: Seq<char>| owner_paths(rs, d).len() > 1)
}

/// The message of a conflict on `d`.
pub open spec fn conflict_message(d: Seq<char>) -> Seq<char> {
    "domain `"@ + d + "` is registered by multiple entrypoints"@
}

/// The diagnostic that reports a conflict on `d`.
pub open spec fn conflict_diagnostic(rs: Seq<RegistrationView>, d: Seq<char>) -> DiagnosticView {
    DiagnosticView {
        code: "domain-conflict"@,
        message: conflict_message(d),
        domain_key: Some(d),
        paths: owner_paths(rs, d),
    }
}

/// The sorted set of the enabled domains of the enabled registrations.
fn all_enabled_domains(registrations: &[EntrypointRegistration]) -> (r: Vec<String>)
    ensures
        strings_view(r@) == sorted_of(all_enabled_hosts(registration_views(registrations@))),
        strictly_sorted(strings_view(r@)),
{
    let ghost rv = registration_views(registrations@);
    let mut all: Vec<String> = Vec::new();
    assert(strings_view(all@) =~= Seq::<Seq<char>>::empty());
    assert(name_set(all@) =~= Set::<Seq<char>>::empty());
    let mut i: usize = 0;
    while i < registrations.len()
        invariant
            i <= registrations.len(),
            rv == registration_views(registrations@),
            strictly_sorted(strings_view(all@)),
            name_set(all@) == all_enabled_hosts(rv.subrange(0, i as int)),
        decreases registrations.len() - i,
    {
        assert(rv.subrange(0, i + 1).drop_last() =~= rv.subrange(0, i as int));
        assert(rv.subrange(0, i + 1).last() == registrations@[i as int]@);
        if registrations[i].activation_state.is_enabled() {
            let hosts = active_domains(&registrations[i]);
            let ghost before = name_set(all@);
            let mut k: usize = 0;
            while k < hosts.len()
                invariant
                    k <= hosts.len(),
                    strictly_sorted(strings_view(all@)),
                    name_set(all@) == before.union(strings_view(hosts@).subrange(0, k as int).to_set()),
                decreases hosts.len() - k,
            {
                insert_sorted(&mut all, hosts[k].clone());
                proof {
                    assert(strings_view(hosts@).subrange(0, k + 1) =~= strings_view(hosts@).subrange(0, k as int).push(hosts@[k as int]@));
                    crate::caddy_routes::lemma_push_to_set(strings_view(hosts@).subrange(0, k as int), hosts@[k as int]@);
                    assert(before.union(strings_view(hosts@).subrange(0, k as int).to_set()).insert(hosts@[k as int]@) =~= before.union(strings_view(hosts@).subrange(0, k + 1).to_set()));
                }
                k = k + 1;
            }
            proof {
                assert(strings_view(hosts@).subrange(0, hosts@.len() as int) =~= strings_view(hosts@));
                lemma_is_sorted_of(strings_view(hosts@));
                let e = enabled_hosts(registrations@[i as int]@);
                assert(strictly_sorted(sorted_of(e)) && sorted_of(e).to_set() == e) by {
                    assert(strictly_sorted(strings_view(hosts@)) && strings_view(hosts@).to_set() == strings_view(hosts@).to_set());
                }
            }
        }
        i = i + 1;
    }
    assert(rv.subrange(0, rv.len() as int) =~= rv);
    proof {
        lemma_is_sorted_of(strings_view(all@));
    }
    all
}

/// The files of the enabled registrations that enable `d`, once per enabling domain.
fn owners_of(registrations: &[EntrypointRegistration], d: &str) -> (r: Vec<String>)
    ensures
        strings_view(r@) == owner_paths(registration_views(registrations@), d@),
{
    let ghost rv = registration_views(registrations@);
    let mut paths: Vec<String> = Vec::new();
    assert(strings_view(paths@) =~= Seq::<Seq<char>>::empty());
    let mut i: usize = 0;
    while i < registrations.len()
        invariant
            i <= registrations.len(),
            rv == registration_views(registrations@),
            strings_view(paths@) == owner_paths(rv.subrange(0, i as int), d@),
        decreases registrations.len() - i,
    {
        let ghost prefix = rv.subrange(0, i as int);
        assert(rv.subrange(0, i + 1).drop_last() =~= prefix);
        assert(rv.subrange(0, i + 1).last() == registrations@[i as int]@);
        let reg = &registrations[i];
        let ghost r = reg@;
        if reg.activation_state.is_enabled() {
            let ds = &reg.registered_domains;
            let ghost before = strings_view(paths@);
            let mut k: usize = 0;
            while k < ds.len()
                invariant
                    k <= ds.len(),
                    r == reg@,
                    ds == &reg.registered_domains,
                    strings_view(paths@) == before + Seq::new(
                        count_of(enabled_names(r.domains.subrange(0, k as int)), d@),
                        |_i: int| r.path,
                    ),
                decreases ds.len() - k,
            {
                let ghost dprefix = r.domains.subrange(0, k as int);
                assert(r.domains.subrange(0, k + 1).drop_last() =~= dprefix);
                assert(r.domains.subrange(0, k + 1).last() == ds@[k as int]@);
                if ds[k].activation_state.is_enabled() && ds[k].name.canonical.as_str().to_owned()
                    == d.to_owned() {
                    let ghost n = count_of(enabled_names(dprefix), d@);
                    let ghost prev = paths@;
                    let c = reg.source_config_path.clone();
                    paths.push(c);
                    proof {
                        let names = enabled_names(r.domains.subrange(0, k + 1));
                        assert(names == enabled_names(dprefix).push(d@));
                        assert(names.drop_last() =~= enabled_names(dprefix));
                        assert(count_of(names, d@) == n + 1);
                        assert(strings_view(paths@) =~= strings_view(prev).push(r.path));
                        assert(Seq::new(n + 1, |_i: int| r.path) =~= Seq::new(n, |_i: int| r.path).push(r.path));
                        assert(before + Seq::new(n + 1, |_i: int| r.path) =~= (before + Seq::new(n, |_i: int| r.path)).push(r.path));
                    }
                } else {
                    proof {
                        let names = enabled_names(r.domains.subrange(0, k + 1));
                        if ds@[k as int].activation_state == ActivationState::Active {
                            assert(names.drop_last() =~= enabled_names(dprefix));
                        }
                    }
                }
                k = k + 1;
            }
            assert(r.domains.subrange(0, r.domains.len() as int) =~= r.domains);
        } else {
            assert(strings_view(paths@) =~= owner_paths(prefix, d@) + Seq::<Seq<char>>::empty());
        }
        i = i + 1;
    }
    assert(rv.subrange(0, rv.len() as int) =~= rv);
    paths
}

/// One diagnostic per domain enabled by more than one enabled registration, in ascending
/// order of the domain, listing the files that enable it.
pub fn detect_conflicts(registrations: &[EntrypointRegistration]) -> (r: Vec<ConfigDiagnostic>)
    ensures
        diagnostic_views(r@) == conflict_domains(registration_views(registrations@)).map_values(
            |d: Seq<char>| conflict_diagnostic(registration_views(registrations@), d),
        ),
{
    let ghost rv = registration_views(registrations@);
    let all = all_enabled_domains(registrations);
    let ghost sorted = strings_view(all@);
    let ghost pred = |d: Seq<char>| owner_paths(rv, d).len() > 1;
    let mut out: Vec<ConfigDiagnostic> = Vec::new();
    let mut i: usize = 0;
    while i < all.len()
        invariant
            i <= all.len(),
            rv == registration_views(registrations@),
            sorted == strings_view(all@),
            pred == (|d: Seq<char>| owner_paths(rv, d).len() > 1),
            diagnostic_views(out@) == sorted.subrange(0, i as int).filter(pred).map_values(
                |d: Seq<char>| conflict_diagnostic(rv, d),
            ),
        decreases all.len() - i,
    {
        proof {
            reveal(Seq::filter);
            assert(sorted.subrange(0, i + 1).drop_last() =~= sorted.subrange(0, i as int));
            assert(sorted.subrange(0, i + 1).last() == all@[i as int]@);
        }
        let paths = owners_of(registrations, all[i].as_str());
        if paths.len() > 1 {
            let mut message = "domain `".to_owned();
            push_str(&mut message, all[i].as_str());
            push_str(&mut message, "` is registered by multiple entrypoints");
            let diag = ConfigDiagnostic {
                code: "domain-conflict".to_owned(),
                message,
                domain_key: Some(all[i].clone()),
                source_config_paths: paths,
            };
            let ghost prev = out@;
            let ghost x = all@[i as int]@;
            out.push(diag);
            proof {
                assert(pred(x));
                let fp = sorted.subrange(0, i as int).filter(pred);
                assert(sorted.subrange(0, i + 1).filter(pred) == fp.push(x));
                assert(diag@ == conflict_diagnostic(rv, x));
                assert(diagnostic_views(out@) =~= diagnostic_views(prev).push(diag@));
                assert(fp.push(x).map_values(|d: Seq<char>| conflict_diagnostic(rv, d)) =~= fp.map_values(
                    |d: Seq<char>| conflict_diagnostic(rv, d),
                ).push(conflict_diagnostic(rv, x)));
            }
        }
        i = i + 1;
    }
    assert(sorted.subrange(0, sorted.len() as int) =~= sorted);
    out
}

// ---------------------------------------------------------------------------------------
// Domains served by routes
// ---------------------------------------------------------------------------------------

/// Every host that some route lists.
pub open spec fn routes_hosts(routes: Seq<Json>) -> Set<Seq<char>>
    decreases routes.len(),
{
    if routes.len() == 0 {
        Set::empty()
    } else {
        routes_hosts(routes.drop_last()).union(json_hosts(routes.last()))
    }
}

/// The upstream of the first route that lists `host`.
pub open spec fn first_route_dial(routes: Seq<Json>, host: Seq<char>) -> Option<Seq<char>>
    decreases routes.len(),
{
    if routes.len() == 0 {
        None
    } else if json_hosts(routes[0]).contains(host) {
        first_dial(routes[0])
    } else {
        first_route_dial(routes.drop_first(), host)
    }
}

/// The domain that routes serve for `host`: active, upstream from the first route listing it.
pub open spec fn served_domain(routes: Seq<Json>, host: Seq<char>) -> DomainView {
    DomainView {
        raw: host,
        canonical: canonical_domain(host),
        enabled: true,
        upstream: first_route_dial(routes, host),
    }
}

/// The domains that `routes` serve, in ascending order of host.
pub open spec fn served_domains(routes: Seq<Json>) -> Seq<DomainView> {
    sorted_of(routes_hosts(routes)).map_values(|h: Seq<char>| served_domain(routes, h))
}

fn route_upstream_for(routes: &Vec<JsonValue>, host: &str) -> (r: Option<String>)
    ensures
        opt_view(r) == first_route_dial(jsons_of(routes@), host@),
{
    proof {
        lemma_jsons_of(routes@);
    }
    let ghost js = jsons_of(routes@);
    assert(js.subrange(0, js.len() as int) =~= js);
    let mut i: usize = 0;
    while i < routes.len()
        invariant
            i <= routes.len(),
            js == jsons_of(routes@),
            js.len() == routes@.len(),
            forall|j: int| 0 <= j < routes@.len() ==> #[trigger] js[j] == json_of(routes@[j]),
            first_route_dial(js, host@) == first_route_dial(js.subrange(i as int, js.len() as int), host@),
        decreases routes.len() - i,
    {
        let ghost rest = js.subrange(i as int, js.len() as int);
        assert(rest[0] == js[i as int]);
        assert(rest.drop_first() =~= js.subrange(i + 1, js.len() as int));
        let hosts = extract_hosts(&routes[i]);
        if sorted_contains(&hosts, host) {
            return first_reverse_proxy_dial(&routes[i]);
        }
        i = i + 1;
    }
    None
}

/// The domains that `routes` serve: one active domain per listed host, in ascending order,
/// with the upstream of the first route that lists it.
pub fn extract_registered_domains_from_routes(routes: &Vec<JsonValue>) -> (r: Vec<RegisteredDomain>)
    ensures
        domain_views(r@) == served_domains(jsons_of(routes@)),
{
    proof {
        lemma_jsons_of(routes@);
    }
    let ghost js = jsons_of(routes@);
    let mut hosts: Vec<String> = Vec::new();
    assert(strings_view(hosts@) =~= Seq::<Seq<char>>::empty());
    assert(name_set(hosts@) =~= Set::<Seq<char>>::empty());
    let mut i: usize = 0;
    while i < routes.len()
        invariant
            i <= routes.len(),
            js == jsons_of(routes@),
            js.len() == routes@.len(),
            forall|j: int| 0 <= j < routes@.len() ==> #[trigger] js[j] == json_of(routes@[j]),
            strictly_sorted(strings_view(hosts@)),
            name_set(hosts@) == routes_hosts(js.subrange(0, i as int)),
        decreases routes.len() - i,
    {
        assert(js.subrange(0, i + 1).drop_last() =~= js.subrange(0, i as int));
        assert(js.subrange(0, i + 1).last() == js[i as int]);
        collect_hosts(&routes[i], &mut hosts);
        i = i + 1;
    }
    assert(js.subrange(0, js.len() as int) =~= js);
    proof {
        lemma_is_sorted_of(strings_view(hosts@));
    }
    let ghost sorted = strings_view(hosts@);
    let mut out: Vec<RegisteredDomain> = Vec::new();
    let mut k: usize = 0;
    while k < hosts.len()
        invariant
            k <= hosts.len(),
            js == jsons_of(routes@),
            sorted == strings_view(hosts@),
            domain_views(out@) == sorted.subrange(0, k as int).map_values(|h: Seq<char>| served_domain(js, h)),
        decreases hosts.len() - k,
    {
        let mut domain = RegisteredDomain::active(hosts[k].as_str());
        domain.upstream = route_upstream_for(routes, hosts[k].as_str());
        let ghost prev = out@;
        out.push(domain);
        proof {
            assert(sorted.subrange(0, k + 1) =~= sorted.subrange(0, k as int).push(hosts@[k as int]@));
            assert(domain_views(out@) =~= domain_views(prev).push(domain@));
            assert(sorted.subrange(0, k + 1).map_values(|h: Seq<char>| served_domain(js, h)) =~= sorted.subrange(0, k as int).map_values(
                |h: Seq<char>| served_domain(js, h),
            ).push(served_domain(js, hosts@[k as int]@)));
        }
        k = k + 1;
    }
    assert(sorted.subrange(0, sorted.len() as int) =~= sorted);
    out
}

/// The domains that the HTTP routes of an adapted configuration serve.
pub fn extract_registered_domains(value: &JsonValue) -> (r: Vec<RegisteredDomain>)
    ensures
        domain_views(r@) == served_domains(http_routes(value@)),
{
    let routes = extract_http_routes(value);
    extract_registered_domains_from_routes(&routes)
}

// ---------------------------------------------------------------------------------------
// JSON construction
// ---------------------------------------------------------------------------------------

/// A string value.
pub fn text(s: &str) -> (r: JsonValue)
    ensures
        r@ == Json::Str(s@),
{
    JsonValue::Str(s.to_owned())
}

/// An array of one value.
pub fn array1(a: JsonValue) -> (r: JsonValue)
    ensures
        r@ == Json::Array(seq![a@]),
{
    let mut v: Vec<JsonValue> = Vec::new();
    let ghost ja = a@;
    proof {
        lemma_jsons_of_push(v@, a);
        assert(jsons_of(v@) =~= Seq::<Json>::empty());
    }
    v.push(a);
    assert(jsons_of(v@) =~= seq![ja]);
    JsonValue::Array(v)
}

/// An object of the given members, in the given order.
pub fn object(members: Vec<JsonMember>) -> (r: JsonValue)
    ensures
        r@ == Json::Object(members_of(members@)),
{
    JsonValue::Object(members)
}

/// A one-member list.
pub fn members1(k1: &str, v1: JsonValue) -> (r: Vec<JsonMember>)
    ensures
        members_of(r@) == seq![(k1@, v1@)],
{
    let mut v: Vec<JsonMember> = Vec::new();
    let m1 = JsonMember { key: k1.to_owned(), value: v1 };
    proof {
        lemma_members_of_push(v@, m1);
        assert(members_of(v@) =~= Seq::<(Seq<char>, Json)>::empty());
    }
    v.push(m1);
    assert(members_of(v@) =~= seq![(k1@, m1.value@)]);
    v
}

/// A two-member list.
pub fn members2(k1: &str, v1: JsonValue, k2: &str, v2: JsonValue) -> (r: Vec<JsonMember>)
    ensures
        members_of(r@) == seq![(k1@, v1@), (k2@, v2@)],
{
    let mut v = members1(k1, v1);
    let m2 = JsonMember { key: k2.to_owned(), value: v2 };
    proof {
        lemma_members_of_push(v@, m2);
    }
    let ghost prev = members_of(v@);
    v.push(m2);
    assert(members_of(v@) =~= prev.push((k2@, m2.value@)));
    assert(prev.push((k2@, m2.value@)) =~= seq![(k1@, v1@), (k2@, v2@)]);
    v
}

/// A three-member list.
pub fn members3(k1: &str, v1: JsonValue, k2: &str, v2: JsonValue, k3: &str, v3: JsonValue) -> (r: Vec<JsonMember>)
    ensures
        members_of(r@) == seq![(k1@, v1@), (k2@, v2@), (k3@, v3@)],
{
    let mut v = members2(k1, v1, k2, v2);
    let m3 = JsonMember { key: k3.to_owned(), value: v3 };
    proof {
        lemma_members_of_push(v@, m3);
    }
    let ghost prev = members_of(v@);
    v.push(m3);
    assert(prev.push((k3@, m3.value@)) =~= seq![(k1@, v1@), (k2@, v2@), (k3@, v3@)]);
    v
}

// ---------------------------------------------------------------------------------------
// Mock routes
// ---------------------------------------------------------------------------------------

/// The handler of a mock route: a reverse proxy to the upstream, or a static response.
pub open spec fn mock_handler(upstream: Option<Seq<char>>) -> Json {
    match upstream {
        Some(dial) => Json::Object(
            seq![
                ("handler"@, Json::Str("reverse_proxy"@)),
                ("upstreams"@, Json::Array(seq![Json::Object(seq![("dial"@, Json::Str(dial))])])),
            ],
        ),
        None => Json::Object(
            seq![
                ("body"@, Json::Str("Cadder mock Caddy route"@)),
                ("handler"@, Json::Str("static_response"@)),
            ],
        ),
    }
}

/// A terminal route that matches `domain` and runs `handler`.
pub open spec fn host_route(domain: Seq<char>, handler: Json) -> Json {
    Json::Object(
        seq![
            ("handle"@, Json::Array(seq![handler])),
            ("match"@, Json::Array(seq![Json::Object(seq![("host"@, Json::Array(seq![Json::Str(domain)]))])])),
            ("terminal"@, Json::Bool(true)),
        ],
    )
}

/// The mock route of a domain.
pub open spec fn mock_route(domain: Seq<char>, upstream: Option<Seq<char>>) -> Json {
    host_route(domain, mock_handler(upstream))
}

fn host_route_value(domain: &str, handler: JsonValue) -> (r: JsonValue)
    ensures
        r@ == host_route(domain@, handler@),
{
    let host_list = array1(text(domain));
    let matcher = object(members1("host", host_list));
    object(members3("handle", array1(handler), "match", array1(matcher), "terminal", JsonValue::Bool(true)))
}

/// The mock route of `domain`, proxying to `upstream` when there is one.
pub fn mock_route_for_domain_and_upstream(domain: &str, upstream: Option<&str>) -> (r: JsonValue)
    ensures
        r@ == mock_route(domain@, match upstream {
            Some(u) => Some(u@),
            None => None,
        }),
{
    let handler = match upstream {
        Some(dial) => {
            let upstream_entry = object(members1("dial", text(dial)));
            object(members2("handler", text("reverse_proxy"), "upstreams", array1(upstream_entry)))
        },
        None => object(members2("body", text("Cadder mock Caddy route"), "handler", text("static_response"))),
    };
    host_route_value(domain, handler)
}

/// The mock route of `domain`, answering with a static response.
pub fn mock_route_for_domain(domain: &str) -> (r: JsonValue)
    ensures
        r@ == mock_route(domain@, None),
{
    mock_route_for_domain_and_upstream(domain, None)
}

// ---------------------------------------------------------------------------------------
// Caddyfiles under the mock backend
// ---------------------------------------------------------------------------------------

/// A directive of a parsed Caddyfile: its name, the values of its arguments, and its block.
#[derive(Debug)]
pub struct CaddyDirective {
    pub name: String,
    pub arguments: Vec<String>,
    pub block: Option<Vec<CaddyDirective>>,
}

/// A site block of a parsed Caddyfile: the hosts of its addresses (empty where an address
/// names none) and its directives.
#[derive(Debug)]
pub struct CaddySite {
    pub hosts: Vec<String>,
    pub directives: Vec<CaddyDirective>,
}

/// The first argument of the first `reverse_proxy` directive that has one, searching each
/// directive's block before the directives after it.
pub open spec fn first_mock_proxy(ds: Seq<CaddyDirective>) -> Option<Seq<char>>
    decreases ds,
{
    if ds.len() == 0 {
        None
    } else {
        let d = ds[0];
        if d.name@ == "reverse_proxy"@ && d.arguments@.len() > 0 {
            Some(d.arguments@[0]@)
        } else {
            let inner = match d.block {
                Some(b) => first_mock_proxy(b@),
                None => None,
            };
            match inner {
                Some(u) => Some(u),
                None => first_mock_proxy(ds.drop_first()),
            }
        }
    }
}

/// The first `reverse_proxy` upstream of a list of directives.
pub fn first_mock_reverse_proxy(directives: &Vec<CaddyDirective>) -> (r: Option<String>)
    ensures
        opt_view(r) == first_mock_proxy(directives@),
    decreases directives,
{
    let ghost ds = directives@;
    assert(ds.subrange(0, ds.len() as int) =~= ds);
    let mut i: usize = 0;
    while i < directives.len()
        invariant
            i <= directives.len(),
            ds == directives@,
            first_mock_proxy(ds) == first_mock_proxy(ds.subrange(i as int, ds.len() as int)),
        decreases directives.len() - i,
    {
        let ghost rest = ds.subrange(i as int, ds.len() as int);
        assert(rest[0] == ds[i as int]);
        assert(rest.drop_first() =~= ds.subrange(i + 1, ds.len() as int));
        let d = &directives[i];
        if d.name.as_str().to_owned() == "reverse_proxy".to_owned() && d.arguments.len() > 0 {
            return Some(d.arguments[0].clone());
        }
        match &d.block {
            Some(block) => {
                proof {
                    assert(decreases_to!(*directives => directives[i as int]));
                    assert(decreases_to!(directives[i as int] => directives[i as int].block));
                    assert(decreases_to!(directives[i as int].block => directives[i as int].block->0));
                }
                match first_mock_reverse_proxy(block) {
                    Some(u) => {
                        return Some(u);
                    },
                    None => {},
                }
            },
            None => {},
        }
        i = i + 1;
    }
    None
}

/// The non-empty hosts, in order.
pub open spec fn named_hosts(hosts: Seq<Seq<char>>) -> Seq<Seq<char>> {
    hosts.filter(|h: Seq<char>| h.len() > 0)
}

/// The mock routes of one site: one per named host, each proxying to the site's upstream.
pub open spec fn site_routes(site: CaddySite) -> Seq<Json> {
    named_hosts(strings_view(site.hosts@)).map_values(
        |h: Seq<char>| mock_route(canonical_domain(h), first_mock_proxy(site.directives@)),
    )
}

/// The mock routes of every site, site by site.
pub open spec fn sites_routes(sites: Seq<CaddySite>) -> Seq<Json>
    decreases sites.len(),
{
    if sites.len() == 0 {
        Seq::empty()
    } else {
        sites_routes(sites.drop_last()) + site_routes(sites.last())
    }
}

/// The mock routes of a parsed Caddyfile.
pub fn mock_caddyfile_routes(sites: &Vec<CaddySite>) -> (r: Vec<JsonValue>)
    ensures
        jsons_of(r@) == sites_routes(sites@),
{
    let mut out: Vec<JsonValue> = Vec::new();
    let mut i: usize = 0;
    while i < sites.len()
        invariant
            i <= sites.len(),
            jsons_of(out@) == sites_routes(sites@.subrange(0, i as int)),
        decreases sites.len() - i,
    {
        assert(sites@.subrange(0, i + 1).drop_last() =~= sites@.subrange(0, i as int));
        let site = &sites[i];
        let upstream = first_mock_reverse_proxy(&site.directives);
        let ghost hv = strings_view(site.hosts@);
        let ghost before = jsons_of(out@);
        let ghost up = first_mock_proxy(site.directives@);
        let ghost f = |h: Seq<char>| mock_route(canonical_domain(h), up);
        let mut k: usize = 0;
        while k < site.hosts.len()
            invariant
                k <= site.hosts.len(),
                hv == strings_view(site.hosts@),
                opt_view(upstream) == up,
                f == (|h: Seq<char>| mock_route(canonical_domain(h), up)),
                jsons_of(out@) == before + named_hosts(hv.subrange(0, k as int)).map_values(f),
            decreases site.hosts.len() - k,
        {
            proof {
                reveal(Seq::filter);
                assert(hv.subrange(0, k + 1).drop_last() =~= hv.subrange(0, k as int));
                assert(hv.subrange(0, k + 1).last() == site.hosts@[k as int]@);
            }
            if site.hosts[k].as_str().unicode_len() > 0 {
                let domain = canonicalize_domain(site.hosts[k].as_str());
                let route = match &upstream {
                    Some(u) => mock_route_for_domain_and_upstream(domain.as_str(), Some(u.as_str())),
                    None => mock_route_for_domain_and_upstream(domain.as_str(), None),
                };
                let ghost prev = out@;
                proof {
                    lemma_jsons_of_push(prev, route);
                }
                out.push(route);
                proof {
                    let np = named_hosts(hv.subrange(0, k as int));
                    assert(named_hosts(hv.subrange(0, k + 1)) == np.push(site.hosts@[k as int]@));
                    assert(np.push(site.hosts@[k as int]@).map_values(f) =~= np.map_values(f).push(
                        f(site.hosts@[k as int]@),
                    ));
                    assert(before + np.push(site.hosts@[k as int]@).map_values(f) =~= (before
                        + np.map_values(f)).push(f(site.hosts@[k as int]@)));
                }
            }
            k = k + 1;
        }
        proof {
            assert(hv.subrange(0, hv.len() as int) =~= hv);
            assert(site_routes(*site) =~= named_hosts(hv).map_values(f));
        }
        i = i + 1;
    }
    assert(sites@.subrange(0, sites@.len() as int) =~= sites@);
    out
}

/// A registration after adaptation, with the routes it contributes and what went wrong.
#[derive(Debug)]
pub struct PreparedRegistration {
    pub registration: EntrypointRegistration,
    pub routes: Vec<JsonValue>,
    pub diagnostics: Vec<ConfigDiagnostic>,
}

/// The diagnostic of a failed adaptation.
pub open spec fn adapt_failed(message: Seq<char>) -> DiagnosticView {
    DiagnosticView { code: "adapt-failed"@, message, domain_key: None, paths: Seq::empty() }
}

/// The upstream recorded for canonical name `c`: the last parsed domain with that name.
pub open spec fn parsed_upstream(parsed: Seq<DomainView>, c: Seq<char>) -> Option<Seq<char>>
    decreases parsed.len(),
{
    if parsed.len() == 0 {
        None
    } else if parsed.last().canonical == c {
        parsed.last().upstream
    } else {
        parsed_upstream(parsed.drop_last(), c)
    }
}

/// A registered domain with its upstream taken from the parsed domains.
pub open spec fn with_parsed_upstream(d: DomainView, parsed: Seq<DomainView>) -> DomainView {
    DomainView { upstream: parsed_upstream(parsed, d.canonical), ..d }
}

/// The routes the mock backend serves for a registration: those of its Caddyfile when it
/// yields any, else one static route per registered domain.
pub open spec fn mock_routes(r: RegistrationView, parsed_sites: Option<Seq<CaddySite>>) -> Seq<Json> {
    match parsed_sites {
        Some(sites) => if sites_routes(sites).len() > 0 {
            sites_routes(sites)
        } else {
            r.domains.map_values(|d: DomainView| mock_route(d.canonical, None))
        },
        None => r.domains.map_values(|d: DomainView| mock_route(d.canonical, None)),
    }
}

/// The domains of a registration prepared by the mock backend: those its routes serve when
/// it registered none, else its own with upstreams from the routes.
pub open spec fn mock_domains(r: RegistrationView, routes: Seq<Json>) -> Seq<DomainView> {
    if r.domains.len() == 0 {
        served_domains(routes)
    } else {
        r.domains.map_values(|d: DomainView| with_parsed_upstream(d, served_domains(routes)))
    }
}

/// The mock backend: it reads a registration's Caddyfile itself instead of running Caddy.
#[derive(Debug, Clone, Copy)]
pub struct MockCaddyConfigAdapter;

fn upstream_from_parsed(parsed: &Vec<RegisteredDomain>, canonical: &str) -> (r: Option<String>)
    ensures
        opt_view(r) == parsed_upstream(domain_views(parsed@), canonical@),
{
    let ghost pv = domain_views(parsed@);
    let mut i: usize = parsed.len();
    assert(pv.subrange(0, pv.len() as int) =~= pv);
    while i > 0
        invariant
            i <= parsed.len(),
            pv == domain_views(parsed@),
            parsed_upstream(pv, canonical@) == parsed_upstream(pv.subrange(0, i as int), canonical@),
        decreases i,
    {
        let ghost pre = pv.subrange(0, i as int);
        assert(pre.drop_last() =~= pv.subrange(0, i - 1));
        assert(pre.last() == parsed@[i - 1]@);
        if parsed[i - 1].name.canonical.as_str().to_owned() == canonical.to_owned() {
            return match &parsed[i - 1].upstream {
                Some(u) => Some(u.clone()),
                None => None,
            };
        }
        i = i - 1;
    }
    None
}

impl MockCaddyConfigAdapter {
    /// Prepares a registration from its parsed Caddyfile: `None` when the file could not be
    /// read, an error message when it could not be parsed.
    pub fn prepare(&self, registration: EntrypointRegistration, parsed: Option<Result<Vec<CaddySite>, String>>) -> (r: PreparedRegistration)
        ensures
            match parsed {
                Some(Err(e)) => {
                    &&& r.registration@ == registration@
                    &&& r.routes@.len() == 0
                    &&& diagnostic_views(r.diagnostics@) == seq![adapt_failed("parse Caddyfile for mock backend: "@ + e@)]
                },
                _ => {
                    let routes = mock_routes(
                        registration@,
                        match parsed {
                            Some(Ok(sites)) => Some(sites@),
                            _ => None,
                        },
                    );
                    &&& jsons_of(r.routes@) == routes
                    &&& r.registration@ == (RegistrationView {
                        domains: mock_domains(registration@, routes),
                        ..registration@
                    })
                    &&& r.diagnostics@.len() == 0
                },
            },
    {
        let ghost rv = registration@;
        let parsed_routes: Option<Vec<JsonValue>> = match parsed {
            Some(Ok(sites)) => Some(mock_caddyfile_routes(&sites)),
            Some(Err(error)) => {
                let mut message = "parse Caddyfile for mock backend: ".to_owned();
                push_str(&mut message, error.as_str());
                let diag = ConfigDiagnostic {
                    code: "adapt-failed".to_owned(),
                    message,
                    domain_key: None,
                    source_config_paths: Vec::new(),
                };
                let mut diagnostics: Vec<ConfigDiagnostic> = Vec::new();
                diagnostics.push(diag);
                proof {
                    assert(strings_view(diag.source_config_paths@) =~= Seq::<Seq<char>>::empty());
                    assert(diagnostic_views(diagnostics@) =~= seq![diag@]);
                }
                return PreparedRegistration { registration, routes: Vec::new(), diagnostics };
            },
            None => None,
        };
        let routes = match parsed_routes {
            Some(rs) => {
                if rs.len() > 0 {
                    rs
                } else {
                    proof {
                        lemma_jsons_of(rs@);
                    }
                    domain_mock_routes(&registration.registered_domains)
                }
            },
            None => domain_mock_routes(&registration.registered_domains),
        };
        proof {
            lemma_jsons_of(routes@);
        }
        let parsed_domains = extract_registered_domains_from_routes(&routes);
        let mut registration = registration;
        if registration.registered_domains.len() == 0 {
            registration.registered_domains = parsed_domains;
        } else {
            let ds = &registration.registered_domains;
            let ghost pv = domain_views(parsed_domains@);
            let mut updated: Vec<RegisteredDomain> = Vec::new();
            let mut i: usize = 0;
            while i < ds.len()
                invariant
                    i <= ds.len(),
                    pv == domain_views(parsed_domains@),
                    domain_views(updated@) == domain_views(ds@).subrange(0, i as int).map_values(
                        |d: DomainView| with_parsed_upstream(d, pv),
                    ),
                decreases ds.len() - i,
            {
                let mut d = ds[i].copy();
                d.upstream = upstream_from_parsed(&parsed_domains, ds[i].name.canonical.as_str());
                let ghost prev = updated@;
                updated.push(d);
                proof {
                    assert(domain_views(ds@).subrange(0, i + 1) =~= domain_views(ds@).subrange(0, i as int).push(ds@[i as int]@));
                    assert(domain_views(updated@) =~= domain_views(prev).push(d@));
                    assert(domain_views(ds@).subrange(0, i + 1).map_values(|d: DomainView| with_parsed_upstream(d, pv)) =~= domain_views(ds@).subrange(
                        0,
                        i as int,
                    ).map_values(|d: DomainView| with_parsed_upstream(d, pv)).push(with_parsed_upstream(ds@[i as int]@, pv)));
                }
                i = i + 1;
            }
            assert(domain_views(ds@).subrange(0, domain_views(ds@).len() as int) =~= domain_views(ds@));
            registration.registered_domains = updated;
        }
        PreparedRegistration { registration, routes, diagnostics: Vec::new() }
    }
}

/// The arguments of `caddy adapt` for a Caddyfile: its path and the adapter, `caddyfile`
/// unless the registration names another.
pub fn adapt_arguments(config_path: &str, adapter: Option<&str>) -> (r: Vec<String>)
    ensures
        strings_view(r@) == seq![
            "adapt"@,
            "--config"@,
            config_path@,
            "--adapter"@,
            match adapter {
                Some(a) => a@,
                None => "caddyfile"@,
            },
        ],
{
    let mut args: Vec<String> = Vec::new();
    args.push("adapt".to_owned());
    args.push("--config".to_owned());
    args.push(config_path.to_owned());
    args.push("--adapter".to_owned());
    match adapter {
        Some(a) => args.push(a.to_owned()),
        None => args.push("caddyfile".to_owned()),
    }
    proof {
        assert(strings_view(args@) =~= seq![
            "adapt"@,
            "--config"@,
            config_path@,
            "--adapter"@,
            match adapter {
                Some(a) => a@,
                None => "caddyfile"@,
            },
        ]);
    }
    args
}

/// What a finished `caddy adapt` yields: the adapted configuration, or why there is none —
/// a failed run with its error output, or output that is not JSON (`parsed` is `None`).
pub fn adapt_result(success: bool, stderr: &[u8], parsed: Option<JsonValue>) -> (r: Result<JsonValue, String>)
    ensures
        !success ==> (r matches Err(m) && m@ == "caddy adapt failed: "@ + lossy_text(stderr@)),
        success && parsed is None ==> (r matches Err(m) && m@ == "parse adapted Caddy JSON"@),
        success && parsed is Some ==> (r matches Ok(v) && v@ == parsed->0@),
{
    if !success {
        let mut m = "caddy adapt failed: ".to_owned();
        push_str(&mut m, decode_lossy(stderr).as_str());
        return Err(m);
    }
    match parsed {
        Some(v) => Ok(v),
        None => Err("parse adapted Caddy JSON".to_owned()),
    }
}

/// Prepares a registration from what `caddy adapt` yielded: the domains its routes serve,
/// when there are any, replace the registered ones, and its HTTP routes are kept; a failed
/// adaptation keeps the registration as it is, with no routes and the failure as a
/// diagnostic.
pub fn prepare_adapted(registration: EntrypointRegistration, adapted: Result<JsonValue, String>) -> (r: PreparedRegistration)
    ensures
        match adapted {
            Ok(v) => {
                &&& jsons_of(r.routes@) == http_routes(v@)
                &&& r.registration@ == (RegistrationView {
                    domains: if served_domains(http_routes(v@)).len() > 0 {
                        served_domains(http_routes(v@))
                    } else {
                        registration@.domains
                    },
                    ..registration@
                })
                &&& r.diagnostics@.len() == 0
            },
            Err(m) => {
                &&& r.registration@ == registration@
                &&& r.routes@.len() == 0
                &&& diagnostic_views(r.diagnostics@) == seq![adapt_failed(m@)]
            },
        },
{
    match adapted {
        Ok(value) => {
            let domains = extract_registered_domains(&value);
            let mut prepared = registration;
            if domains.len() > 0 {
                prepared.registered_domains = domains;
            }
            let routes = extract_http_routes(&value);
            PreparedRegistration { registration: prepared, routes, diagnostics: Vec::new() }
        },
        Err(message) => {
            let diag = ConfigDiagnostic {
                code: "adapt-failed".to_owned(),
                message,
                domain_key: None,
                source_config_paths: Vec::new(),
            };
            let mut diagnostics: Vec<ConfigDiagnostic> = Vec::new();
            diagnostics.push(diag);
            proof {
                assert(strings_view(diag.source_config_paths@) =~= Seq::<Seq<char>>::empty());
                assert(diagnostic_views(diagnostics@) =~= seq![diag@]);
            }
            PreparedRegistration { registration, routes: Vec::new(), diagnostics }
        },
    }
}

/// One static mock route per registered domain, in order.
fn domain_mock_routes(ds: &Vec<RegisteredDomain>) -> (r: Vec<JsonValue>)
    ensures
        jsons_of(r@) == domain_views(ds@).map_values(|d: DomainView| mock_route(d.canonical, None)),
{
    let mut out: Vec<JsonValue> = Vec::new();
    let mut i: usize = 0;
    while i < ds.len()
        invariant
            i <= ds.len(),
            jsons_of(out@) == domain_views(ds@).subrange(0, i as int).map_values(
                |d: DomainView| mock_route(d.canonical, None),
            ),
        decreases ds.len() - i,
    {
        let route = mock_route_for_domain(ds[i].name.canonical.as_str());
        proof {
            lemma_jsons_of_push(out@, route);
            assert(domain_views(ds@).subrange(0, i + 1) =~= domain_views(ds@).subrange(0, i as int).push(ds@[i as int]@));
            assert(domain_views(ds@).subrange(0, i + 1).map_values(|d: DomainView| mock_route(d.canonical, None)) =~= domain_views(ds@).subrange(
                0,
                i as int,
            ).map_values(|d: DomainView| mock_route(d.canonical, None)).push(mock_route(ds@[i as int]@.canonical, None)));
        }
        out.push(route);
        i = i + 1;
    }
    assert(domain_views(ds@).subrange(0, domain_views(ds@).len() as int) =~= domain_views(ds@));
    out
}

// ---------------------------------------------------------------------------------------
// Composing the Caddy configuration
// ---------------------------------------------------------------------------------------

/// The adapted routes of one registration.
#[derive(Debug)]
pub struct RouteEntry {
    pub registration_id: String,
    pub routes: Vec<JsonValue>,
}

/// The view of a route table: each registration's identifier and routes.
pub open spec fn route_table(t: Seq<RouteEntry>) -> Seq<(Seq<char>, Seq<Json>)> {
    t.map_values(|e: RouteEntry| (e.registration_id@, jsons_of(e.routes@)))
}

/// The routes recorded for registration `id`: those of the first entry for it.
pub open spec fn lookup_routes(table: Seq<(Seq<char>, Seq<Json>)>, id: Seq<char>) -> Option<Seq<Json>>
    decreases table.len(),
{
    if table.len() == 0 {
        None
    } else if table[0].0 == id {
        Some(table[0].1)
    } else {
        lookup_routes(table.drop_first(), id)
    }
}

/// The routes kept after restricting each to the enabled hosts, in order.
pub open spec fn kept_routes(rs: Seq<Json>, enabled: Set<Seq<char>>) -> Seq<Json>
    decreases rs.len(),
{
    if rs.len() == 0 {
        Seq::empty()
    } else {
        match filter_route(rs.last(), enabled) {
            Some(x) => kept_routes(rs.drop_last(), enabled).push(x),
            None => kept_routes(rs.drop_last(), enabled),
        }
    }
}

/// The route that stands for a host whose registration has no adapted routes.
pub open spec fn placeholder_route(host: Seq<char>) -> Json {
    host_route(
        host,
        Json::Object(
            seq![
                ("body"@, Json::Str("Cadder route placeholder"@)),
                ("handler"@, Json::Str("static_response"@)),
            ],
        ),
    )
}

/// The routes a registration contributes: nothing without enabled domains; its adapted
/// routes restricted to them; or a placeholder per enabled domain in ascending order.
pub open spec fn registration_routes(r: RegistrationView, table: Seq<(Seq<char>, Seq<Json>)>) -> Seq<Json> {
    if enabled_names(r.domains).len() == 0 {
        Seq::empty()
    } else {
        match lookup_routes(table, r.id) {
            Some(rs) => kept_routes(rs, enabled_hosts(r)),
            None => sorted_of(enabled_hosts(r)).map_values(|h: Seq<char>| placeholder_route(h)),
        }
    }
}

/// The routes of all registrations, registration by registration.
pub open spec fn composed_routes(rs: Seq<RegistrationView>, table: Seq<(Seq<char>, Seq<Json>)>) -> Seq<Json>
    decreases rs.len(),
{
    if rs.len() == 0 {
        Seq::empty()
    } else {
        composed_routes(rs.drop_last(), table) + registration_routes(rs.last(), table)
    }
}

/// The enabled domains of all registrations.
pub open spec fn subject_hosts(rs: Seq<RegistrationView>) -> Set<Seq<char>>
    decreases rs.len(),
{
    if rs.len() == 0 {
        Set::empty()
    } else {
        subject_hosts(rs.drop_last()).union(enabled_hosts(rs.last()))
    }
}

/// The string values of a list of texts.
pub open spec fn str_values(s: Seq<Seq<char>>) -> Seq<Json> {
    s.map_values(|t: Seq<char>| Json::Str(t))
}

/// The Caddy configuration: an admin endpoint on localhost:2019; an HTTP server on :80 and
/// an HTTPS server on :443 with the same routes (the HTTP copies with `@id`s prefixed by
/// `http_`); and internal certificates for every enabled domain.
pub open spec fn composed_config(rs: Seq<RegistrationView>, table: Seq<(Seq<char>, Seq<Json>)>) -> Json {
    let routes = composed_routes(rs, table);
    let subjects = str_values(sorted_of(subject_hosts(rs)));
    Json::Object(
        seq![
            ("admin"@, Json::Object(seq![("listen"@, Json::Str("localhost:2019"@))])),
            (
                "apps"@,
                Json::Object(
                    seq![
                        (
                            "http"@,
                            Json::Object(
                                seq![
                                    (
                                        "servers"@,
                                        Json::Object(
                                            seq![
                                                (
                                                    "cadder_http"@,
                                                    Json::Object(
                                                        seq![
                                                            ("listen"@, Json::Array(seq![Json::Str(":80"@)])),
                                                            ("routes"@, Json::Array(namespaced_items(routes, "http_"@))),
                                                        ],
                                                    ),
                                                ),
                                                (
                                                    "cadder_https"@,
                                                    Json::Object(
                                                        seq![
                                                            ("listen"@, Json::Array(seq![Json::Str(":443"@)])),
                                                            ("routes"@, Json::Array(routes)),
                                                            ("tls_connection_policies"@, Json::Array(seq![Json::Object(Seq::empty())])),
                                                        ],
                                                    ),
                                                ),
                                            ],
                                        ),
                                    ),
                                ],
                            ),
                        ),
                        (
                            "tls"@,
                            Json::Object(
                                seq![
                                    (
                                        "automation"@,
                                        Json::Object(
                                            seq![
                                                (
                                                    "policies"@,
                                                    Json::Array(
                                                        seq![
                                                            Json::Object(
                                                                seq![
                                                                    ("issuers"@, Json::Array(seq![Json::Object(seq![("module"@, Json::Str("internal"@))])])),
                                                                    ("subjects"@, Json::Array(subjects)),
                                                                ],
                                                            ),
                                                        ],
                                                    ),
                                                ),
                                            ],
                                        ),
                                    ),
                                ],
                            ),
                        ),
                    ],
                ),
            ),
        ],
    )
}

fn find_routes(table: &Vec<RouteEntry>, id: &str) -> (r: Option<usize>)
    ensures
        match lookup_routes(route_table(table@), id@) {
            Some(rs) => r matches Some(i) && i < table@.len() && jsons_of(table@[i as int].routes@) == rs,
            None => r is None,
        },
{
    let ghost t = route_table(table@);
    assert(t.subrange(0, t.len() as int) =~= t);
    let mut i: usize = 0;
    while i < table.len()
        invariant
            i <= table.len(),
            t == route_table(table@),
            lookup_routes(t, id@) == lookup_routes(t.subrange(i as int, t.len() as int), id@),
        decreases table.len() - i,
    {
        let ghost rest = t.subrange(i as int, t.len() as int);
        assert(rest[0] == t[i as int]);
        assert(rest.drop_first() =~= t.subrange(i + 1, t.len() as int));
        if table[i].registration_id.as_str().to_owned() == id.to_owned() {
            return Some(i);
        }
        i = i + 1;
    }
    None
}

fn placeholder_route_value(host: &str) -> (r: JsonValue)
    ensures
        r@ == placeholder_route(host@),
{
    let handler = object(members2("body", text("Cadder route placeholder"), "handler", text("static_response")));
    host_route_value(host, handler)
}

/// The routes one registration contributes.
fn contributed_routes(registration: &EntrypointRegistration, table: &Vec<RouteEntry>, hosts: &Vec<String>) -> (r: Vec<JsonValue>)
    requires
        strings_view(hosts@) == sorted_of(enabled_hosts(registration@)),
        name_set(hosts@) == enabled_hosts(registration@),
        hosts@.len() > 0,
    ensures
        jsons_of(r@) == match lookup_routes(route_table(table@), registration@.id) {
            Some(rs) => kept_routes(rs, enabled_hosts(registration@)),
            None => sorted_of(enabled_hosts(registration@)).map_values(|h: Seq<char>| placeholder_route(h)),
        },
{
    let ghost enabled = enabled_hosts(registration@);
    let mut out: Vec<JsonValue> = Vec::new();
    match find_routes(table, registration.registration_id.as_str()) {
        Some(idx) => {
            let rs = &table[idx].routes;
            proof {
                lemma_jsons_of(rs@);
            }
            let ghost js = jsons_of(rs@);
            let mut i: usize = 0;
            while i < rs.len()
                invariant
                    i <= rs.len(),
                    js == jsons_of(rs@),
                    js.len() == rs@.len(),
                    forall|j: int| 0 <= j < rs@.len() ==> #[trigger] js[j] == json_of(rs@[j]),
                    enabled == name_set(hosts@),
                    jsons_of(out@) == kept_routes(js.subrange(0, i as int), enabled),
                decreases rs.len() - i,
            {
                assert(js.subrange(0, i + 1).drop_last() =~= js.subrange(0, i as int));
                assert(js.subrange(0, i + 1).last() == js[i as int]);
                match filter_route_hosts(&rs[i], hosts) {
                    Some(route) => {
                        proof {
                            lemma_jsons_of_push(out@, route);
                        }
                        out.push(route);
                    },
                    None => {},
                }
                i = i + 1;
            }
            assert(js.subrange(0, js.len() as int) =~= js);
        },
        None => {
            let ghost hv = strings_view(hosts@);
            let mut i: usize = 0;
            while i < hosts.len()
                invariant
                    i <= hosts.len(),
                    hv == strings_view(hosts@),
                    jsons_of(out@) == hv.subrange(0, i as int).map_values(|h: Seq<char>| placeholder_route(h)),
                decreases hosts.len() - i,
            {
                let route = placeholder_route_value(hosts[i].as_str());
                proof {
                    lemma_jsons_of_push(out@, route);
                    assert(hv.subrange(0, i + 1) =~= hv.subrange(0, i as int).push(hosts@[i as int]@));
                    assert(hv.subrange(0, i + 1).map_values(|h: Seq<char>| placeholder_route(h)) =~= hv.subrange(
                        0,
                        i as int,
                    ).map_values(|h: Seq<char>| placeholder_route(h)).push(placeholder_route(hosts@[i as int]@)));
                }
                out.push(route);
                i = i + 1;
            }
            assert(hv.subrange(0, hv.len() as int) =~= hv);
        },
    }
    out
}

pub(crate) proof fn lemma_no_enabled_names(r: RegistrationView, hosts: Seq<Seq<char>>)
    requires
        hosts.to_set() == enabled_hosts(r),
    ensures
        (hosts.len() == 0) == (enabled_names(r.domains).len() == 0),
{
    if hosts.len() == 0 && enabled_names(r.domains).len() > 0 {
        assert(enabled_names(r.domains).to_set().contains(enabled_names(r.domains)[0]));
        assert(!hosts.to_set().contains(enabled_names(r.domains)[0]));
    }
    if hosts.len() > 0 && enabled_names(r.domains).len() == 0 {
        assert(hosts.to_set().contains(hosts[0]));
        assert(enabled_names(r.domains).to_set() =~= Set::<Seq<char>>::empty());
    }
}

/// Composes the Caddy configuration of the given registrations from their adapted routes.
pub fn compose_config(registrations: &[EntrypointRegistration], routes_by_registration: &Vec<RouteEntry>) -> (r: JsonValue)
    ensures
        r@ == composed_config(registration_views(registrations@), route_table(routes_by_registration@)),
{
    let ghost rv = registration_views(registrations@);
    let ghost table = route_table(routes_by_registration@);
    let mut routes: Vec<JsonValue> = Vec::new();
    let mut subjects: Vec<String> = Vec::new();
    assert(strings_view(subjects@) =~= Seq::<Seq<char>>::empty());
    assert(name_set(subjects@) =~= Set::<Seq<char>>::empty());
    let mut i: usize = 0;
    while i < registrations.len()
        invariant
            i <= registrations.len(),
            rv == registration_views(registrations@),
            table == route_table(routes_by_registration@),
            jsons_of(routes@) == composed_routes(rv.subrange(0, i as int), table),
            strictly_sorted(strings_view(subjects@)),
            name_set(subjects@) == subject_hosts(rv.subrange(0, i as int)),
        decreases registrations.len() - i,
    {
        let ghost prefix = rv.subrange(0, i as int);
        assert(rv.subrange(0, i + 1).drop_last() =~= prefix);
        assert(rv.subrange(0, i + 1).last() == registrations@[i as int]@);
        let reg = &registrations[i];
        let hosts = active_domains(reg);
        proof {
            lemma_no_enabled_names(reg@, strings_view(hosts@));
        }
        if hosts.len() > 0 {
            let ghost before_subjects = name_set(subjects@);
            let mut k: usize = 0;
            while k < hosts.len()
                invariant
                    k <= hosts.len(),
                    strictly_sorted(strings_view(subjects@)),
                    name_set(subjects@) == before_subjects.union(strings_view(hosts@).subrange(0, k as int).to_set()),
                decreases hosts.len() - k,
            {
                insert_sorted(&mut subjects, hosts[k].clone());
                proof {
                    assert(strings_view(hosts@).subrange(0, k + 1) =~= strings_view(hosts@).subrange(0, k as int).push(hosts@[k as int]@));
                    crate::caddy_routes::lemma_push_to_set(strings_view(hosts@).subrange(0, k as int), hosts@[k as int]@);
                    assert(before_subjects.union(strings_view(hosts@).subrange(0, k as int).to_set()).insert(hosts@[k as int]@) =~= before_subjects.union(
                        strings_view(hosts@).subrange(0, k + 1).to_set(),
                    ));
                }
                k = k + 1;
            }
            assert(strings_view(hosts@).subrange(0, hosts@.len() as int) =~= strings_view(hosts@));
            let contributed = contributed_routes(reg, routes_by_registration, &hosts);
            proof {
                lemma_jsons_of(contributed@);
            }
            let ghost before = jsons_of(routes@);
            let mut k: usize = 0;
            while k < contributed.len()
                invariant
                    k <= contributed.len(),
                    jsons_of(routes@) == before + jsons_of(contributed@).subrange(0, k as int),
                    jsons_of(contributed@).len() == contributed@.len(),
                    forall|j: int| 0 <= j < contributed@.len() ==> #[trigger] jsons_of(contributed@)[j] == json_of(contributed@[j]),
                decreases contributed.len() - k,
            {
                let c = contributed[k].copy();
                proof {
                    lemma_jsons_of_push(routes@, c);
                    assert(jsons_of(contributed@).subrange(0, k + 1) =~= jsons_of(contributed@).subrange(0, k as int).push(json_of(contributed@[k as int])));
                    assert(before + jsons_of(contributed@).subrange(0, k + 1) =~= (before + jsons_of(contributed@).subrange(0, k as int)).push(json_of(contributed@[k as int])));
                }
                routes.push(c);
                k = k + 1;
            }
            assert(jsons_of(contributed@).subrange(0, contributed@.len() as int) =~= jsons_of(contributed@));
        } else {
            proof {
                assert(jsons_of(routes@) =~= composed_routes(prefix, table) + Seq::<Json>::empty());
                assert(strings_view(hosts@).to_set() =~= Set::<Seq<char>>::empty());
                assert(name_set(subjects@).union(enabled_hosts(registrations@[i as int]@)) =~= name_set(subjects@));
            }
        }
        i = i + 1;
    }
    assert(rv.subrange(0, rv.len() as int) =~= rv);
    proof {
        lemma_is_sorted_of(strings_view(subjects@));
        lemma_jsons_of(routes@);
    }
    // the HTTP server's copies of the routes, with namespaced identifiers
    let ghost rj = jsons_of(routes@);
    let mut http_routes: Vec<JsonValue> = Vec::new();
    let mut k: usize = 0;
    while k < routes.len()
        invariant
            k <= routes.len(),
            rj == jsons_of(routes@),
            rj.len() == routes@.len(),
            forall|j: int| 0 <= j < routes@.len() ==> #[trigger] rj[j] == json_of(routes@[j]),
            jsons_of(http_routes@) == namespaced_items(rj.subrange(0, k as int), "http_"@),
        decreases routes.len() - k,
    {
        assert(rj.subrange(0, k + 1).drop_last() =~= rj.subrange(0, k as int));
        assert(rj.subrange(0, k + 1).last() == rj[k as int]);
        let x = namespace_config_ids(&routes[k], "http_");
        proof {
            lemma_jsons_of_push(http_routes@, x);
        }
        http_routes.push(x);
        k = k + 1;
    }
    assert(rj.subrange(0, rj.len() as int) =~= rj);
    // the certificate subjects
    let ghost sv = strings_view(subjects@);
    let mut subject_values: Vec<JsonValue> = Vec::new();
    let mut k: usize = 0;
    while k < subjects.len()
        invariant
            k <= subjects.len(),
            sv == strings_view(subjects@),
            jsons_of(subject_values@) == str_values(sv.subrange(0, k as int)),
        decreases subjects.len() - k,
    {
        let x = text(subjects[k].as_str());
        proof {
            lemma_jsons_of_push(subject_values@, x);
            assert(sv.subrange(0, k + 1) =~= sv.subrange(0, k as int).push(subjects@[k as int]@));
            assert(str_values(sv.subrange(0, k + 1)) =~= str_values(sv.subrange(0, k as int)).push(Json::Str(subjects@[k as int]@)));
        }
        subject_values.push(x);
        k = k + 1;
    }
    assert(sv.subrange(0, sv.len() as int) =~= sv);
    let admin = object(members1("listen", text("localhost:2019")));
    let http_server = object(members2("listen", array1(text(":80")), "routes", JsonValue::Array(http_routes)));
    let no_members: Vec<JsonMember> = Vec::new();
    assert(members_of(no_members@) =~= Seq::<(Seq<char>, Json)>::empty());
    let https_server = object(
        members3(
            "listen",
            array1(text(":443")),
            "routes",
            JsonValue::Array(routes),
            "tls_connection_policies",
            array1(object(no_members)),
        ),
    );
    let servers = object(members2("cadder_http", http_server, "cadder_https", https_server));
    let http = object(members1("servers", servers));
    let issuer = object(members1("module", text("internal")));
    let policy = object(members2("issuers", array1(issuer), "subjects", JsonValue::Array(subject_values)));
    let automation = object(members1("policies", array1(policy)));
    let tls = object(members1("automation", automation));
    let apps = object(members2("http", http, "tls", tls));
    object(members2("admin", admin, "apps", apps))
}

// ---------------------------------------------------------------------------------------
// Laws of the composed configuration
// ---------------------------------------------------------------------------------------

proof fn lemma_items_hosts_concat(a: Seq<Json>, b: Seq<Json>)
    ensures
        crate::caddy_routes::items_hosts(a + b) == crate::caddy_routes::items_hosts(a).union(
            crate::caddy_routes::items_hosts(b),
        ),
    decreases b.len(),
{
    if b.len() == 0 {
        assert(a + b =~= a);
        assert(crate::caddy_routes::items_hosts(a).union(Set::empty()) =~= crate::caddy_routes::items_hosts(a));
    } else {
        lemma_items_hosts_concat(a, b.drop_last());
        assert((a + b).drop_last() =~= a + b.drop_last());
        assert((a + b).last() == b.last());
        assert(crate::caddy_routes::items_hosts(a).union(crate::caddy_routes::items_hosts(b.drop_last())).union(json_hosts(b.last())) =~= crate::caddy_routes::items_hosts(a).union(
            crate::caddy_routes::items_hosts(b),
        ));
    }
}

proof fn lemma_kept_routes_hosts(rs: Seq<Json>, enabled: Set<Seq<char>>)
    ensures
        crate::caddy_routes::items_hosts(kept_routes(rs, enabled)).subset_of(enabled),
    decreases rs.len(),
{
    if rs.len() > 0 {
        lemma_kept_routes_hosts(rs.drop_last(), enabled);
        crate::caddy_routes::lemma_filtered_route_serves_enabled_hosts(rs.last(), enabled);
        let rest = kept_routes(rs.drop_last(), enabled);
        match filter_route(rs.last(), enabled) {
            Some(x) => {
                assert(rest.push(x).drop_last() =~= rest);
            },
            None => {},
        }
    }
}

proof fn lemma_placeholder_hosts(h: Seq<char>)
    ensures
        json_hosts(placeholder_route(h)) == set![canonical_domain(h)],
{
    reveal_strlit("host");
    reveal_strlit("handle");
    reveal_strlit("match");
    reveal_strlit("terminal");
    reveal_strlit("body");
    reveal_strlit("handler");
    let handler_members = seq![
        ("body"@, Json::Str("Cadder route placeholder"@)),
        ("handler"@, Json::Str("static_response"@)),
    ];
    let handler = Json::Object(handler_members);
    assert(handler_members.drop_last() =~= seq![("body"@, Json::Str("Cadder route placeholder"@))]);
    assert(handler_members.drop_last().drop_last() =~= Seq::<(Seq<char>, Json)>::empty());
    assert("body"@ != "host"@) by {
        assert("body"@[0] != "host"@[0]);
    }
    assert("handler"@ != "host"@) by {
        assert("handler"@.len() != "host"@.len());
    }
    let hm1 = handler_members.drop_last();
    assert(json_hosts(Json::Str("Cadder route placeholder"@)) == Set::<Seq<char>>::empty());
    assert(json_hosts(Json::Str("static_response"@)) == Set::<Seq<char>>::empty());
    assert(crate::caddy_routes::members_hosts(hm1.drop_last()) == Set::<Seq<char>>::empty());
    assert(crate::caddy_routes::members_hosts(hm1) == crate::caddy_routes::members_hosts(hm1.drop_last()).union(
        Set::<Seq<char>>::empty(),
    ).union(Set::<Seq<char>>::empty()));
    assert(crate::caddy_routes::members_hosts(hm1) =~= Set::<Seq<char>>::empty());
    assert(crate::caddy_routes::members_hosts(handler_members) == crate::caddy_routes::members_hosts(hm1).union(
        Set::<Seq<char>>::empty(),
    ).union(Set::<Seq<char>>::empty()));
    assert(json_hosts(handler) =~= Set::<Seq<char>>::empty());
    let host_list = Json::Array(seq![Json::Str(h)]);
    assert(seq![Json::Str(h)].drop_last() =~= Seq::<Json>::empty());
    lemma_str_texts_one(h);
    let matcher_members = seq![("host"@, host_list)];
    assert(matcher_members.drop_last() =~= Seq::<(Seq<char>, Json)>::empty());
    let matcher = Json::Object(matcher_members);
    assert(crate::caddy_routes::items_hosts(seq![Json::Str(h)].drop_last()) == Set::<Seq<char>>::empty());
    assert(json_hosts(Json::Str(h)) == Set::<Seq<char>>::empty());
    assert(crate::caddy_routes::items_hosts(seq![Json::Str(h)]) == Set::<Seq<char>>::empty().union(Set::<Seq<char>>::empty()));
    assert(json_hosts(host_list) =~= Set::<Seq<char>>::empty());
    assert(json_hosts(matcher) =~= set![canonical_domain(h)]);
    let match_list = Json::Array(seq![matcher]);
    assert(seq![matcher].drop_last() =~= Seq::<Json>::empty());
    assert(json_hosts(match_list) =~= set![canonical_domain(h)]);
    let handle_list = Json::Array(seq![handler]);
    assert(seq![handler].drop_last() =~= Seq::<Json>::empty());
    assert(json_hosts(handle_list) =~= Set::<Seq<char>>::empty());
    let members = seq![("handle"@, handle_list), ("match"@, match_list), ("terminal"@, Json::Bool(true))];
    assert(members.drop_last() =~= seq![("handle"@, handle_list), ("match"@, match_list)]);
    assert(members.drop_last().drop_last() =~= seq![("handle"@, handle_list)]);
    assert(members.drop_last().drop_last().drop_last() =~= Seq::<(Seq<char>, Json)>::empty());
    assert("handle"@ != "host"@) by {
        assert("handle"@[1] != "host"@[1]);
    }
    assert("match"@ != "host"@) by {
        assert("match"@.len() != "host"@.len());
    }
    assert("terminal"@ != "host"@) by {
        assert("terminal"@.len() != "host"@.len());
    }
    assert(placeholder_route(h) == Json::Object(members));
    let m2 = members.drop_last();
    let m1 = m2.drop_last();
    assert(crate::caddy_routes::members_hosts(m1.drop_last()) == Set::<Seq<char>>::empty());
    assert(crate::caddy_routes::members_hosts(m1) == Set::<Seq<char>>::empty().union(Set::<Seq<char>>::empty()).union(
        json_hosts(handle_list),
    ));
    assert(crate::caddy_routes::members_hosts(m1) =~= Set::<Seq<char>>::empty());
    assert(crate::caddy_routes::members_hosts(m2) == crate::caddy_routes::members_hosts(m1).union(
        Set::<Seq<char>>::empty(),
    ).union(json_hosts(match_list)));
    assert(crate::caddy_routes::members_hosts(m2) =~= set![canonical_domain(h)]);
    assert(json_hosts(Json::Bool(true)) == Set::<Seq<char>>::empty());
    assert(crate::caddy_routes::members_hosts(members) == crate::caddy_routes::members_hosts(m2).union(
        Set::<Seq<char>>::empty(),
    ).union(Set::<Seq<char>>::empty()));
    assert(json_hosts(placeholder_route(h)) =~= set![canonical_domain(h)]);
}

proof fn lemma_str_texts_one(h: Seq<char>)
    ensures
        crate::caddy_routes::str_texts(seq![Json::Str(h)]) == seq![h],
        crate::caddy_routes::listed_hosts(Json::Array(seq![Json::Str(h)])) == set![canonical_domain(h)],
{
    assert(seq![Json::Str(h)].drop_last() =~= Seq::<Json>::empty());
    assert(seq![Json::Str(h)].last() == Json::Str(h));
    assert(crate::caddy_routes::str_texts(Seq::<Json>::empty()) == Seq::<Seq<char>>::empty());
    assert(crate::caddy_routes::str_texts(seq![Json::Str(h)]) == Seq::<Seq<char>>::empty().push(h));
    assert(Seq::<Seq<char>>::empty().push(h) =~= seq![h]);
    assert(seq![h].map_values(|s: Seq<char>| canonical_domain(s)) =~= seq![canonical_domain(h)]);
    assert(seq![canonical_domain(h)].to_set() =~= set![canonical_domain(h)]) by {
        assert(seq![canonical_domain(h)][0] == canonical_domain(h));
    }
}

proof fn lemma_placeholders_hosts(hs: Seq<Seq<char>>)
    ensures
        crate::caddy_routes::items_hosts(hs.map_values(|h: Seq<char>| placeholder_route(h))) == hs.map_values(
            |h: Seq<char>| canonical_domain(h),
        ).to_set(),
    decreases hs.len(),
{
    if hs.len() == 0 {
        assert(hs.map_values(|h: Seq<char>| placeholder_route(h)) =~= Seq::<Json>::empty());
        assert(hs.map_values(|h: Seq<char>| canonical_domain(h)).to_set() =~= Set::<Seq<char>>::empty());
    } else {
        lemma_placeholders_hosts(hs.drop_last());
        lemma_placeholder_hosts(hs.last());
        let ps = hs.map_values(|h: Seq<char>| placeholder_route(h));
        assert(ps.drop_last() =~= hs.drop_last().map_values(|h: Seq<char>| placeholder_route(h)));
        assert(hs.map_values(|h: Seq<char>| canonical_domain(h)) =~= hs.drop_last().map_values(
            |h: Seq<char>| canonical_domain(h),
        ).push(canonical_domain(hs.last())));
        crate::caddy_routes::lemma_push_to_set(hs.drop_last().map_values(|h: Seq<char>| canonical_domain(h)), canonical_domain(hs.last()));
        assert(crate::caddy_routes::items_hosts(ps) =~= hs.map_values(|h: Seq<char>| canonical_domain(h)).to_set());
    }
}

/// Every enabled domain of `rs` is named in canonical form.
pub open spec fn enabled_names_canonical(rs: Seq<RegistrationView>) -> bool {
    forall|i: int, j: int| 0 <= i < rs.len() && 0 <= j < enabled_names(rs[i].domains).len()
        ==> canonical_domain(#[trigger] enabled_names(rs[i].domains)[j]) == enabled_names(rs[i].domains)[j]
}

/// The composed configuration serves only enabled domains: every host that its routes list
/// is an enabled domain of some registration, which also has a certificate subject. (A
/// domain whose stored name is not in canonical form is served under its canonical form,
/// so the law is stated for canonical names.)
pub proof fn lemma_composed_routes_serve_only_enabled_domains(rs: Seq<RegistrationView>, table: Seq<(Seq<char>, Seq<Json>)>)
    requires
        enabled_names_canonical(rs),
    ensures
        crate::caddy_routes::items_hosts(composed_routes(rs, table)).subset_of(subject_hosts(rs)),
    decreases rs.len(),
{
    if rs.len() > 0 {
        let d = rs.drop_last();
        assert forall|i: int, j: int| 0 <= i < d.len() && 0 <= j < enabled_names(d[i].domains).len()
            implies canonical_domain(#[trigger] enabled_names(d[i].domains)[j]) == enabled_names(d[i].domains)[j] by {
            assert(d[i] == rs[i]);
        }
        lemma_composed_routes_serve_only_enabled_domains(d, table);
        let r = rs.last();
        lemma_items_hosts_concat(composed_routes(d, table), registration_routes(r, table));
        let enabled = enabled_hosts(r);
        if enabled_names(r.domains).len() > 0 {
            match lookup_routes(table, r.id) {
                Some(routes) => {
                    lemma_kept_routes_hosts(routes, enabled);
                },
                None => {
                    crate::ordered::lemma_sorted_of_list(enabled_names(r.domains));
                    let hs = sorted_of(enabled);
                    lemma_placeholders_hosts(hs);
                    let cs = hs.map_values(|h: Seq<char>| canonical_domain(h));
                    assert forall|x: Seq<char>| cs.to_set().contains(x) implies enabled.contains(x) by {
                        let k = choose|k: int| 0 <= k < cs.len() && #[trigger] cs[k] == x;
                        assert(hs.to_set().contains(hs[k]));
                        let j = choose|j: int| 0 <= j < enabled_names(r.domains).len() && enabled_names(r.domains)[j] == hs[k];
                        assert(rs[rs.len() - 1] == r);
                        assert(canonical_domain(enabled_names(rs[rs.len() - 1].domains)[j]) == enabled_names(rs[rs.len() - 1].domains)[j]);
                    }
                },
            }
        }
    }
}

/// The HTTP server's copy of the composed routes serves the same hosts as the HTTPS routes.
pub proof fn lemma_http_routes_serve_the_https_hosts(rs: Seq<RegistrationView>, table: Seq<(Seq<char>, Seq<Json>)>)
    ensures
        crate::caddy_routes::items_hosts(namespaced_items(composed_routes(rs, table), "http_"@))
            == crate::caddy_routes::items_hosts(composed_routes(rs, table)),
{
    crate::caddy_routes::lemma_namespacing_keeps_items_hosts(composed_routes(rs, table), "http_"@);
}

/// The enabled domains of the enabled registrations, registration by registration.
pub open spec fn enabled_host_list(rs: Seq<RegistrationView>) -> Seq<Seq<char>>
    decreases rs.len(),
{
    if rs.len() == 0 {
        Seq::empty()
    } else if rs.last().enabled {
        enabled_host_list(rs.drop_last()) + enabled_names(rs.last().domains)
    } else {
        enabled_host_list(rs.drop_last())
    }
}

proof fn lemma_enabled_host_list(rs: Seq<RegistrationView>)
    ensures
        enabled_host_list(rs).to_set() == all_enabled_hosts(rs),
    decreases rs.len(),
{
    if rs.len() > 0 {
        lemma_enabled_host_list(rs.drop_last());
        if rs.last().enabled {
            let a = enabled_host_list(rs.drop_last());
            let b = enabled_names(rs.last().domains);
            assert((a + b).to_set() =~= a.to_set().union(b.to_set())) by {
                assert forall|x: Seq<char>| (a + b).to_set().contains(x) implies a.to_set().union(b.to_set()).contains(x) by {
                    let k = choose|k: int| 0 <= k < (a + b).len() && (a + b)[k] == x;
                    if k < a.len() {
                        assert(a[k] == x);
                    } else {
                        assert(b[k - a.len()] == x);
                    }
                }
                assert forall|x: Seq<char>| a.to_set().union(b.to_set()).contains(x) implies (a + b).to_set().contains(x) by {
                    if a.to_set().contains(x) {
                        let k = choose|k: int| 0 <= k < a.len() && a[k] == x;
                        assert((a + b)[k] == x);
                    } else {
                        let k = choose|k: int| 0 <= k < b.len() && b[k] == x;
                        assert((a + b)[a.len() + k] == x);
                    }
                }
            }
        }
    }
}

/// Conflicts are reported once per shared domain: the reported domains are strictly
/// ascending, so none is reported twice, and a domain is reported exactly when some enabled
/// registration enables it and the enabled registrations enable it more than once in all.
pub proof fn lemma_one_conflict_per_shared_domain(rs: Seq<RegistrationView>)
    ensures
        strictly_sorted(conflict_domains(rs)),
        forall|d: Seq<char>| #[trigger] conflict_domains(rs).contains(d) <==> (all_enabled_hosts(rs).contains(d)
            && owner_paths(rs, d).len() > 1),
{
    lemma_enabled_host_list(rs);
    crate::ordered::lemma_sorted_of_list(enabled_host_list(rs));
    let all = sorted_of(all_enabled_hosts(rs));
    let pred = |d: Seq<char>| owner_paths(rs, d).len() > 1;
    lemma_filter_sorted(all, pred);
    assert forall|d: Seq<char>| #[trigger] conflict_domains(rs).contains(d) <==> (all_enabled_hosts(rs).contains(d)
        && owner_paths(rs, d).len() > 1) by {
        assert(all.to_set().contains(d) == all.contains(d));
    }
}

proof fn lemma_count_of_present(names: Seq<Seq<char>>, d: Seq<char>)
    requires
        names.contains(d),
    ensures
        count_of(names, d) >= 1,
    decreases names.len(),
{
    if names.last() != d {
        let k = choose|k: int| 0 <= k < names.len() && names[k] == d;
        assert(names.drop_last()[k] == d);
        lemma_count_of_present(names.drop_last(), d);
    }
}

proof fn lemma_owner_paths_prefix(rs: Seq<RegistrationView>, d: Seq<char>, m: int)
    requires
        0 <= m <= rs.len(),
    ensures
        owner_paths(rs.subrange(0, m), d).len() <= owner_paths(rs, d).len(),
        owner_paths(rs, d).subrange(0, owner_paths(rs.subrange(0, m), d).len() as int) == owner_paths(rs.subrange(0, m), d),
    decreases rs.len(),
{
    if m == rs.len() {
        assert(rs.subrange(0, m) =~= rs);
        assert(owner_paths(rs, d).subrange(0, owner_paths(rs, d).len() as int) =~= owner_paths(rs, d));
    } else {
        assert(rs.drop_last().subrange(0, m) =~= rs.subrange(0, m));
        lemma_owner_paths_prefix(rs.drop_last(), d, m);
        let l = owner_paths(rs.subrange(0, m), d).len() as int;
        assert(owner_paths(rs, d).subrange(0, l) =~= owner_paths(rs.drop_last(), d).subrange(0, l));
    }
}

/// Where registration `i`'s first entry in the owner list of `d` stands, when it enables `d`.
proof fn lemma_owner_entry(rs: Seq<RegistrationView>, d: Seq<char>, i: int)
    requires
        0 <= i < rs.len(),
        rs[i].enabled,
        enabled_names(rs[i].domains).contains(d),
    ensures
        owner_paths(rs.subrange(0, i), d).len() < owner_paths(rs.subrange(0, i + 1), d).len(),
        owner_paths(rs.subrange(0, i + 1), d).len() <= owner_paths(rs, d).len(),
        owner_paths(rs, d)[owner_paths(rs.subrange(0, i), d).len() as int] == rs[i].path,
{
    let pre = rs.subrange(0, i + 1);
    assert(pre.drop_last() =~= rs.subrange(0, i));
    assert(pre.last() == rs[i]);
    lemma_count_of_present(enabled_names(rs[i].domains), d);
    lemma_owner_paths_prefix(rs, d, i + 1);
    let l = owner_paths(rs.subrange(0, i), d).len() as int;
    assert(owner_paths(pre, d)[l] == rs[i].path);
    assert(owner_paths(rs, d).subrange(0, owner_paths(pre, d).len() as int)[l] == owner_paths(rs, d)[l]);
}

proof fn lemma_enabled_host_in_all(rs: Seq<RegistrationView>, i: int, d: Seq<char>)
    requires
        0 <= i < rs.len(),
        rs[i].enabled,
        enabled_names(rs[i].domains).contains(d),
    ensures
        all_enabled_hosts(rs).contains(d),
    decreases rs.len(),
{
    if i == rs.len() - 1 {
        assert(rs.last() == rs[i]);
        assert(enabled_hosts(rs.last()).contains(d));
    } else {
        assert(rs.drop_last()[i] == rs[i]);
        lemma_enabled_host_in_all(rs.drop_last(), i, d);
    }
}

/// Two enabled registrations that both enable domain `d` conflict on it: `d` is among the
/// reported conflict domains, and its owner list names both registrations' Caddyfiles, the
/// earlier one first.
pub proof fn lemma_shared_domain_conflicts(rs: Seq<RegistrationView>, i: int, j: int, d: Seq<char>)
    requires
        0 <= i < j < rs.len(),
        rs[i].enabled,
        rs[j].enabled,
        enabled_names(rs[i].domains).contains(d),
        enabled_names(rs[j].domains).contains(d),
    ensures
        conflict_domains(rs).contains(d),
        exists|a: int, b: int| 0 <= a < b < owner_paths(rs, d).len() && owner_paths(rs, d)[a] == rs[i].path && owner_paths(rs, d)[b]
            == rs[j].path,
{
    lemma_owner_entry(rs, d, i);
    lemma_owner_entry(rs, d, j);
    lemma_owner_paths_prefix(rs.subrange(0, j), d, i + 1);
    assert(rs.subrange(0, j).subrange(0, i + 1) =~= rs.subrange(0, i + 1));
    let a = owner_paths(rs.subrange(0, i), d).len() as int;
    let b = owner_paths(rs.subrange(0, j), d).len() as int;
    assert(a < b);
    assert(owner_paths(rs, d).len() > 1);
    lemma_enabled_host_in_all(rs, i, d);
    lemma_one_conflict_per_shared_domain(rs);
}

proof fn lemma_filter_sorted(s: Seq<Seq<char>>, pred: spec_fn(Seq<char>) -> bool)
    requires
        strictly_sorted(s),
    ensures
        strictly_sorted(s.filter(pred)),
        forall|x: Seq<char>| #[trigger] s.filter(pred).contains(x) <==> (s.contains(x) && pred(x)),
    decreases s.len(),
{
    reveal(Seq::filter);
    if s.len() > 0 {
        let rest = s.drop_last();
        assert(strictly_sorted(rest)) by {
            assert forall|i: int, j: int| 0 <= i < j < rest.len() implies lex_lt(#[trigger] rest[i], #[trigger] rest[j]) by {
                assert(rest[i] == s[i] && rest[j] == s[j]);
            }
        }
        lemma_filter_sorted(rest, pred);
        let fr = rest.filter(pred);
        assert forall|x: Seq<char>| s.contains(x) <==> (rest.contains(x) || x == s.last()) by {
            if s.contains(x) {
                let k = choose|k: int| 0 <= k < s.len() && s[k] == x;
                if k < s.len() - 1 {
                    assert(rest[k] == x);
                }
            }
            if rest.contains(x) {
                let k = choose|k: int| 0 <= k < rest.len() && rest[k] == x;
                assert(s[k] == x);
            }
            if x == s.last() {
                assert(s[s.len() - 1] == x);
            }
        }
        if pred(s.last()) {
            let f = fr.push(s.last());
            assert(s.filter(pred) == f);
            assert forall|i: int, j: int| 0 <= i < j < f.len() implies lex_lt(#[trigger] f[i], #[trigger] f[j]) by {
                if j < fr.len() {
                    assert(f[i] == fr[i] && f[j] == fr[j]);
                } else {
                    assert(f[i] == fr[i]);
                    assert(fr.contains(fr[i]));
                    assert(rest.contains(fr[i]));
                    let k = choose|k: int| 0 <= k < rest.len() && rest[k] == fr[i];
                    assert(s[k] == fr[i]);
                    assert(lex_lt(s[k], s[s.len() - 1]));
                }
            }
            assert forall|x: Seq<char>| #[trigger] f.contains(x) <==> (fr.contains(x) || x == s.last()) by {
                if f.contains(x) {
                    let k = choose|k: int| 0 <= k < f.len() && f[k] == x;
                    if k < fr.len() {
                        assert(fr[k] == x);
                    }
                }
                if fr.contains(x) {
                    let k = choose|k: int| 0 <= k < fr.len() && fr[k] == x;
                    assert(f[k] == x);
                }
                if x == s.last() {
                    assert(f[fr.len() as int] == x);
                }
            }
        } else {
            assert(s.filter(pred) == fr);
        }
    }
}

} // verus!
