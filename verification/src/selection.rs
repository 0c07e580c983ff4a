//! Choosing the one registered domain that a command names.

use vstd::prelude::*;
use crate::caddy_image::{join_names, names_view};
use crate::context::OperatorContext;
use crate::data_model::{Snapshot, SnapshotEntrypoint};
use crate::domain::{canonical_domain, canonicalize_domain};
use crate::ipc_errors::opt_view;
use crate::operator::{plain_error, AppExit, DomainSelector, OperatorError};
use crate::text::push_str;

verus! {

/// The domain a command acts on: the entrypoint that registers it and its canonical name.
#[derive(Debug, Clone, PartialEq, Eq)]
pub struct SelectedDomain {
    pub registration_id: String,
    pub canonical_domain: String,
}

/// Why a domain could not be chosen: no entrypoint (or not the one asked for) registers it,
/// or several do.
#[derive(Debug, Clone, PartialEq, Eq)]
pub enum DomainResolveError {
    NotFound { canonical_domain: String, requested_registration: Option<String> },
    Ambiguous { canonical_domain: String, matches: Vec<String> },
}

/// Whether entrypoint `e` registers the canonical domain `canonical`, and is the one asked
/// for when one is.
pub open spec fn registers(e: SnapshotEntrypoint, canonical: Seq<char>, registration: Option<Seq<char>>) -> bool {
    &&& exists|j: int| 0 <= j < e.domains@.len() && #[trigger] e.domains@[j].canonical_domain@ == canonical
    &&& (registration matches Some(id) ==> e.registration_id@ == id)
}

/// The identifiers of the entrypoints that register the domain, in snapshot order.
pub open spec fn matching_registrations(
    regs: Seq<SnapshotEntrypoint>,
    canonical: Seq<char>,
    registration: Option<Seq<char>>,
) -> Seq<Seq<char>>
    decreases regs.len(),
{
    if regs.len() == 0 {
        Seq::empty()
    } else if registers(regs.last(), canonical, registration) {
        matching_registrations(regs.drop_last(), canonical, registration).push(regs.last().registration_id@)
    } else {
        matching_registrations(regs.drop_last(), canonical, registration)
    }
}

/// The outcome of choosing a domain, as plain values.
pub enum ResolvedView {
    Selected(Seq<char>, Seq<char>),
    NotFound(Seq<char>, Option<Seq<char>>),
    Ambiguous(Seq<char>, Seq<Seq<char>>),
}

/// Choosing the domain: by its canonical name, among the entrypoints asked for; exactly one
/// match is chosen, none is not found, several are ambiguous.
pub open spec fn resolution(regs: Seq<SnapshotEntrypoint>, domain: Seq<char>, registration: Option<Seq<char>>) -> ResolvedView {
    let canonical = canonical_domain(domain);
    let m = matching_registrations(regs, canonical, registration);
    if m.len() == 0 {
        ResolvedView::NotFound(canonical, registration)
    } else if m.len() == 1 {
        ResolvedView::Selected(m[0], canonical)
    } else {
        ResolvedView::Ambiguous(canonical, m)
    }
}

/// The view of a resolution's result.
pub open spec fn resolved_view(r: Result<SelectedDomain, DomainResolveError>) -> ResolvedView {
    match r {
        Ok(s) => ResolvedView::Selected(s.registration_id@, s.canonical_domain@),
        Err(DomainResolveError::NotFound { canonical_domain, requested_registration }) => ResolvedView::NotFound(
            canonical_domain@,
            opt_view(requested_registration),
        ),
        Err(DomainResolveError::Ambiguous { canonical_domain, matches }) => ResolvedView::Ambiguous(
            canonical_domain@,
            names_view(matches@),
        ),
    }
}

fn registers_domain(e: &SnapshotEntrypoint, canonical: &String, registration: Option<&str>) -> (r: bool)
    ensures
        r == registers(*e, canonical@, match registration {
            Some(id) => Some(id@),
            None => None,
        }),
{
    let asked = match registration {
        Some(id) => crate::ordered::text_eq(e.registration_id.as_str(), id),
        None => true,
    };
    if !asked {
        return false;
    }
    let mut j: usize = 0;
    while j < e.domains.len()
        invariant
            j <= e.domains@.len(),
            forall|k: int| 0 <= k < j ==> e.domains@[k].canonical_domain@ != canonical@,
            asked == (registration matches Some(id) ==> e.registration_id@ == id@),
            asked,
        decreases e.domains.len() - j,
    {
        if e.domains[j].canonical_domain == *canonical {
            return true;
        }
        j = j + 1;
    }
    false
}

/// Finds the one entrypoint that registers `domain` (compared by canonical name), among
/// `registration` alone when it is given.
pub fn resolve_domain(snapshot: &Snapshot, domain: &str, registration: Option<&str>) -> (r: Result<
    SelectedDomain,
    DomainResolveError,
>)
    ensures
        resolved_view(r) == resolution(snapshot.registrations@, domain@, match registration {
            Some(id) => Some(id@),
            None => None,
        }),
{
    let ghost wanted = match registration {
        Some(id) => Some(id@),
        None => None,
    };
    let canonical = canonicalize_domain(domain);
    let regs = &snapshot.registrations;
    let mut matches: Vec<String> = Vec::new();
    let mut i: usize = 0;
    while i < regs.len()
        invariant
            i <= regs@.len(),
            regs@ == snapshot.registrations@,
            canonical@ == canonical_domain(domain@),
            wanted == match registration {
                Some(id) => Some(id@),
                None => None,
            },
            names_view(matches@) == matching_registrations(regs@.subrange(0, i as int), canonical@, wanted),
        decreases regs.len() - i,
    {
        assert(regs@.subrange(0, i + 1).drop_last() =~= regs@.subrange(0, i as int));
        if registers_domain(&regs[i], &canonical, registration) {
            matches.push(regs[i].registration_id.clone());
            assert(names_view(matches@) =~= matching_registrations(regs@.subrange(0, i as int), canonical@, wanted).push(
                regs@[i as int].registration_id@,
            ));
        }
        i = i + 1;
    }
    assert(regs@.subrange(0, regs@.len() as int) =~= regs@);
    if matches.len() == 0 {
        let requested_registration = match registration {
            Some(id) => Some(id.to_owned()),
            None => None,
        };
        Err(DomainResolveError::NotFound { canonical_domain: canonical, requested_registration })
    } else if matches.len() == 1 {
        let registration_id = matches[0].clone();
        Ok(SelectedDomain { registration_id, canonical_domain: canonical })
    } else {
        Err(DomainResolveError::Ambiguous { canonical_domain: canonical, matches })
    }
}

fn join_ids(ids: &Vec<String>) -> (r: String)
    ensures
        r@ == join_names(names_view(ids@)),
{
    let mut out = String::new();
    let mut i: usize = 0;
    while i < ids.len()
        invariant
            i <= ids@.len(),
            out@ == join_names(names_view(ids@.subrange(0, i as int))),
        decreases ids.len() - i,
    {
        let ghost prefix = names_view(ids@.subrange(0, i as int));
        let ghost next = names_view(ids@.subrange(0, i + 1));
        assert(next.drop_last() =~= prefix);
        assert(next.last() == ids@[i as int]@);
        if i > 0 {
            push_str(&mut out, ", ");
        } else {
            assert(prefix =~= Seq::<Seq<char>>::empty());
            assert(next.len() == 1);
        }
        push_str(&mut out, ids[i].as_str());
        i = i + 1;
    }
    assert(ids@.subrange(0, ids@.len() as int) =~= ids@);
    out
}

/// The message for a domain that no entrypoint (or not the one asked for) registers.
pub open spec fn not_found_message(canonical: Seq<char>, registration: Option<Seq<char>>) -> Seq<char> {
    match registration {
        Some(id) => "Domain `"@ + canonical + "` was not found under entrypoint `"@ + id + "`."@,
        None => "Domain `"@ + canonical + "` was not found."@,
    }
}

/// The message for a domain that several entrypoints register.
pub open spec fn ambiguous_message(canonical: Seq<char>, matches: Seq<Seq<char>>) -> Seq<char> {
    "Domain `"@ + canonical + "` matches multiple entrypoints: "@ + join_names(matches) + "."@
}

/// What a failed choice of domain tells the operator.
pub open spec fn selection_failure(e: OperatorError, command: &'static str, failure: ResolvedView) -> bool {
    match failure {
        ResolvedView::NotFound(canonical, registration) => plain_error(
            e,
            command,
            AppExit::TargetNotFound,
            not_found_message(canonical, registration),
            Some("Run `cadder domains list` to inspect the current domain registrations."@),
        ),
        ResolvedView::Ambiguous(canonical, matches) => plain_error(
            e,
            command,
            AppExit::ConflictOrRejected,
            ambiguous_message(canonical, matches),
            Some("Run `cadder projects list`, then retry with the exact Caddyfile path."@),
        ),
        ResolvedView::Selected(_, _) => false,
    }
}

impl OperatorContext {
    /// The domain that `selector` names in `snapshot`, or the operator error that explains
    /// why there is not exactly one.
    pub fn select_domain(&self, command: &'static str, snapshot: &Snapshot, selector: &DomainSelector) -> (r: Result<
        SelectedDomain,
        OperatorError,
    >)
        ensures
            ({
                let res = resolution(snapshot.registrations@, selector.domain@, opt_view(selector.registration));
                match r {
                    Ok(s) => res == ResolvedView::Selected(s.registration_id@, s.canonical_domain@),
                    Err(e) => selection_failure(e, command, res),
                }
            }),
    {
        let registration = match &selector.registration {
            Some(id) => Some(id.as_str()),
            None => None,
        };
        match resolve_domain(snapshot, selector.domain.as_str(), registration) {
            Ok(selected) => Ok(selected),
            Err(DomainResolveError::NotFound { canonical_domain, requested_registration }) => {
                let mut message = "Domain `".to_owned();
                push_str(&mut message, canonical_domain.as_str());
                match requested_registration {
                    Some(id) => {
                        push_str(&mut message, "` was not found under entrypoint `");
                        push_str(&mut message, id.as_str());
                        push_str(&mut message, "`.");
                    },
                    None => {
                        push_str(&mut message, "` was not found.");
                    },
                }
                Err(
                    OperatorError::target_not_found(
                        command,
                        message,
                        Some("Run `cadder domains list` to inspect the current domain registrations.".to_owned()),
                    ),
                )
            },
            Err(DomainResolveError::Ambiguous { canonical_domain, matches }) => {
                let mut message = "Domain `".to_owned();
                push_str(&mut message, canonical_domain.as_str());
                push_str(&mut message, "` matches multiple entrypoints: ");
                push_str(&mut message, join_ids(&matches).as_str());
                push_str(&mut message, ".");
                Err(
                    OperatorError::conflict_or_rejected(
                        command,
                        message,
                        Some("Run `cadder projects list`, then retry with the exact Caddyfile path.".to_owned()),
                    ),
                )
            },
        }
    }
}

} // verus!
