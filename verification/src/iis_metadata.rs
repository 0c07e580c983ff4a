//! What the daemon remembers of each IIS binding it handed off: enough to restore the
//! binding later, keyed by the binding's identity and kept in key order.

use vstd::prelude::*;
use crate::iis::{IisBindingRecord, BindingView};
use crate::ipc_errors::opt_view;
use crate::ordered::{lex_lt, text_lt, text_eq, lemma_lex_total, lemma_lex_transitive, lemma_lex_irreflexive};

verus! {

/// A handed-off binding: the binding as it was, the domain it served, the registration
/// that replaced it and the binding that now forwards to Caddy.
#[derive(Debug, Clone)]
pub struct IisRestoreRecord {
    pub binding: IisBindingRecord,
    pub domain_key: String,
    pub registration_id: Option<String>,
    pub backend_binding: Option<IisBindingRecord>,
}

pub struct RestoreView {
    pub binding: BindingView,
    pub domain_key: Seq<char>,
    pub registration_id: Option<Seq<char>>,
    pub backend_binding: Option<BindingView>,
}

impl View for IisRestoreRecord {
    type V = RestoreView;

    open spec fn view(&self) -> RestoreView {
        RestoreView {
            binding: self.binding@,
            domain_key: self.domain_key@,
            registration_id: opt_view(self.registration_id),
            backend_binding: match self.backend_binding {
                Some(b) => Some(b@),
                None => None,
            },
        }
    }
}

/// One entry of the metadata: a binding identity and its restore record.
#[derive(Debug, Clone)]
pub struct IisHandoff {
    pub binding_id: String,
    pub record: IisRestoreRecord,
}

/// The handed-off bindings by identity.
#[derive(Debug, Clone)]
pub struct IisMetadata {
    handoffs: Vec<IisHandoff>,
}

/// The entries as identity and record view, in order.
pub open spec fn handoff_entries(s: Seq<IisHandoff>) -> Seq<(Seq<char>, RestoreView)> {
    s.map_values(|e: IisHandoff| (e.binding_id@, e.record@))
}

/// The record kept for `key` in a list of entries, if any.
pub open spec fn entry_lookup<V>(s: Seq<(Seq<char>, V)>, key: Seq<char>) -> Option<V> {
    if exists|i: int| 0 <= i < s.len() && (#[trigger] s[i]).0 == key {
        Some(s[choose|i: int| 0 <= i < s.len() && (#[trigger] s[i]).0 == key].1)
    } else {
        None
    }
}

pub(crate) proof fn lemma_lookup_at<V>(s: Seq<(Seq<char>, V)>, i: int, key: Seq<char>)
    requires
        0 <= i < s.len(),
        s[i].0 == key,
        forall|a: int, b: int| 0 <= a < b < s.len() ==> lex_lt(#[trigger] s[a].0, #[trigger] s[b].0),
    ensures
        entry_lookup(s, key) == Some(s[i].1),
{
    let c = choose|j: int| 0 <= j < s.len() && (#[trigger] s[j]).0 == key;
    assert(0 <= c < s.len() && s[c].0 == key);
    lemma_lex_irreflexive(key);
    if c < i {
        assert(lex_lt(s[c].0, s[i].0));
    } else if c > i {
        assert(lex_lt(s[i].0, s[c].0));
    }
    assert(c == i);
}

impl IisMetadata {
    /// The entries in ascending identity order.
    pub closed spec fn entries(&self) -> Seq<(Seq<char>, RestoreView)> {
        handoff_entries(self.handoffs@)
    }

    /// The record kept for `key`, if any.
    pub open spec fn lookup(&self, key: Seq<char>) -> Option<RestoreView> {
        entry_lookup(self.entries(), key)
    }

    /// The identities are strictly ascending.
    pub open spec fn well_formed(&self) -> bool {
        forall|a: int, b: int| 0 <= a < b < self.entries().len() ==> lex_lt(#[trigger] self.entries()[a].0, #[trigger] self.entries()[b].0)
    }

    /// No handed-off bindings.
    pub fn new() -> (r: IisMetadata)
        ensures
            r.well_formed(),
            r.entries().len() == 0,
    {
        IisMetadata { handoffs: Vec::new() }
    }

    /// The number of handed-off bindings.
    pub fn len(&self) -> (r: usize)
        ensures
            r == self.entries().len(),
    {
        self.handoffs.len()
    }

    /// Whether no binding is handed off.
    pub fn is_empty(&self) -> (r: bool)
        ensures
            r == (self.entries().len() == 0),
    {
        self.handoffs.len() == 0
    }

    /// The first position whose identity does not precede `key`.
    fn position(&self, key: &str) -> (r: usize)
        requires
            self.well_formed(),
        ensures
            r <= self.entries().len(),
            forall|i: int| 0 <= i < r ==> lex_lt(#[trigger] self.entries()[i].0, key@),
            r < self.entries().len() ==> !lex_lt(self.entries()[r as int].0, key@),
    {
        let mut j: usize = 0;
        while j < self.handoffs.len() && text_lt(self.handoffs[j].binding_id.as_str(), key)
            invariant
                j <= self.handoffs.len(),
                self.entries() == handoff_entries(self.handoffs@),
                forall|i: int| 0 <= i < j ==> lex_lt(#[trigger] self.entries()[i].0, key@),
            decreases self.handoffs.len() - j,
        {
            j = j + 1;
        }
        j
    }

    /// The record kept for `key`, if any.
    pub fn get(&self, key: &str) -> (r: Option<&IisRestoreRecord>)
        requires
            self.well_formed(),
        ensures
            match r {
                Some(rec) => self.lookup(key@) == Some(rec@),
                None => self.lookup(key@) is None,
            },
    {
        let j = self.position(key);
        let ghost s = self.entries();
        if j < self.handoffs.len() && text_eq(self.handoffs[j].binding_id.as_str(), key) {
            proof {
                lemma_lookup_at(s, j as int, key@);
            }
            Some(&self.handoffs[j].record)
        } else {
            proof {
                if exists|i: int| 0 <= i < s.len() && (#[trigger] s[i]).0 == key@ {
                    let i = choose|i: int| 0 <= i < s.len() && (#[trigger] s[i]).0 == key@;
                    lemma_lex_irreflexive(key@);
                    if i > j {
                        lemma_lex_total(s[j as int].0, key@);
                        assert(lex_lt(s[j as int].0, s[i].0));
                    }
                }
            }
            None
        }
    }

    /// Keeps `record` for `key`, replacing and handing back the record kept before.
    pub fn insert(&mut self, key: String, record: IisRestoreRecord) -> (r: Option<IisRestoreRecord>)
        requires
            old(self).well_formed(),
        ensures
            final(self).well_formed(),
            final(self).lookup(key@) == Some(record@),
            forall|k: Seq<char>| k != key@ ==> #[trigger] final(self).lookup(k) == old(self).lookup(k),
            match r {
                Some(prev) => old(self).lookup(key@) == Some(prev@),
                None => old(self).lookup(key@) is None,
            },
    {
        let ghost s0 = self.entries();
        let j = self.position(key.as_str());
        let ghost kv = key@;
        let ghost rv = record@;
        if j < self.handoffs.len() && text_eq(self.handoffs[j].binding_id.as_str(), key.as_str()) {
            proof {
                lemma_lookup_at(s0, j as int, kv);
            }
            let old_entry = self.handoffs.remove(j);
            self.handoffs.insert(j, IisHandoff { binding_id: key, record });
            proof {
                let s1 = self.entries();
                assert(s1 =~= s0.update(j as int, (kv, rv)));
                lemma_lookup_at(s1, j as int, kv);
                assert forall|k: Seq<char>| k != kv implies #[trigger] entry_lookup(s1, k) == entry_lookup(s0, k) by {
                    if exists|i: int| 0 <= i < s0.len() && (#[trigger] s0[i]).0 == k {
                        let i = choose|i: int| 0 <= i < s0.len() && (#[trigger] s0[i]).0 == k;
                        lemma_lookup_at(s0, i, k);
                        lemma_lookup_at(s1, i, k);
                    } else {
                        assert(!exists|i: int| 0 <= i < s1.len() && (#[trigger] s1[i]).0 == k) by {
                            if exists|i: int| 0 <= i < s1.len() && (#[trigger] s1[i]).0 == k {
                                let i = choose|i: int| 0 <= i < s1.len() && (#[trigger] s1[i]).0 == k;
                                assert(s0[i].0 == k);
                            }
                        }
                    }
                }
            }
            Some(old_entry.record)
        } else {
            proof {
                if j < s0.len() {
                    lemma_lex_total(s0[j as int].0, kv);
                }
                if exists|i: int| 0 <= i < s0.len() && (#[trigger] s0[i]).0 == kv {
                    let i = choose|i: int| 0 <= i < s0.len() && (#[trigger] s0[i]).0 == kv;
                    lemma_lex_irreflexive(kv);
                    if i > j {
                        assert(lex_lt(s0[j as int].0, s0[i].0));
                        lemma_lex_transitive(kv, s0[j as int].0, s0[i].0);
                    }
                }
            }
            self.handoffs.insert(j, IisHandoff { binding_id: key, record });
            proof {
                let s1 = self.entries();
                assert(s1 =~= s0.insert(j as int, (kv, rv)));
                assert forall|a: int, b: int| 0 <= a < b < s1.len() implies lex_lt(#[trigger] s1[a].0, #[trigger] s1[b].0) by {
                    if b < j {
                    } else if a < j && b == j {
                    } else if a < j && b > j {
                        assert(s1[b] == s0[b - 1]);
                    } else if a == j {
                        assert(s1[b] == s0[b - 1]);
                        if b - 1 > j {
                            lemma_lex_transitive(kv, s0[j as int].0, s0[b - 1].0);
                        }
                    } else {
                        assert(s1[a] == s0[a - 1]);
                        assert(s1[b] == s0[b - 1]);
                    }
                }
                lemma_lookup_at(s1, j as int, kv);
                assert forall|k: Seq<char>| k != kv implies #[trigger] entry_lookup(s1, k) == entry_lookup(s0, k) by {
                    if exists|i: int| 0 <= i < s0.len() && (#[trigger] s0[i]).0 == k {
                        let i = choose|i: int| 0 <= i < s0.len() && (#[trigger] s0[i]).0 == k;
                        lemma_lookup_at(s0, i, k);
                        if i < j {
                            lemma_lookup_at(s1, i, k);
                        } else {
                            assert(s1[i + 1] == s0[i]);
                            lemma_lookup_at(s1, i + 1, k);
                        }
                    } else {
                        assert(!exists|i: int| 0 <= i < s1.len() && (#[trigger] s1[i]).0 == k) by {
                            if exists|i: int| 0 <= i < s1.len() && (#[trigger] s1[i]).0 == k {
                                let i = choose|i: int| 0 <= i < s1.len() && (#[trigger] s1[i]).0 == k;
                                if i < j {
                                    assert(s0[i].0 == k);
                                } else if i > j {
                                    assert(s0[i - 1].0 == k);
                                }
                            }
                        }
                    }
                }
            }
            None
        }
    }

    /// Forgets the record kept for `key` and hands it back, if there was one.
    pub fn remove(&mut self, key: &str) -> (r: Option<IisRestoreRecord>)
        requires
            old(self).well_formed(),
        ensures
            final(self).well_formed(),
            final(self).lookup(key@) is None,
            forall|k: Seq<char>| k != key@ ==> #[trigger] final(self).lookup(k) == old(self).lookup(k),
            match r {
                Some(prev) => old(self).lookup(key@) == Some(prev@),
                None => old(self).lookup(key@) is None,
            },
    {
        let ghost s0 = self.entries();
        let ghost kv = key@;
        let j = self.position(key);
        if j < self.handoffs.len() && text_eq(self.handoffs[j].binding_id.as_str(), key) {
            proof {
                lemma_lookup_at(s0, j as int, kv);
            }
            let old_entry = self.handoffs.remove(j);
            proof {
                let s1 = self.entries();
                assert(s1 =~= s0.remove(j as int));
                assert forall|a: int, b: int| 0 <= a < b < s1.len() implies lex_lt(#[trigger] s1[a].0, #[trigger] s1[b].0) by {
                    if b < j {
                    } else if a < j {
                        assert(s1[b] == s0[b + 1]);
                    } else {
                        assert(s1[a] == s0[a + 1]);
                        assert(s1[b] == s0[b + 1]);
                    }
                }
                assert(!exists|i: int| 0 <= i < s1.len() && (#[trigger] s1[i]).0 == kv) by {
                    if exists|i: int| 0 <= i < s1.len() && (#[trigger] s1[i]).0 == kv {
                        let i = choose|i: int| 0 <= i < s1.len() && (#[trigger] s1[i]).0 == kv;
                        lemma_lex_irreflexive(kv);
                        if i < j {
                            assert(s1[i] == s0[i]);
                        } else {
                            assert(s1[i] == s0[i + 1]);
                        }
                    }
                }
                assert forall|k: Seq<char>| k != kv implies #[trigger] entry_lookup(s1, k) == entry_lookup(s0, k) by {
                    if exists|i: int| 0 <= i < s0.len() && (#[trigger] s0[i]).0 == k {
                        let i = choose|i: int| 0 <= i < s0.len() && (#[trigger] s0[i]).0 == k;
                        lemma_lookup_at(s0, i, k);
                        if i < j {
                            lemma_lookup_at(s1, i, k);
                        } else {
                            assert(i != j);
                            assert(s1[i - 1] == s0[i]);
                            lemma_lookup_at(s1, i - 1, k);
                        }
                    } else {
                        assert(!exists|i: int| 0 <= i < s1.len() && (#[trigger] s1[i]).0 == k) by {
                            if exists|i: int| 0 <= i < s1.len() && (#[trigger] s1[i]).0 == k {
                                let i = choose|i: int| 0 <= i < s1.len() && (#[trigger] s1[i]).0 == k;
                                if i < j {
                                    assert(s0[i].0 == k);
                                } else {
                                    assert(s0[i + 1].0 == k);
                                }
                            }
                        }
                    }
                }
            }
            Some(old_entry.record)
        } else {
            proof {
                if j < s0.len() {
                    lemma_lex_total(s0[j as int].0, kv);
                }
                if exists|i: int| 0 <= i < s0.len() && (#[trigger] s0[i]).0 == kv {
                    let i = choose|i: int| 0 <= i < s0.len() && (#[trigger] s0[i]).0 == kv;
                    lemma_lex_irreflexive(kv);
                    if i > j {
                        assert(lex_lt(s0[j as int].0, s0[i].0));
                        lemma_lex_transitive(kv, s0[j as int].0, s0[i].0);
                    }
                }
            }
            None
        }
    }

    /// The handed-off bindings, in ascending identity order.
    pub fn snapshot(&self) -> (r: Vec<IisHandoff>)
        ensures
            handoff_entries(r@) == self.entries(),
    {
        let mut out: Vec<IisHandoff> = Vec::new();
        let mut i: usize = 0;
        while i < self.handoffs.len()
            invariant
                i <= self.handoffs.len(),
                self.entries() == handoff_entries(self.handoffs@),
                handoff_entries(out@) == self.entries().subrange(0, i as int),
            decreases self.handoffs.len() - i,
        {
            let e = IisHandoff {
                binding_id: self.handoffs[i].binding_id.clone(),
                record: self.handoffs[i].record.duplicate(),
            };
            let ghost ev = (e.binding_id@, e.record@);
            let ghost prev = out@;
            out.push(e);
            proof {
                assert(ev == self.entries()[i as int]);
                assert(handoff_entries(out@) =~= handoff_entries(prev).push(ev));
                assert(self.entries().subrange(0, i + 1) =~= self.entries().subrange(0, i as int).push(ev));
            }
            i = i + 1;
        }
        proof {
            assert(self.entries().subrange(0, self.entries().len() as int) =~= self.entries());
        }
        out
    }
}

impl IisRestoreRecord {
    /// A copy of the record.
    pub fn duplicate(&self) -> (r: IisRestoreRecord)
        ensures
            r@ == self@,
    {
        IisRestoreRecord {
            binding: self.binding.duplicate(),
            domain_key: self.domain_key.clone(),
            registration_id: match &self.registration_id {
                Some(v) => Some(v.clone()),
                None => None,
            },
            backend_binding: match &self.backend_binding {
                Some(b) => Some(b.duplicate()),
                None => None,
            },
        }
    }
}

} // verus!
