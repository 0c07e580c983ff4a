//! What one IPC connection owns: the registrations it made, each with its shim session
//! nonce, and the mutations it has under way. When the connection closes, no new mutation
//! may begin, and its registrations are handed over only once the running ones finished.

use vstd::prelude::*;
use crate::iis_metadata::{entry_lookup, lemma_lookup_at};
use crate::ordered::{lex_lt, text_lt, text_eq, lemma_lex_total, lemma_lex_transitive, lemma_lex_irreflexive};

verus! {

/// The registrations and mutations of one connection.
#[derive(Debug)]
pub struct ConnectionOwnership {
    by_registration_id: Vec<(String, String)>,
    active_mutations: usize,
    disconnected: bool,
}

/// The views of registration and nonce pairs.
pub open spec fn pairs_view(s: Seq<(String, String)>) -> Seq<(Seq<char>, Seq<char>)> {
    s.map_values(|p: (String, String)| (p.0@, p.1@))
}

impl ConnectionOwnership {
    /// The owned registrations with their nonces, in ascending registration order.
    pub closed spec fn entries(&self) -> Seq<(Seq<char>, Seq<char>)> {
        pairs_view(self.by_registration_id@)
    }

    /// The nonce kept for a registration, if the connection owns it.
    pub open spec fn nonce_of(&self, registration_id: Seq<char>) -> Option<Seq<char>> {
        entry_lookup(self.entries(), registration_id)
    }

    /// The mutations under way.
    pub closed spec fn active(&self) -> nat {
        self.active_mutations as nat
    }

    /// Whether the connection has closed.
    pub closed spec fn is_disconnected(&self) -> bool {
        self.disconnected
    }

    /// The registrations are strictly ascending.
    pub open spec fn well_formed(&self) -> bool {
        forall|a: int, b: int| 0 <= a < b < self.entries().len() ==> lex_lt(#[trigger] self.entries()[a].0, #[trigger] self.entries()[b].0)
    }

    /// An open connection that owns nothing.
    pub fn new() -> (r: ConnectionOwnership)
        ensures
            r.well_formed(),
            r.entries().len() == 0,
            r.active() == 0,
            !r.is_disconnected(),
    {
        ConnectionOwnership { by_registration_id: Vec::new(), active_mutations: 0, disconnected: false }
    }

    /// Starts a mutation, unless the connection has closed; whether it started.
    pub fn begin_mutation(&mut self) -> (r: bool)
        requires
            old(self).active() < usize::MAX,
        ensures
            r == !old(self).is_disconnected(),
            final(self).active() == if r { old(self).active() + 1 } else { old(self).active() },
            final(self).is_disconnected() == old(self).is_disconnected(),
            final(self).entries() == old(self).entries(),
    {
        if self.disconnected {
            return false;
        }
        self.active_mutations = self.active_mutations + 1;
        true
    }

    /// Ends a mutation; whether it was the last one a closed connection waited for.
    pub fn end_mutation(&mut self) -> (r: bool)
        requires
            old(self).active() > 0,
        ensures
            final(self).active() == old(self).active() - 1,
            r == (old(self).is_disconnected() && final(self).active() == 0),
            final(self).is_disconnected() == old(self).is_disconnected(),
            final(self).entries() == old(self).entries(),
    {
        self.active_mutations = self.active_mutations - 1;
        self.disconnected && self.active_mutations == 0
    }

    /// Marks the connection closed: no mutation begins after this.
    pub fn disconnect(&mut self)
        ensures
            final(self).is_disconnected(),
            final(self).active() == old(self).active(),
            final(self).entries() == old(self).entries(),
    {
        self.disconnected = true;
    }

    fn position(&self, key: &str) -> (r: usize)
        requires
            self.well_formed(),
        ensures
            r <= self.entries().len(),
            forall|i: int| 0 <= i < r ==> lex_lt(#[trigger] self.entries()[i].0, key@),
            r < self.entries().len() ==> !lex_lt(self.entries()[r as int].0, key@),
    {
        let mut j: usize = 0;
        while j < self.by_registration_id.len() && text_lt(self.by_registration_id[j].0.as_str(), key)
            invariant
                j <= self.by_registration_id.len(),
                self.entries() == pairs_view(self.by_registration_id@),
                forall|i: int| 0 <= i < j ==> lex_lt(#[trigger] self.entries()[i].0, key@),
            decreases self.by_registration_id.len() - j,
        {
            j = j + 1;
        }
        j
    }

    /// Records that the connection owns `registration_id` under `nonce`, replacing an earlier
    /// nonce for it.
    pub fn insert(&mut self, registration_id: String, nonce: String)
        requires
            old(self).well_formed(),
        ensures
            final(self).well_formed(),
            final(self).nonce_of(registration_id@) == Some(nonce@),
            forall|k: Seq<char>| k != registration_id@ ==> #[trigger] final(self).nonce_of(k) == old(self).nonce_of(k),
            final(self).active() == old(self).active(),
            final(self).is_disconnected() == old(self).is_disconnected(),
    {
        let ghost s0 = self.entries();
        let ghost kv = registration_id@;
        let ghost nv = nonce@;
        let j = self.position(registration_id.as_str());
        if j < self.by_registration_id.len() && text_eq(self.by_registration_id[j].0.as_str(), registration_id.as_str()) {
            proof {
                lemma_lookup_at(s0, j as int, kv);
            }
            let _replaced = self.by_registration_id.remove(j);
            self.by_registration_id.insert(j, (registration_id, nonce));
            proof {
                let s1 = self.entries();
                assert(s1 =~= s0.update(j as int, (kv, nv)));
                lemma_lookup_at(s1, j as int, kv);
                assert forall|k: Seq<char>| k != kv implies #[trigger] entry_lookup(s1, k) == entry_lookup(s0, k) by {
                    if exists|i: int| 0 <= i < s0.len() && (#[trigger] s0[i]).0 == k {
                        let i = choose|i: int| 0 <= i < s0.len() && (#[trigger] s0[i]).0 == k;
                        lemma_lookup_at(s0, i, k);
                        lemma_lookup_at(s1, i, k);
                    } else {
                        assert(!exists|i: int| 0 <= i < s1.len() && (#[trigger] s1[i]).0 == k) by {
                            if exists|i: int| 0 <= i < s1.len() && (#[trigger] s1[i]).0 == k {
                                let i = choose|i: int| 0 <= i < s1.len() && (#[trigger] s1[i]).0 == k;
                                assert(s0[i].0 == k);
                            }
                        }
                    }
                }
            }
        } else {
            proof {
                if j < s0.len() {
                    lemma_lex_total(s0[j as int].0, kv);
                }
            }
            self.by_registration_id.insert(j, (registration_id, nonce));
            proof {
                let s1 = self.entries();
                assert(s1 =~= s0.insert(j as int, (kv, nv)));
                assert forall|a: int, b: int| 0 <= a < b < s1.len() implies lex_lt(#[trigger] s1[a].0, #[trigger] s1[b].0) by {
                    if b < j {
                    } else if a < j && b == j {
                    } else if a < j && b > j {
                        assert(s1[b] == s0[b - 1]);
                    } else if a == j {
                        assert(s1[b] == s0[b - 1]);
                        if b - 1 > j {
                            lemma_lex_transitive(kv, s0[j as int].0, s0[b - 1].0);
                        }
                    } else {
                        assert(s1[a] == s0[a - 1]);
                        assert(s1[b] == s0[b - 1]);
                    }
                }
                lemma_lookup_at(s1, j as int, kv);
                assert forall|k: Seq<char>| k != kv implies #[trigger] entry_lookup(s1, k) == entry_lookup(s0, k) by {
                    if exists|i: int| 0 <= i < s0.len() && (#[trigger] s0[i]).0 == k {
                        let i = choose|i: int| 0 <= i < s0.len() && (#[trigger] s0[i]).0 == k;
                        lemma_lookup_at(s0, i, k);
                        if i < j {
                            lemma_lookup_at(s1, i, k);
                        } else {
                            assert(s1[i + 1] == s0[i]);
                            lemma_lookup_at(s1, i + 1, k);
                        }
                    } else {
                        assert(!exists|i: int| 0 <= i < s1.len() && (#[trigger] s1[i]).0 == k) by {
                            if exists|i: int| 0 <= i < s1.len() && (#[trigger] s1[i]).0 == k {
                                let i = choose|i: int| 0 <= i < s1.len() && (#[trigger] s1[i]).0 == k;
                                if i < j {
                                    assert(s0[i].0 == k);
                                } else if i > j {
                                    assert(s0[i - 1].0 == k);
                                }
                            }
                        }
                    }
                }
            }
        }
    }

    /// Forgets the connection's ownership of `registration_id`.
    pub fn remove(&mut self, registration_id: &str)
        requires
            old(self).well_formed(),
        ensures
            final(self).well_formed(),
            final(self).nonce_of(registration_id@) is None,
            forall|k: Seq<char>| k != registration_id@ ==> #[trigger] final(self).nonce_of(k) == old(self).nonce_of(k),
            final(self).active() == old(self).active(),
            final(self).is_disconnected() == old(self).is_disconnected(),
    {
        let ghost s0 = self.entries();
        let ghost kv = registration_id@;
        let j = self.position(registration_id);
        if j < self.by_registration_id.len() && text_eq(self.by_registration_id[j].0.as_str(), registration_id) {
            let _removed = self.by_registration_id.remove(j);
            proof {
                let s1 = self.entries();
                assert(s1 =~= s0.remove(j as int));
                assert forall|a: int, b: int| 0 <= a < b < s1.len() implies lex_lt(#[trigger] s1[a].0, #[trigger] s1[b].0) by {
                    if b < j {
                    } else if a < j {
                        assert(s1[b] == s0[b + 1]);
                    } else {
                        assert(s1[a] == s0[a + 1]);
                        assert(s1[b] == s0[b + 1]);
                    }
                }
                assert(!exists|i: int| 0 <= i < s1.len() && (#[trigger] s1[i]).0 == kv) by {
                    if exists|i: int| 0 <= i < s1.len() && (#[trigger] s1[i]).0 == kv {
                        let i = choose|i: int| 0 <= i < s1.len() && (#[trigger] s1[i]).0 == kv;
                        lemma_lex_irreflexive(kv);
                        if i < j {
                            assert(s1[i] == s0[i]);
                        } else {
                            assert(s1[i] == s0[i + 1]);
                        }
                    }
                }
                assert forall|k: Seq<char>| k != kv implies #[trigger] entry_lookup(s1, k) == entry_lookup(s0, k) by {
                    if exists|i: int| 0 <= i < s0.len() && (#[trigger] s0[i]).0 == k {
                        let i = choose|i: int| 0 <= i < s0.len() && (#[trigger] s0[i]).0 == k;
                        lemma_lookup_at(s0, i, k);
                        if i < j {
                            lemma_lookup_at(s1, i, k);
                        } else {
                            assert(i != j);
                            assert(s1[i - 1] == s0[i]);
                            lemma_lookup_at(s1, i - 1, k);
                        }
                    } else {
                        assert(!exists|i: int| 0 <= i < s1.len() && (#[trigger] s1[i]).0 == k) by {
                            if exists|i: int| 0 <= i < s1.len() && (#[trigger] s1[i]).0 == k {
                                let i = choose|i: int| 0 <= i < s1.len() && (#[trigger] s1[i]).0 == k;
                                if i < j {
                                    assert(s0[i].0 == k);
                                } else {
                                    assert(s0[i + 1].0 == k);
                                }
                            }
                        }
                    }
                }
            }
        } else {
            proof {
                if j < s0.len() {
                    lemma_lex_total(s0[j as int].0, kv);
                }
                if exists|i: int| 0 <= i < s0.len() && (#[trigger] s0[i]).0 == kv {
                    let i = choose|i: int| 0 <= i < s0.len() && (#[trigger] s0[i]).0 == kv;
                    lemma_lex_irreflexive(kv);
                    if i > j {
                        assert(lex_lt(s0[j as int].0, s0[i].0));
                        lemma_lex_transitive(kv, s0[j as int].0, s0[i].0);
                    }
                }
            }
        }
    }

    /// Hands over every owned registration, in ascending order, once no mutation is under
    /// way, and keeps nothing; while one is, hands over nothing and changes nothing.
    pub fn take_entries_if_idle(&mut self) -> (r: Option<Vec<(String, String)>>)
        ensures
            old(self).active() == 0 ==> (r matches Some(v) && pairs_view(v@) == old(self).entries()
                && final(self).entries().len() == 0),
            old(self).active() > 0 ==> r is None && final(self).entries() == old(self).entries(),
            final(self).active() == old(self).active(),
            final(self).is_disconnected() == old(self).is_disconnected(),
            old(self).well_formed() ==> final(self).well_formed(),
    {
        if self.active_mutations > 0 {
            return None;
        }
        let mut taken: Vec<(String, String)> = Vec::new();
        std::mem::swap(&mut taken, &mut self.by_registration_id);
        Some(taken)
    }
}

} // verus!
