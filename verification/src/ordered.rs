//! Lexicographic order on text and strictly ordered lists of names, the shape in which the
//! daemon keeps sets of domains and registration identifiers.

use vstd::prelude::*;
use crate::text::to_chars;
use crate::logs::strings_view;

verus! {

/// Lexicographic order by code point, as `str` and `String` compare.
pub open spec fn lex_lt(a: Seq<char>, b: Seq<char>) -> bool
    decreases a.len(),
{
    if b.len() == 0 {
        false
    } else if a.len() == 0 {
        true
    } else if a[0] != b[0] {
        a[0] < b[0]
    } else {
        lex_lt(a.drop_first(), b.drop_first())
    }
}

/// No text precedes itself.
pub proof fn lemma_lex_irreflexive(a: Seq<char>)
    ensures
        !lex_lt(a, a),
    decreases a.len(),
{
    if a.len() > 0 {
        lemma_lex_irreflexive(a.drop_first());
    }
}

/// The order is transitive.
pub proof fn lemma_lex_transitive(a: Seq<char>, b: Seq<char>, c: Seq<char>)
    requires
        lex_lt(a, b),
        lex_lt(b, c),
    ensures
        lex_lt(a, c),
    decreases a.len(),
{
    if a.len() > 0 && b.len() > 0 && c.len() > 0 && a[0] == b[0] && b[0] == c[0] {
        lemma_lex_transitive(a.drop_first(), b.drop_first(), c.drop_first());
    }
}

/// Of two different texts, one precedes the other, and not both.
pub proof fn lemma_lex_total(a: Seq<char>, b: Seq<char>)
    ensures
        a != b ==> (lex_lt(a, b) || lex_lt(b, a)),
        !(lex_lt(a, b) && lex_lt(b, a)),
    decreases a.len(),
{
    if a.len() > 0 && b.len() > 0 && a[0] == b[0] {
        lemma_lex_total(a.drop_first(), b.drop_first());
        if a.drop_first() == b.drop_first() {
            assert(a =~= seq![a[0]] + a.drop_first());
            assert(b =~= seq![b[0]] + b.drop_first());
        }
    }
    if a.len() == 0 && b.len() == 0 {
        assert(a =~= b);
    }
}

proof fn lemma_lex_common_prefix(a: Seq<char>, b: Seq<char>, k: int)
    requires
        0 <= k <= a.len(),
        k <= b.len(),
        a.subrange(0, k) == b.subrange(0, k),
    ensures
        lex_lt(a, b) == lex_lt(a.subrange(k, a.len() as int), b.subrange(k, b.len() as int)),
    decreases k,
{
    if k == 0 {
        assert(a.subrange(0, a.len() as int) =~= a);
        assert(b.subrange(0, b.len() as int) =~= b);
    } else {
        assert(a[0] == a.subrange(0, k)[0]);
        assert(b[0] == b.subrange(0, k)[0]);
        assert(a.drop_first().subrange(0, k - 1) =~= a.subrange(0, k).drop_first());
        assert(b.drop_first().subrange(0, k - 1) =~= b.subrange(0, k).drop_first());
        lemma_lex_common_prefix(a.drop_first(), b.drop_first(), k - 1);
        assert(a.drop_first().subrange(k - 1, a.len() - 1) =~= a.subrange(k, a.len() as int));
        assert(b.drop_first().subrange(k - 1, b.len() - 1) =~= b.subrange(k, b.len() as int));
    }
}

/// Whether `a` precedes `b`.
pub fn text_lt(a: &str, b: &str) -> (r: bool)
    ensures
        r == lex_lt(a@, b@),
{
    let x = to_chars(a);
    let y = to_chars(b);
    let mut i: usize = 0;
    while i < x.len() && i < y.len() && x[i] == y[i]
        invariant
            i <= x.len(),
            i <= y.len(),
            x@.subrange(0, i as int) == y@.subrange(0, i as int),
        decreases x.len() - i,
    {
        assert(x@.subrange(0, i + 1) =~= x@.subrange(0, i as int).push(x@[i as int]));
        assert(y@.subrange(0, i + 1) =~= y@.subrange(0, i as int).push(y@[i as int]));
        i = i + 1;
    }
    proof {
        lemma_lex_common_prefix(x@, y@, i as int);
    }
    if i == y.len() {
        false
    } else if i == x.len() {
        true
    } else {
        assert(x@.subrange(i as int, x@.len() as int)[0] == x@[i as int]);
        assert(y@.subrange(i as int, y@.len() as int)[0] == y@[i as int]);
        x[i] < y[i]
    }
}

/// A strictly ascending list: ordered and free of repeats.
/// Whether two texts are equal.
pub fn text_eq(a: &str, b: &str) -> (r: bool)
    ensures
        r == (a@ == b@),
{
    proof {
        lemma_lex_total(a@, b@);
        lemma_lex_irreflexive(a@);
    }
    !text_lt(a, b) && !text_lt(b, a)
}

pub open spec fn strictly_sorted(s: Seq<Seq<char>>) -> bool {
    forall|i: int, j: int| 0 <= i < j < s.len() ==> lex_lt(#[trigger] s[i], #[trigger] s[j])
}

/// The texts of a list of strings, as a set.
pub open spec fn name_set(v: Seq<String>) -> Set<Seq<char>> {
    strings_view(v).to_set()
}

/// Adds `x` to a strictly ascending list, keeping it strictly ascending.
pub fn insert_sorted(v: &mut Vec<String>, x: String)
    requires
        strictly_sorted(strings_view(old(v)@)),
    ensures
        strictly_sorted(strings_view(final(v)@)),
        name_set(final(v)@) == name_set(old(v)@).insert(x@),
{
    let ghost old_view = strings_view(v@);
    let mut j: usize = 0;
    while j < v.len() && text_lt(v[j].as_str(), x.as_str())
        invariant
            j <= v.len(),
            strings_view(v@) == old_view,
            strictly_sorted(old_view),
            forall|i: int| 0 <= i < j ==> lex_lt(#[trigger] old_view[i], x@),
        decreases v.len() - j,
    {
        j = j + 1;
    }
    if j < v.len() && v[j] == x {
        proof {
            assert(old_view.to_set().insert(x@) =~= old_view.to_set()) by {
                assert(old_view[j as int] == x@);
            }
        }
        return;
    }
    proof {
        if j < v.len() {
            lemma_lex_total(old_view[j as int], x@);
        }
    }
    v.insert(j, x);
    proof {
        let nv = strings_view(v@);
        assert(nv =~= old_view.insert(j as int, x@));
        assert forall|a: int, b: int| 0 <= a < b < nv.len() implies lex_lt(
            #[trigger] nv[a],
            #[trigger] nv[b],
        ) by {
            if b < j {
                assert(nv[a] == old_view[a]);
                assert(nv[b] == old_view[b]);
            } else if a < j && b == j {
            } else if a < j && b > j {
                assert(nv[a] == old_view[a]);
                assert(nv[b] == old_view[b - 1]);
            } else if a == j {
                assert(nv[b] == old_view[b - 1]);
                if b - 1 > j {
                    lemma_lex_transitive(x@, old_view[j as int], old_view[b - 1]);
                }
            } else {
                assert(nv[a] == old_view[a - 1]);
                assert(nv[b] == old_view[b - 1]);
            }
        }
        assert(nv.to_set() =~= old_view.to_set().insert(x@)) by {
            assert forall|t: Seq<char>| nv.to_set().contains(t) implies old_view.to_set().insert(
                x@,
            ).contains(t) by {
                let k = choose|k: int| 0 <= k < nv.len() && nv[k] == t;
                if k < j {
                    assert(old_view[k] == t);
                } else if k > j {
                    assert(old_view[k - 1] == t);
                }
            }
            assert forall|t: Seq<char>| old_view.to_set().insert(x@).contains(t) implies nv.to_set().contains(
                t,
            ) by {
                if t == x@ {
                    assert(nv[j as int] == t);
                } else {
                    let k = choose|k: int| 0 <= k < old_view.len() && old_view[k] == t;
                    if k < j {
                        assert(nv[k] == t);
                    } else {
                        assert(nv[k + 1] == t);
                    }
                }
            }
        }
    }
}

/// Whether a strictly ascending list holds `x`.
pub fn sorted_contains(v: &Vec<String>, x: &str) -> (r: bool)
    ensures
        r == name_set(v@).contains(x@),
{
    let mut i: usize = 0;
    while i < v.len()
        invariant
            i <= v.len(),
            forall|k: int| 0 <= k < i ==> v@[k]@ != x@,
        decreases v.len() - i,
    {
        if v[i].as_str().to_owned() == x.to_owned() {
            assert(strings_view(v@)[i as int] == x@);
            return true;
        }
        i = i + 1;
    }
    proof {
        if name_set(v@).contains(x@) {
            let k = choose|k: int| 0 <= k < strings_view(v@).len() && strings_view(v@)[k] == x@;
            assert(v@[k]@ == x@);
        }
    }
    false
}

/// The strictly ascending list of the texts of a finite set.
pub open spec fn sorted_of(set: Set<Seq<char>>) -> Seq<Seq<char>> {
    choose|s: Seq<Seq<char>>| strictly_sorted(s) && s.to_set() == set
}

proof fn lemma_sorted_no_dup_drop_first(s: Seq<Seq<char>>)
    requires
        strictly_sorted(s),
        s.len() > 0,
    ensures
        s.drop_first().to_set() == s.to_set().remove(s[0]),
        strictly_sorted(s.drop_first()),
{
    assert forall|t: Seq<char>| s.drop_first().to_set().contains(t) implies s.to_set().remove(s[0]).contains(t) by {
        let k = choose|k: int| 0 <= k < s.drop_first().len() && s.drop_first()[k] == t;
        assert(s[k + 1] == t);
        assert(lex_lt(s[0], s[k + 1]));
        lemma_lex_irreflexive(s[0]);
    }
    assert forall|t: Seq<char>| s.to_set().remove(s[0]).contains(t) implies s.drop_first().to_set().contains(t) by {
        let k = choose|k: int| 0 <= k < s.len() && s[k] == t;
        assert(k != 0);
        assert(s.drop_first()[k - 1] == t);
    }
    assert(s.drop_first().to_set() =~= s.to_set().remove(s[0]));
    assert forall|i: int, j: int| 0 <= i < j < s.drop_first().len() implies lex_lt(
        #[trigger] s.drop_first()[i],
        #[trigger] s.drop_first()[j],
    ) by {
        assert(s.drop_first()[i] == s[i + 1]);
        assert(s.drop_first()[j] == s[j + 1]);
    }
}

/// Two strictly ascending lists of the same texts are the same list.
pub proof fn lemma_sorted_unique(a: Seq<Seq<char>>, b: Seq<Seq<char>>)
    requires
        strictly_sorted(a),
        strictly_sorted(b),
        a.to_set() == b.to_set(),
    ensures
        a == b,
    decreases a.len(),
{
    if a.len() == 0 {
        if b.len() > 0 {
            assert(b.to_set().contains(b[0]));
        }
        assert(a =~= b);
    } else {
        assert(a.to_set().contains(a[0]));
        if b.len() == 0 {
            assert(b.to_set().contains(a[0]));
            assert(false);
        }
        assert(b.to_set().contains(a[0]));
        assert(a.to_set().contains(b[0]));
        let j = choose|j: int| 0 <= j < b.len() && b[j] == a[0];
        let k = choose|k: int| 0 <= k < a.len() && a[k] == b[0];
        if j > 0 && k > 0 {
            assert(lex_lt(b[0], b[j]));
            assert(lex_lt(a[0], a[k]));
            lemma_lex_total(a[0], b[0]);
            assert(false);
        } else if j > 0 {
            assert(lex_lt(b[0], b[j]));
            assert(a[0] == b[0]);
            lemma_lex_irreflexive(b[0]);
        } else if k > 0 {
            assert(lex_lt(a[0], a[k]));
            lemma_lex_irreflexive(a[0]);
        }
        assert(a[0] == b[0]);
        lemma_sorted_no_dup_drop_first(a);
        lemma_sorted_no_dup_drop_first(b);
        lemma_sorted_unique(a.drop_first(), b.drop_first());
        assert(a =~= seq![a[0]] + a.drop_first());
        assert(b =~= seq![b[0]] + b.drop_first());
    }
}

/// A strictly ascending list is the sorted form of its set.
pub proof fn lemma_is_sorted_of(s: Seq<Seq<char>>)
    requires
        strictly_sorted(s),
    ensures
        sorted_of(s.to_set()) == s,
{
    let t = sorted_of(s.to_set());
    assert(strictly_sorted(s) && s.to_set() == s.to_set());
    assert(strictly_sorted(t) && t.to_set() == s.to_set());
    lemma_sorted_unique(t, s);
}

/// Where `x` goes in a strictly ascending list: after every text that precedes it.
pub open spec fn insert_index(t: Seq<Seq<char>>, x: Seq<char>) -> int
    decreases t.len(),
{
    if t.len() == 0 {
        0
    } else if lex_lt(t[0], x) {
        1 + insert_index(t.drop_first(), x)
    } else {
        0
    }
}

proof fn lemma_insert_index(t: Seq<Seq<char>>, x: Seq<char>)
    requires
        strictly_sorted(t),
    ensures
        0 <= insert_index(t, x) <= t.len(),
        forall|j: int| 0 <= j < insert_index(t, x) ==> lex_lt(#[trigger] t[j], x),
        insert_index(t, x) < t.len() ==> !lex_lt(t[insert_index(t, x)], x),
    decreases t.len(),
{
    if t.len() > 0 && lex_lt(t[0], x) {
        let d = t.drop_first();
        assert forall|a: int, b: int| 0 <= a < b < d.len() implies lex_lt(#[trigger] d[a], #[trigger] d[b]) by {
            assert(d[a] == t[a + 1]);
            assert(d[b] == t[b + 1]);
        }
        lemma_insert_index(d, x);
        assert forall|j: int| 0 <= j < insert_index(t, x) implies lex_lt(#[trigger] t[j], x) by {
            if j > 0 {
                assert(t[j] == d[j - 1]);
            }
        }
        if insert_index(t, x) < t.len() {
            assert(t[insert_index(t, x)] == d[insert_index(d, x)]);
        }
    }
}

/// A strictly ascending list with `x` added at its place.
pub open spec fn sorted_insert(t: Seq<Seq<char>>, x: Seq<char>) -> Seq<Seq<char>> {
    if t.contains(x) {
        t
    } else {
        t.insert(insert_index(t, x), x)
    }
}

proof fn lemma_sorted_insert(t: Seq<Seq<char>>, x: Seq<char>)
    requires
        strictly_sorted(t),
    ensures
        strictly_sorted(sorted_insert(t, x)),
        sorted_insert(t, x).to_set() == t.to_set().insert(x),
{
    if t.contains(x) {
        assert(t.to_set().insert(x) =~= t.to_set());
    } else {
        lemma_insert_index(t, x);
        let k = insert_index(t, x);
        let u = t.insert(k, x);
        if k < t.len() {
            lemma_lex_total(t[k], x);
            assert(t[k] != x);
        }
        assert forall|a: int, b: int| 0 <= a < b < u.len() implies lex_lt(#[trigger] u[a], #[trigger] u[b]) by {
            if b < k {
                assert(u[a] == t[a] && u[b] == t[b]);
            } else if a < k && b == k {
                assert(u[a] == t[a]);
            } else if a < k {
                assert(u[a] == t[a] && u[b] == t[b - 1]);
            } else if a == k {
                assert(u[b] == t[b - 1]);
                if b - 1 > k {
                    lemma_lex_transitive(x, t[k], t[b - 1]);
                }
            } else {
                assert(u[a] == t[a - 1] && u[b] == t[b - 1]);
            }
        }
        assert forall|y: Seq<char>| u.to_set().contains(y) implies t.to_set().insert(x).contains(y) by {
            let j = choose|j: int| 0 <= j < u.len() && u[j] == y;
            if j < k {
                assert(t[j] == y);
            } else if j > k {
                assert(t[j - 1] == y);
            }
        }
        assert forall|y: Seq<char>| t.to_set().insert(x).contains(y) implies u.to_set().contains(y) by {
            if y == x {
                assert(u[k] == y);
            } else {
                let j = choose|j: int| 0 <= j < t.len() && t[j] == y;
                if j < k {
                    assert(u[j] == y);
                } else {
                    assert(u[j + 1] == y);
                }
            }
        }
        assert(u.to_set() =~= t.to_set().insert(x));
    }
}

/// The texts of a list, sorted: the insertion of each in turn.
pub open spec fn sort_texts(s: Seq<Seq<char>>) -> Seq<Seq<char>>
    decreases s.len(),
{
    if s.len() == 0 {
        Seq::empty()
    } else {
        sorted_insert(sort_texts(s.drop_last()), s.last())
    }
}

proof fn lemma_sort_texts(s: Seq<Seq<char>>)
    ensures
        strictly_sorted(sort_texts(s)),
        sort_texts(s).to_set() == s.to_set(),
    decreases s.len(),
{
    if s.len() == 0 {
        assert(s.to_set() =~= Set::<Seq<char>>::empty());
        assert(sort_texts(s).to_set() =~= Set::<Seq<char>>::empty());
    } else {
        lemma_sort_texts(s.drop_last());
        lemma_sorted_insert(sort_texts(s.drop_last()), s.last());
        assert(s =~= s.drop_last().push(s.last()));
        assert forall|y: Seq<char>| s.to_set().contains(y) <==> s.drop_last().to_set().insert(s.last()).contains(y) by {
            if s.to_set().contains(y) {
                let j = choose|j: int| 0 <= j < s.len() && s[j] == y;
                if j < s.len() - 1 {
                    assert(s.drop_last()[j] == y);
                }
            }
            if s.drop_last().to_set().contains(y) {
                let j = choose|j: int| 0 <= j < s.drop_last().len() && s.drop_last()[j] == y;
                assert(s[j] == y);
            }
            if y == s.last() {
                assert(s[s.len() - 1] == y);
            }
        }
        assert(s.to_set() =~= s.drop_last().to_set().insert(s.last()));
    }
}

/// The sorted form of the set of a list's texts is strictly ascending and holds exactly
/// those texts.
pub proof fn lemma_sorted_of_list(s: Seq<Seq<char>>)
    ensures
        strictly_sorted(sorted_of(s.to_set())),
        sorted_of(s.to_set()).to_set() == s.to_set(),
{
    lemma_sort_texts(s);
    lemma_is_sorted_of(sort_texts(s));
}

} // verus!
