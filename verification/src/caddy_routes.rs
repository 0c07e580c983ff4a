//! Reading and rewriting Caddy JSON routes: the hosts they match, the upstream they proxy
//! to, the routes of an adapted configuration, host filtering and `@id` namespacing.

use vstd::prelude::*;
use crate::json::{Json, JsonMember, JsonValue, json_of, jsons_of, members_of, lemma_jsons_of, lemma_members_of, lemma_jsons_of_push, lemma_members_of_push};
use crate::domain::{canonical_domain, canonicalize_domain, trim, trim_str};
use crate::ordered::{insert_sorted, name_set, sorted_contains, strictly_sorted};
use crate::logs::strings_view;
use crate::text::push_str;

verus! {

// ---------------------------------------------------------------------------------------
// Member lookup
// ---------------------------------------------------------------------------------------

/// The value of the first member named `key`.
pub open spec fn get_member(ms: Seq<(Seq<char>, Json)>, key: Seq<char>) -> Option<Json>
    decreases ms.len(),
{
    if ms.len() == 0 {
        None
    } else if ms[0].0 == key {
        Some(ms[0].1)
    } else {
        get_member(ms.drop_first(), key)
    }
}

/// The value of member `key` of an object; nothing for other values.
pub open spec fn get_key(v: Json, key: Seq<char>) -> Option<Json> {
    match v {
        Json::Object(ms) => get_member(ms, key),
        _ => None,
    }
}

/// Finds the first member named `key`.
pub fn find_member<'a>(members: &'a Vec<JsonMember>, key: &str) -> (r: Option<&'a JsonValue>)
    ensures
        match get_member(members_of(members@), key@) {
            Some(j) => r matches Some(v) && v@ == j,
            None => r is None,
        },
{
    proof {
        lemma_members_of(members@);
    }
    let ghost ms = members_of(members@);
    assert(ms.subrange(0, ms.len() as int) =~= ms);
    let mut i: usize = 0;
    while i < members.len()
        invariant
            i <= members.len(),
            ms == members_of(members@),
            ms.len() == members@.len(),
            forall|j: int| 0 <= j < members@.len() ==> #[trigger] ms[j] == (members@[j].key@, json_of(members@[j].value)),
            get_member(ms, key@) == get_member(ms.subrange(i as int, ms.len() as int), key@),
        decreases members.len() - i,
    {
        let ghost rest = ms.subrange(i as int, ms.len() as int);
        assert(rest[0] == ms[i as int]);
        assert(rest.drop_first() =~= ms.subrange(i + 1, ms.len() as int));
        if members[i].key.as_str().to_owned() == key.to_owned() {
            return Some(&members[i].value);
        }
        i = i + 1;
    }
    None
}

/// Member `key` of an object value.
pub fn get<'a>(v: &'a JsonValue, key: &str) -> (r: Option<&'a JsonValue>)
    ensures
        match get_key(v@, key@) {
            Some(j) => r matches Some(x) && x@ == j,
            None => r is None,
        },
{
    match v {
        JsonValue::Object(members) => find_member(members, key),
        _ => None,
    }
}

// ---------------------------------------------------------------------------------------
// Hosts
// ---------------------------------------------------------------------------------------

/// The texts of the string elements, in order.
pub open spec fn str_texts(items: Seq<Json>) -> Seq<Seq<char>>
    decreases items.len(),
{
    if items.len() == 0 {
        Seq::empty()
    } else {
        let rest = str_texts(items.drop_last());
        match items.last() {
            Json::Str(s) => rest.push(s),
            _ => rest,
        }
    }
}

/// The canonical hosts that a `host` member lists.
pub open spec fn listed_hosts(value: Json) -> Set<Seq<char>> {
    match value {
        Json::Array(items) => str_texts(items).map_values(|s: Seq<char>| canonical_domain(s)).to_set(),
        _ => Set::empty(),
    }
}

/// Every canonical host that a `host` member anywhere in `v` lists.
pub open spec fn json_hosts(v: Json) -> Set<Seq<char>>
    decreases v,
{
    match v {
        Json::Array(items) => items_hosts(items),
        Json::Object(ms) => members_hosts(ms),
        _ => Set::empty(),
    }
}

/// The hosts listed in a sequence of values.
pub open spec fn items_hosts(s: Seq<Json>) -> Set<Seq<char>>
    decreases s,
{
    if s.len() == 0 {
        Set::empty()
    } else {
        items_hosts(s.drop_last()).union(json_hosts(s.last()))
    }
}

/// The hosts listed in a sequence of members: a `host` member's own list, and what every
/// member value holds.
pub open spec fn members_hosts(s: Seq<(Seq<char>, Json)>) -> Set<Seq<char>>
    decreases s,
{
    if s.len() == 0 {
        Set::empty()
    } else {
        let own = if s.last().0 == "host"@ {
            listed_hosts(s.last().1)
        } else {
            Set::empty()
        };
        members_hosts(s.drop_last()).union(own).union(json_hosts(s.last().1))
    }
}

/// Adds the canonical form of each string element of `items` to a strictly ascending list.
fn add_listed_hosts(items: &Vec<JsonValue>, hosts: &mut Vec<String>)
    requires
        strictly_sorted(strings_view(old(hosts)@)),
    ensures
        strictly_sorted(strings_view(final(hosts)@)),
        name_set(final(hosts)@) == name_set(old(hosts)@).union(listed_hosts(Json::Array(jsons_of(items@)))),
{
    proof {
        lemma_jsons_of(items@);
    }
    let ghost base = name_set(hosts@);
    let ghost js = jsons_of(items@);
    let mut i: usize = 0;
    while i < items.len()
        invariant
            i <= items.len(),
            js == jsons_of(items@),
            js.len() == items@.len(),
            forall|j: int| 0 <= j < items@.len() ==> #[trigger] js[j] == json_of(items@[j]),
            strictly_sorted(strings_view(hosts@)),
            name_set(hosts@) == base.union(
                str_texts(js.subrange(0, i as int)).map_values(|s: Seq<char>| canonical_domain(s)).to_set(),
            ),
        decreases items.len() - i,
    {
        let ghost prefix = js.subrange(0, i as int);
        assert(js.subrange(0, i + 1).drop_last() =~= prefix);
        assert(js.subrange(0, i + 1).last() == json_of(items@[i as int]));
        match items[i].as_str() {
            Some(text) => {
                let host = canonicalize_domain(text);
                let ghost before = name_set(hosts@);
                insert_sorted(hosts, host);
                proof {
                    let old_texts = str_texts(prefix);
                    let new_texts = old_texts.push(text@);
                    assert(str_texts(js.subrange(0, i + 1)) == new_texts);
                    assert(new_texts.map_values(|s: Seq<char>| canonical_domain(s)) =~= old_texts.map_values(
                        |s: Seq<char>| canonical_domain(s),
                    ).push(canonical_domain(text@)));
                    lemma_push_to_set(old_texts.map_values(|s: Seq<char>| canonical_domain(s)), canonical_domain(text@));
                }
            },
            None => {
                proof {
                    assert(str_texts(js.subrange(0, i + 1)) == str_texts(prefix));
                }
            },
        }
        i = i + 1;
    }
    assert(js.subrange(0, js.len() as int) =~= js);
}

/// The set of a sequence with one more element.
pub proof fn lemma_push_to_set<A>(s: Seq<A>, x: A)
    ensures
        s.push(x).to_set() == s.to_set().insert(x),
{
    assert forall|t: A| s.push(x).to_set().contains(t) implies s.to_set().insert(x).contains(t) by {
        let k = choose|k: int| 0 <= k < s.push(x).len() && s.push(x)[k] == t;
        if k < s.len() {
            assert(s[k] == t);
        }
    }
    assert forall|t: A| s.to_set().insert(x).contains(t) implies s.push(x).to_set().contains(t) by {
        if t == x {
            assert(s.push(x)[s.len() as int] == t);
        } else {
            let k = choose|k: int| 0 <= k < s.len() && s[k] == t;
            assert(s.push(x)[k] == t);
        }
    }
    assert(s.push(x).to_set() =~= s.to_set().insert(x));
}

/// Adds every canonical host listed anywhere in `value` to a strictly ascending list.
pub fn collect_hosts(value: &JsonValue, hosts: &mut Vec<String>)
    requires
        strictly_sorted(strings_view(old(hosts)@)),
    ensures
        strictly_sorted(strings_view(final(hosts)@)),
        name_set(final(hosts)@) == name_set(old(hosts)@).union(json_hosts(value@)),
    decreases value,
{
    match value {
        JsonValue::Array(items) => collect_hosts_items(items, hosts),
        JsonValue::Object(members) => collect_hosts_members(members, hosts),
        _ => {
            assert(name_set(hosts@).union(Set::empty()) =~= name_set(hosts@));
        },
    }
}

fn collect_hosts_items(items: &Vec<JsonValue>, hosts: &mut Vec<String>)
    requires
        strictly_sorted(strings_view(old(hosts)@)),
    ensures
        strictly_sorted(strings_view(final(hosts)@)),
        name_set(final(hosts)@) == name_set(old(hosts)@).union(items_hosts(jsons_of(items@))),
    decreases items,
{
    proof {
        lemma_jsons_of(items@);
    }
    let ghost base = name_set(hosts@);
    let ghost js = jsons_of(items@);
    let mut i: usize = 0;
    while i < items.len()
        invariant
            i <= items.len(),
            js == jsons_of(items@),
            js.len() == items@.len(),
            forall|j: int| 0 <= j < items@.len() ==> #[trigger] js[j] == json_of(items@[j]),
            strictly_sorted(strings_view(hosts@)),
            name_set(hosts@) == base.union(items_hosts(js.subrange(0, i as int))),
        decreases items.len() - i,
    {
        proof {
            assert(decreases_to!(*items => items[i as int]));
            assert(js.subrange(0, i + 1).drop_last() =~= js.subrange(0, i as int));
        }
        collect_hosts(&items[i], hosts);
        proof {
            assert(items_hosts(js.subrange(0, i + 1)) == items_hosts(js.subrange(0, i as int)).union(
                json_hosts(js[i as int]),
            ));
            assert(base.union(items_hosts(js.subrange(0, i as int))).union(json_hosts(js[i as int])) =~= base.union(
                items_hosts(js.subrange(0, i + 1)),
            ));
        }
        i = i + 1;
    }
    assert(js.subrange(0, js.len() as int) =~= js);
}

fn collect_hosts_members(members: &Vec<JsonMember>, hosts: &mut Vec<String>)
    requires
        strictly_sorted(strings_view(old(hosts)@)),
    ensures
        strictly_sorted(strings_view(final(hosts)@)),
        name_set(final(hosts)@) == name_set(old(hosts)@).union(members_hosts(members_of(members@))),
    decreases members,
{
    proof {
        lemma_members_of(members@);
    }
    let ghost base = name_set(hosts@);
    let ghost ms = members_of(members@);
    let mut i: usize = 0;
    while i < members.len()
        invariant
            i <= members.len(),
            ms == members_of(members@),
            ms.len() == members@.len(),
            forall|j: int| 0 <= j < members@.len() ==> #[trigger] ms[j] == (members@[j].key@, json_of(members@[j].value)),
            strictly_sorted(strings_view(hosts@)),
            name_set(hosts@) == base.union(members_hosts(ms.subrange(0, i as int))),
        decreases members.len() - i,
    {
        proof {
            assert(decreases_to!(*members => members[i as int]));
            assert(ms.subrange(0, i + 1).drop_last() =~= ms.subrange(0, i as int));
            assert(ms.subrange(0, i + 1).last() == ms[i as int]);
        }
        let ghost before = name_set(hosts@);
        let ghost key = members@[i as int].key@;
        let ghost val = json_of(members@[i as int].value);
        let is_host = members[i].key.as_str().to_owned() == "host".to_owned();
        match &members[i].value {
            JsonValue::Array(items) => {
                if is_host {
                    add_listed_hosts(items, hosts);
                } else {
                    assert(name_set(hosts@).union(Set::empty()) =~= name_set(hosts@));
                }
            },
            _ => {
                assert(listed_hosts(val) == Set::<Seq<char>>::empty());
                assert(name_set(hosts@).union(Set::empty()) =~= name_set(hosts@));
            },
        }
        let ghost own = if key == "host"@ {
            listed_hosts(val)
        } else {
            Set::empty()
        };
        assert(name_set(hosts@) == before.union(own));
        collect_hosts(&members[i].value, hosts);
        proof {
            assert(members_hosts(ms.subrange(0, i + 1)) == members_hosts(ms.subrange(0, i as int)).union(
                own,
            ).union(json_hosts(val)));
            assert(base.union(members_hosts(ms.subrange(0, i as int))).union(own).union(json_hosts(val))
                =~= base.union(members_hosts(ms.subrange(0, i + 1))));
        }
        i = i + 1;
    }
    assert(ms.subrange(0, ms.len() as int) =~= ms);
}

/// The canonical hosts listed anywhere in `value`, in ascending order.
pub fn extract_hosts(value: &JsonValue) -> (r: Vec<String>)
    ensures
        strictly_sorted(strings_view(r@)),
        name_set(r@) == json_hosts(value@),
{
    let mut hosts: Vec<String> = Vec::new();
    assert(strings_view(hosts@) =~= Seq::<Seq<char>>::empty());
    assert(name_set(hosts@) =~= Set::<Seq<char>>::empty());
    collect_hosts(value, &mut hosts);
    assert(Set::<Seq<char>>::empty().union(json_hosts(value@)) =~= json_hosts(value@));
    hosts
}


// ---------------------------------------------------------------------------------------
// Reverse-proxy upstream
// ---------------------------------------------------------------------------------------

/// The `dial` text of one upstream entry.
pub open spec fn upstream_dial(u: Json) -> Option<Seq<char>> {
    match get_key(u, "dial"@) {
        Some(Json::Str(d)) => Some(d),
        _ => None,
    }
}

/// The first upstream whose `dial` is not blank.
pub open spec fn first_nonblank_dial(us: Seq<Json>) -> Option<Seq<char>>
    decreases us.len(),
{
    if us.len() == 0 {
        None
    } else {
        match upstream_dial(us[0]) {
            Some(d) => if trim(d).len() > 0 {
                Some(d)
            } else {
                first_nonblank_dial(us.drop_first())
            },
            None => first_nonblank_dial(us.drop_first()),
        }
    }
}

/// The dial of an object that is itself a `reverse_proxy` handler with a usable upstream.
pub open spec fn own_proxy_dial(ms: Seq<(Seq<char>, Json)>) -> Option<Seq<char>> {
    if get_member(ms, "handler"@) == Some(Json::Str("reverse_proxy"@)) {
        match get_member(ms, "upstreams"@) {
            Some(Json::Array(us)) => first_nonblank_dial(us),
            _ => None,
        }
    } else {
        None
    }
}

/// The first reverse-proxy upstream in `v`, searching depth first in document order.
pub open spec fn first_dial(v: Json) -> Option<Seq<char>>
    decreases v,
{
    match v {
        Json::Object(ms) => match own_proxy_dial(ms) {
            Some(d) => Some(d),
            None => members_first_dial(ms),
        },
        Json::Array(items) => items_first_dial(items),
        _ => None,
    }
}

/// The first upstream among a sequence of values.
pub open spec fn items_first_dial(s: Seq<Json>) -> Option<Seq<char>>
    decreases s,
{
    if s.len() == 0 {
        None
    } else {
        match first_dial(s[0]) {
            Some(d) => Some(d),
            None => items_first_dial(s.drop_first()),
        }
    }
}

/// The first upstream among the values of a sequence of members.
pub open spec fn members_first_dial(s: Seq<(Seq<char>, Json)>) -> Option<Seq<char>>
    decreases s,
{
    if s.len() == 0 {
        None
    } else {
        match first_dial(s[0].1) {
            Some(d) => Some(d),
            None => members_first_dial(s.drop_first()),
        }
    }
}

/// The search for an upstream passes through any member, whatever its name: an object with a
/// single member `k` holds the same first upstream as that member's value (an object that is
/// only `{"handler": "reverse_proxy"}` has no upstreams of its own).
pub proof fn lemma_dial_through_any_member(k: Seq<char>, v: Json)
    ensures
        first_dial(Json::Object(seq![(k, v)])) == first_dial(v),
{
    let ms = seq![(k, v)];
    assert(ms.drop_first() =~= Seq::<(Seq<char>, Json)>::empty());
    assert(ms[0] == (k, v));
    assert(members_first_dial(ms.drop_first()) is None);
    let none: Seq<(Seq<char>, Json)> = Seq::empty();
    assert(ms.drop_first() == none);
    assert(get_member(none, "upstreams"@) is None);
    assert(get_member(none, "handler"@) is None);
    reveal_strlit("handler");
    reveal_strlit("upstreams");
    assert("handler"@.len() != "upstreams"@.len());
    if k == "handler"@ {
        assert(get_member(ms, "upstreams"@) is None);
    }
}

/// The search passes through any array element: an array holding a single value has that
/// value's first upstream.
pub proof fn lemma_dial_through_any_item(v: Json)
    ensures
        first_dial(Json::Array(seq![v])) == first_dial(v),
{
    let items = seq![v];
    let none: Seq<Json> = Seq::empty();
    assert(items.drop_first() =~= none);
    assert(items_first_dial(none) is None);
    assert(items[0] == v);
}

/// The members of an object are searched in order: the first upstream of members `a` then `b`
/// is `a`'s, or `b`'s when `a` has none.
pub proof fn lemma_members_searched_in_order(a: Seq<(Seq<char>, Json)>, b: Seq<(Seq<char>, Json)>)
    ensures
        members_first_dial(a + b) == match members_first_dial(a) {
            Some(d) => Some(d),
            None => members_first_dial(b),
        },
    decreases a.len(),
{
    if a.len() > 0 {
        assert((a + b).drop_first() =~= a.drop_first() + b);
        assert((a + b)[0] == a[0]);
        lemma_members_searched_in_order(a.drop_first(), b);
    } else {
        assert(a + b =~= b);
    }
}

fn first_nonblank_upstream(upstreams: &Vec<JsonValue>) -> (r: Option<String>)
    ensures
        match first_nonblank_dial(jsons_of(upstreams@)) {
            Some(d) => r matches Some(x) && x@ == d,
            None => r is None,
        },
{
    proof {
        lemma_jsons_of(upstreams@);
    }
    let ghost js = jsons_of(upstreams@);
    assert(js.subrange(0, js.len() as int) =~= js);
    let mut i: usize = 0;
    while i < upstreams.len()
        invariant
            i <= upstreams.len(),
            js == jsons_of(upstreams@),
            js.len() == upstreams@.len(),
            forall|j: int| 0 <= j < upstreams@.len() ==> #[trigger] js[j] == json_of(upstreams@[j]),
            first_nonblank_dial(js) == first_nonblank_dial(js.subrange(i as int, js.len() as int)),
        decreases upstreams.len() - i,
    {
        let ghost rest = js.subrange(i as int, js.len() as int);
        assert(rest[0] == js[i as int]);
        assert(rest.drop_first() =~= js.subrange(i + 1, js.len() as int));
        match get(&upstreams[i], "dial") {
            Some(d) => match d.as_str() {
                Some(text) => {
                    let trimmed = trim_str(text);
                    if trimmed.as_str().unicode_len() > 0 {
                        return Some(text.to_owned());
                    }
                },
                None => {},
            },
            None => {},
        }
        i = i + 1;
    }
    None
}

/// The first `reverse_proxy` upstream dial in `value`, depth first in document order.
pub fn first_reverse_proxy_dial(value: &JsonValue) -> (r: Option<String>)
    ensures
        match first_dial(value@) {
            Some(d) => r matches Some(x) && x@ == d,
            None => r is None,
        },
    decreases value,
{
    match value {
        JsonValue::Object(members) => {
            let mut own: Option<String> = None;
            let handler = find_member(members, "handler");
            let is_proxy = match handler {
                Some(h) => match h.as_str() {
                    Some(t) => t.to_owned() == "reverse_proxy".to_owned(),
                    None => false,
                },
                None => false,
            };
            proof {
                if is_proxy {
                    assert(get_member(members_of(members@), "handler"@) == Some(Json::Str("reverse_proxy"@)));
                } else {
                    assert(get_member(members_of(members@), "handler"@) != Some(Json::Str("reverse_proxy"@)));
                }
            }
            if is_proxy {
                match find_member(members, "upstreams") {
                    Some(JsonValue::Array(us)) => {
                        own = first_nonblank_upstream(us);
                    },
                    _ => {},
                }
            }
            match own {
                Some(d) => Some(d),
                None => members_first_reverse_proxy_dial(members),
            }
        },
        JsonValue::Array(items) => items_first_reverse_proxy_dial(items),
        _ => None,
    }
}

fn items_first_reverse_proxy_dial(items: &Vec<JsonValue>) -> (r: Option<String>)
    ensures
        match items_first_dial(jsons_of(items@)) {
            Some(d) => r matches Some(x) && x@ == d,
            None => r is None,
        },
    decreases items,
{
    proof {
        lemma_jsons_of(items@);
    }
    let ghost js = jsons_of(items@);
    assert(js.subrange(0, js.len() as int) =~= js);
    let mut i: usize = 0;
    while i < items.len()
        invariant
            i <= items.len(),
            js == jsons_of(items@),
            js.len() == items@.len(),
            forall|j: int| 0 <= j < items@.len() ==> #[trigger] js[j] == json_of(items@[j]),
            items_first_dial(js) == items_first_dial(js.subrange(i as int, js.len() as int)),
        decreases items.len() - i,
    {
        let ghost rest = js.subrange(i as int, js.len() as int);
        assert(rest[0] == js[i as int]);
        assert(rest.drop_first() =~= js.subrange(i + 1, js.len() as int));
        proof {
            assert(decreases_to!(*items => items[i as int]));
        }
        match first_reverse_proxy_dial(&items[i]) {
            Some(d) => {
                return Some(d);
            },
            None => {},
        }
        i = i + 1;
    }
    None
}

fn members_first_reverse_proxy_dial(members: &Vec<JsonMember>) -> (r: Option<String>)
    ensures
        match members_first_dial(members_of(members@)) {
            Some(d) => r matches Some(x) && x@ == d,
            None => r is None,
        },
    decreases members,
{
    proof {
        lemma_members_of(members@);
    }
    let ghost ms = members_of(members@);
    assert(ms.subrange(0, ms.len() as int) =~= ms);
    let mut i: usize = 0;
    while i < members.len()
        invariant
            i <= members.len(),
            ms == members_of(members@),
            ms.len() == members@.len(),
            forall|j: int| 0 <= j < members@.len() ==> #[trigger] ms[j] == (members@[j].key@, json_of(members@[j].value)),
            members_first_dial(ms) == members_first_dial(ms.subrange(i as int, ms.len() as int)),
        decreases members.len() - i,
    {
        let ghost rest = ms.subrange(i as int, ms.len() as int);
        assert(rest[0] == ms[i as int]);
        assert(rest.drop_first() =~= ms.subrange(i + 1, ms.len() as int));
        proof {
            assert(decreases_to!(*members => members[i as int]));
        }
        match first_reverse_proxy_dial(&members[i].value) {
            Some(d) => {
                return Some(d);
            },
            None => {},
        }
        i = i + 1;
    }
    None
}

// ---------------------------------------------------------------------------------------
// Host filtering
// ---------------------------------------------------------------------------------------

/// The string elements whose canonical host is enabled, in order.
pub open spec fn keep_enabled(items: Seq<Json>, enabled: Set<Seq<char>>) -> Seq<Json>
    decreases items.len(),
{
    if items.len() == 0 {
        Seq::empty()
    } else {
        let rest = keep_enabled(items.drop_last(), enabled);
        match items.last() {
            Json::Str(s) => if enabled.contains(canonical_domain(s)) {
                rest.push(items.last())
            } else {
                rest
            },
            _ => rest,
        }
    }
}

/// `v` with every `host` list cut down to the enabled hosts, and whether any host was kept.
pub open spec fn filter_hosts(v: Json, enabled: Set<Seq<char>>) -> (Json, bool)
    decreases v,
{
    match v {
        Json::Array(items) => {
            let (kept, any) = filter_items(items, enabled);
            (Json::Array(kept), any)
        },
        Json::Object(ms) => {
            let (kept, any) = filter_members(ms, enabled);
            (Json::Object(kept), any)
        },
        _ => (v, false),
    }
}

/// Host filtering over a sequence of values.
pub open spec fn filter_items(s: Seq<Json>, enabled: Set<Seq<char>>) -> (Seq<Json>, bool)
    decreases s,
{
    if s.len() == 0 {
        (Seq::empty(), false)
    } else {
        let (rest, any) = filter_items(s.drop_last(), enabled);
        let (x, kept) = filter_hosts(s.last(), enabled);
        (rest.push(x), any || kept)
    }
}

/// Host filtering over a sequence of members: a `host` list keeps its enabled hosts; other
/// members are filtered inside.
pub open spec fn filter_members(s: Seq<(Seq<char>, Json)>, enabled: Set<Seq<char>>) -> (Seq<(Seq<char>, Json)>, bool)
    decreases s,
{
    if s.len() == 0 {
        (Seq::empty(), false)
    } else {
        let (rest, any) = filter_members(s.drop_last(), enabled);
        let key = s.last().0;
        let value = s.last().1;
        if key == "host"@ && value is Array {
            let kept = keep_enabled(value->Array_0, enabled);
            (rest.push((key, Json::Array(kept))), any || kept.len() > 0)
        } else {
            let (x, kept) = filter_hosts(value, enabled);
            (rest.push((key, x)), any || kept)
        }
    }
}

/// A route restricted to the enabled hosts; nothing when none of its hosts is enabled.
pub open spec fn filter_route(route: Json, enabled: Set<Seq<char>>) -> Option<Json> {
    let (filtered, any) = filter_hosts(route, enabled);
    if any {
        Some(filtered)
    } else {
        None
    }
}

fn keep_enabled_hosts(items: &Vec<JsonValue>, enabled: &Vec<String>) -> (r: Vec<JsonValue>)
    ensures
        jsons_of(r@) == keep_enabled(jsons_of(items@), name_set(enabled@)),
{
    proof {
        lemma_jsons_of(items@);
    }
    let ghost js = jsons_of(items@);
    let ghost set = name_set(enabled@);
    let mut out: Vec<JsonValue> = Vec::new();
    let mut i: usize = 0;
    while i < items.len()
        invariant
            i <= items.len(),
            js == jsons_of(items@),
            set == name_set(enabled@),
            js.len() == items@.len(),
            forall|j: int| 0 <= j < items@.len() ==> #[trigger] js[j] == json_of(items@[j]),
            jsons_of(out@) == keep_enabled(js.subrange(0, i as int), set),
        decreases items.len() - i,
    {
        assert(js.subrange(0, i + 1).drop_last() =~= js.subrange(0, i as int));
        assert(js.subrange(0, i + 1).last() == js[i as int]);
        match items[i].as_str() {
            Some(text) => {
                let host = canonicalize_domain(text);
                if sorted_contains(enabled, host.as_str()) {
                    let kept = JsonValue::Str(text.to_owned());
                    proof {
                        lemma_jsons_of_push(out@, kept);
                    }
                    out.push(kept);
                }
            },
            None => {},
        }
        i = i + 1;
    }
    assert(js.subrange(0, js.len() as int) =~= js);
    out
}

/// A copy of `value` with every `host` list cut down to the enabled hosts, and whether any
/// host was kept.
pub fn filter_hosts_recursive(value: &JsonValue, enabled: &Vec<String>) -> (r: (JsonValue, bool))
    ensures
        (r.0@, r.1) == filter_hosts(value@, name_set(enabled@)),
    decreases value,
{
    match value {
        JsonValue::Array(items) => {
            let (kept, any) = filter_hosts_items(items, enabled);
            (JsonValue::Array(kept), any)
        },
        JsonValue::Object(members) => {
            let (kept, any) = filter_hosts_members(members, enabled);
            (JsonValue::Object(kept), any)
        },
        _ => (value.copy(), false),
    }
}

fn filter_hosts_items(items: &Vec<JsonValue>, enabled: &Vec<String>) -> (r: (Vec<JsonValue>, bool))
    ensures
        (jsons_of(r.0@), r.1) == filter_items(jsons_of(items@), name_set(enabled@)),
    decreases items,
{
    proof {
        lemma_jsons_of(items@);
    }
    let ghost js = jsons_of(items@);
    let ghost set = name_set(enabled@);
    let mut out: Vec<JsonValue> = Vec::new();
    let mut any = false;
    let mut i: usize = 0;
    while i < items.len()
        invariant
            i <= items.len(),
            js == jsons_of(items@),
            set == name_set(enabled@),
            js.len() == items@.len(),
            forall|j: int| 0 <= j < items@.len() ==> #[trigger] js[j] == json_of(items@[j]),
            (jsons_of(out@), any) == filter_items(js.subrange(0, i as int), set),
        decreases items.len() - i,
    {
        assert(js.subrange(0, i + 1).drop_last() =~= js.subrange(0, i as int));
        assert(js.subrange(0, i + 1).last() == js[i as int]);
        proof {
            assert(decreases_to!(*items => items[i as int]));
        }
        let (x, kept) = filter_hosts_recursive(&items[i], enabled);
        proof {
            lemma_jsons_of_push(out@, x);
        }
        out.push(x);
        any = any || kept;
        i = i + 1;
    }
    assert(js.subrange(0, js.len() as int) =~= js);
    (out, any)
}

fn filter_hosts_members(members: &Vec<JsonMember>, enabled: &Vec<String>) -> (r: (Vec<JsonMember>, bool))
    ensures
        (members_of(r.0@), r.1) == filter_members(members_of(members@), name_set(enabled@)),
    decreases members,
{
    proof {
        lemma_members_of(members@);
    }
    let ghost ms = members_of(members@);
    let ghost set = name_set(enabled@);
    let mut out: Vec<JsonMember> = Vec::new();
    let mut any = false;
    let mut i: usize = 0;
    while i < members.len()
        invariant
            i <= members.len(),
            ms == members_of(members@),
            set == name_set(enabled@),
            ms.len() == members@.len(),
            forall|j: int| 0 <= j < members@.len() ==> #[trigger] ms[j] == (members@[j].key@, json_of(members@[j].value)),
            (members_of(out@), any) == filter_members(ms.subrange(0, i as int), set),
        decreases members.len() - i,
    {
        assert(ms.subrange(0, i + 1).drop_last() =~= ms.subrange(0, i as int));
        assert(ms.subrange(0, i + 1).last() == ms[i as int]);
        proof {
            assert(decreases_to!(*members => members[i as int]));
        }
        let is_host = members[i].key.as_str().to_owned() == "host".to_owned();
        let m = match &members[i].value {
            JsonValue::Array(items) => {
                if is_host {
                    let kept = keep_enabled_hosts(items, enabled);
                    proof {
                        lemma_jsons_of(kept@);
                    }
                    any = any || kept.len() > 0;
                    JsonMember { key: members[i].key.clone(), value: JsonValue::Array(kept) }
                } else {
                    let (x, kept) = filter_hosts_recursive(&members[i].value, enabled);
                    any = any || kept;
                    JsonMember { key: members[i].key.clone(), value: x }
                }
            },
            _ => {
                let (x, kept) = filter_hosts_recursive(&members[i].value, enabled);
                any = any || kept;
                JsonMember { key: members[i].key.clone(), value: x }
            },
        };
        proof {
            lemma_members_of_push(out@, m);
        }
        out.push(m);
        i = i + 1;
    }
    assert(ms.subrange(0, ms.len() as int) =~= ms);
    (out, any)
}

/// `route` restricted to the enabled hosts; nothing when it keeps none of them.
pub fn filter_route_hosts(route: &JsonValue, enabled: &Vec<String>) -> (r: Option<JsonValue>)
    ensures
        match filter_route(route@, name_set(enabled@)) {
            Some(j) => r matches Some(x) && x@ == j,
            None => r is None,
        },
{
    let (filtered, any) = filter_hosts_recursive(route, enabled);
    if any {
        Some(filtered)
    } else {
        None
    }
}

// ---------------------------------------------------------------------------------------
// Routes of an adapted configuration
// ---------------------------------------------------------------------------------------

/// The servers of the HTTP app: the members of `/apps/http/servers` when it is an object.
pub open spec fn http_servers(v: Json) -> Option<Seq<(Seq<char>, Json)>> {
    match get_key(v, "apps"@) {
        Some(apps) => match get_key(apps, "http"@) {
            Some(http) => match get_key(http, "servers"@) {
                Some(Json::Object(servers)) => Some(servers),
                _ => None,
            },
            None => None,
        },
        None => None,
    }
}

/// The routes of one server: its `routes` array, or nothing.
pub open spec fn server_route_list(server: Json) -> Seq<Json> {
    match get_key(server, "routes"@) {
        Some(Json::Array(routes)) => routes,
        _ => Seq::empty(),
    }
}

/// The routes of every server, server by server.
pub open spec fn servers_routes(servers: Seq<(Seq<char>, Json)>) -> Seq<Json>
    decreases servers.len(),
{
    if servers.len() == 0 {
        Seq::empty()
    } else {
        servers_routes(servers.drop_last()) + server_route_list(servers.last().1)
    }
}

/// The HTTP routes of an adapted configuration.
pub open spec fn http_routes(v: Json) -> Seq<Json> {
    match http_servers(v) {
        Some(servers) => servers_routes(servers),
        None => Seq::empty(),
    }
}

/// Copies of the HTTP routes of an adapted configuration, server by server.
pub fn extract_http_routes(value: &JsonValue) -> (r: Vec<JsonValue>)
    ensures
        jsons_of(r@) == http_routes(value@),
{
    let mut out: Vec<JsonValue> = Vec::new();
    let servers = match get(value, "apps") {
        Some(apps) => match get(apps, "http") {
            Some(http) => match get(http, "servers") {
                Some(JsonValue::Object(servers)) => servers,
                _ => {
                    return out;
                },
            },
            None => {
                return out;
            },
        },
        None => {
            return out;
        },
    };
    proof {
        lemma_members_of(servers@);
    }
    let ghost ms = members_of(servers@);
    let mut i: usize = 0;
    while i < servers.len()
        invariant
            i <= servers.len(),
            ms == members_of(servers@),
            ms.len() == servers@.len(),
            forall|j: int| 0 <= j < servers@.len() ==> #[trigger] ms[j] == (servers@[j].key@, json_of(servers@[j].value)),
            jsons_of(out@) == servers_routes(ms.subrange(0, i as int)),
        decreases servers.len() - i,
    {
        assert(ms.subrange(0, i + 1).drop_last() =~= ms.subrange(0, i as int));
        assert(ms.subrange(0, i + 1).last() == ms[i as int]);
        match get(&servers[i].value, "routes") {
            Some(JsonValue::Array(routes)) => {
                proof {
                    lemma_jsons_of(routes@);
                }
                let ghost before = jsons_of(out@);
                let mut k: usize = 0;
                while k < routes.len()
                    invariant
                        k <= routes.len(),
                        jsons_of(out@) == before + jsons_of(routes@).subrange(0, k as int),
                        jsons_of(routes@).len() == routes@.len(),
                        forall|j: int| 0 <= j < routes@.len() ==> #[trigger] jsons_of(routes@)[j] == json_of(routes@[j]),
                    decreases routes.len() - k,
                {
                    let c = routes[k].copy();
                    proof {
                        lemma_jsons_of_push(out@, c);
                        assert(jsons_of(routes@).subrange(0, k + 1) =~= jsons_of(routes@).subrange(0, k as int).push(json_of(routes@[k as int])));
                        assert(before + jsons_of(routes@).subrange(0, k + 1) =~= (before + jsons_of(routes@).subrange(0, k as int)).push(json_of(routes@[k as int])));
                    }
                    out.push(c);
                    k = k + 1;
                }
                assert(jsons_of(routes@).subrange(0, routes@.len() as int) =~= jsons_of(routes@));
            },
            _ => {
                assert(server_route_list(json_of(servers@[i as int].value)) =~= Seq::<Json>::empty());
                assert(jsons_of(out@) + Seq::<Json>::empty() =~= jsons_of(out@));
            },
        }
        i = i + 1;
    }
    assert(ms.subrange(0, ms.len() as int) =~= ms);
    out
}

// ---------------------------------------------------------------------------------------
// `@id` namespacing
// ---------------------------------------------------------------------------------------

/// `v` with every string `@id` prefixed by `ns`.
pub open spec fn namespaced(v: Json, ns: Seq<char>) -> Json
    decreases v,
{
    match v {
        Json::Array(items) => Json::Array(namespaced_items(items, ns)),
        Json::Object(ms) => Json::Object(namespaced_members(ms, ns)),
        _ => v,
    }
}

/// Namespacing over a sequence of values.
pub open spec fn namespaced_items(s: Seq<Json>, ns: Seq<char>) -> Seq<Json>
    decreases s,
{
    if s.len() == 0 {
        Seq::empty()
    } else {
        namespaced_items(s.drop_last(), ns).push(namespaced(s.last(), ns))
    }
}

/// Namespacing over a sequence of members: a string `@id` gains the prefix.
pub open spec fn namespaced_members(s: Seq<(Seq<char>, Json)>, ns: Seq<char>) -> Seq<(Seq<char>, Json)>
    decreases s,
{
    if s.len() == 0 {
        Seq::empty()
    } else {
        let key = s.last().0;
        let value = s.last().1;
        let new_value = if key == "@id"@ && value is Str {
            Json::Str(ns + value->Str_0)
        } else {
            namespaced(value, ns)
        };
        namespaced_members(s.drop_last(), ns).push((key, new_value))
    }
}

/// A copy of `value` with every string `@id` prefixed by `namespace`.
pub fn namespace_config_ids(value: &JsonValue, namespace: &str) -> (r: JsonValue)
    ensures
        r@ == namespaced(value@, namespace@),
    decreases value,
{
    match value {
        JsonValue::Array(items) => {
            proof {
                lemma_jsons_of(items@);
            }
            let ghost js = jsons_of(items@);
            let mut out: Vec<JsonValue> = Vec::new();
            let mut i: usize = 0;
            while i < items.len()
                invariant
                    i <= items.len(),
                    js == jsons_of(items@),
                    js.len() == items@.len(),
                    forall|j: int| 0 <= j < items@.len() ==> #[trigger] js[j] == json_of(items@[j]),
                    jsons_of(out@) == namespaced_items(js.subrange(0, i as int), namespace@),
                    decreases_to!(*value => *items),
                decreases items.len() - i,
            {
                assert(js.subrange(0, i + 1).drop_last() =~= js.subrange(0, i as int));
                assert(js.subrange(0, i + 1).last() == js[i as int]);
                proof {
                    assert(decreases_to!(*items => items[i as int]));
                }
                let x = namespace_config_ids(&items[i], namespace);
                proof {
                    lemma_jsons_of_push(out@, x);
                }
                out.push(x);
                i = i + 1;
            }
            assert(js.subrange(0, js.len() as int) =~= js);
            JsonValue::Array(out)
        },
        JsonValue::Object(members) => JsonValue::Object(namespace_members(members, namespace)),
        _ => value.copy(),
    }
}

fn namespace_members(members: &Vec<JsonMember>, namespace: &str) -> (r: Vec<JsonMember>)
    ensures
        members_of(r@) == namespaced_members(members_of(members@), namespace@),
    decreases members,
{
    proof {
        lemma_members_of(members@);
    }
    let ghost ms = members_of(members@);
    let mut out: Vec<JsonMember> = Vec::new();
    let mut i: usize = 0;
    while i < members.len()
        invariant
            i <= members.len(),
            ms == members_of(members@),
            ms.len() == members@.len(),
            forall|j: int| 0 <= j < members@.len() ==> #[trigger] ms[j] == (members@[j].key@, json_of(members@[j].value)),
            members_of(out@) == namespaced_members(ms.subrange(0, i as int), namespace@),
        decreases members.len() - i,
    {
        assert(ms.subrange(0, i + 1).drop_last() =~= ms.subrange(0, i as int));
        assert(ms.subrange(0, i + 1).last() == ms[i as int]);
        proof {
            assert(decreases_to!(*members => members[i as int]));
        }
        let is_id = members[i].key.as_str().to_owned() == "@id".to_owned();
        let value = match &members[i].value {
            JsonValue::Str(id) => {
                if is_id {
                    let mut prefixed = namespace.to_owned();
                    push_str(&mut prefixed, id.as_str());
                    JsonValue::Str(prefixed)
                } else {
                    namespace_config_ids(&members[i].value, namespace)
                }
            },
            _ => namespace_config_ids(&members[i].value, namespace),
        };
        let m = JsonMember { key: members[i].key.clone(), value };
        proof {
            lemma_members_of_push(out@, m);
        }
        out.push(m);
        i = i + 1;
    }
    assert(ms.subrange(0, ms.len() as int) =~= ms);
    out
}

// ---------------------------------------------------------------------------------------
// Laws
// ---------------------------------------------------------------------------------------

proof fn lemma_keep_enabled(items: Seq<Json>, enabled: Set<Seq<char>>)
    ensures
        listed_hosts(Json::Array(keep_enabled(items, enabled))).subset_of(enabled),
        items_hosts(keep_enabled(items, enabled)) == Set::<Seq<char>>::empty(),
        forall|i: int| 0 <= i < keep_enabled(items, enabled).len() ==> #[trigger] keep_enabled(items, enabled)[i] is Str,
    decreases items.len(),
{
    if items.len() > 0 {
        lemma_keep_enabled(items.drop_last(), enabled);
        let rest = keep_enabled(items.drop_last(), enabled);
        let kept = keep_enabled(items, enabled);
        if kept.len() > rest.len() {
            let x = items.last();
            assert(kept == rest.push(x));
            assert(kept.drop_last() =~= rest);
            assert(str_texts(kept) == str_texts(rest).push(x->Str_0));
            assert(str_texts(kept).map_values(|s: Seq<char>| canonical_domain(s)) =~= str_texts(rest).map_values(
                |s: Seq<char>| canonical_domain(s),
            ).push(canonical_domain(x->Str_0)));
            lemma_push_to_set(str_texts(rest).map_values(|s: Seq<char>| canonical_domain(s)), canonical_domain(x->Str_0));
            assert(json_hosts(x) == Set::<Seq<char>>::empty());
            assert(items_hosts(kept) == items_hosts(rest).union(json_hosts(x)));
            assert(items_hosts(kept) =~= Set::<Seq<char>>::empty());
        }
    } else {
        assert(str_texts(keep_enabled(items, enabled)).map_values(|s: Seq<char>| canonical_domain(s)).to_set() =~= Set::<Seq<char>>::empty());
    }
}

/// Host filtering leaves only enabled hosts: every host that the filtered value lists is
/// one of the enabled hosts.
pub proof fn lemma_filtered_hosts_are_enabled(v: Json, enabled: Set<Seq<char>>)
    ensures
        json_hosts(filter_hosts(v, enabled).0).subset_of(enabled),
    decreases v,
{
    match v {
        Json::Array(items) => {
            lemma_filtered_items_hosts(items, enabled);
        },
        Json::Object(ms) => {
            lemma_filtered_members_hosts(ms, enabled);
        },
        _ => {},
    }
}

proof fn lemma_filtered_items_hosts(s: Seq<Json>, enabled: Set<Seq<char>>)
    ensures
        items_hosts(filter_items(s, enabled).0).subset_of(enabled),
    decreases s,
{
    if s.len() > 0 {
        lemma_filtered_items_hosts(s.drop_last(), enabled);
        lemma_filtered_hosts_are_enabled(s.last(), enabled);
        let rest = filter_items(s.drop_last(), enabled).0;
        let x = filter_hosts(s.last(), enabled).0;
        assert(rest.push(x).drop_last() =~= rest);
    }
}

proof fn lemma_filtered_members_hosts(s: Seq<(Seq<char>, Json)>, enabled: Set<Seq<char>>)
    ensures
        members_hosts(filter_members(s, enabled).0).subset_of(enabled),
    decreases s,
{
    if s.len() > 0 {
        lemma_filtered_members_hosts(s.drop_last(), enabled);
        let rest = filter_members(s.drop_last(), enabled).0;
        let key = s.last().0;
        let value = s.last().1;
        if key == "host"@ && value is Array {
            lemma_keep_enabled(value->Array_0, enabled);
            let kept = keep_enabled(value->Array_0, enabled);
            let out = rest.push((key, Json::Array(kept)));
            assert(filter_members(s, enabled).0 == out);
            assert(out.drop_last() =~= rest);
            assert(members_hosts(out) == members_hosts(rest).union(listed_hosts(Json::Array(kept))).union(
                json_hosts(Json::Array(kept)),
            ));
            assert(json_hosts(Json::Array(kept)) == items_hosts(kept));
        } else {
            lemma_filtered_hosts_are_enabled(value, enabled);
            let x = filter_hosts(value, enabled).0;
            let out = rest.push((key, x));
            assert(filter_members(s, enabled).0 == out);
            assert(out.drop_last() =~= rest);
            if key == "host"@ {
                assert(!(x is Array));
                assert(listed_hosts(x) == Set::<Seq<char>>::empty());
            }
            assert(members_hosts(out) == members_hosts(rest).union(
                if key == "host"@ {
                    listed_hosts(x)
                } else {
                    Set::empty()
                },
            ).union(json_hosts(x)));
        }
    }
}

/// A route kept by host filtering lists only enabled hosts.
pub proof fn lemma_filtered_route_serves_enabled_hosts(route: Json, enabled: Set<Seq<char>>)
    ensures
        filter_route(route, enabled) matches Some(x) ==> json_hosts(x).subset_of(enabled),
{
    lemma_filtered_hosts_are_enabled(route, enabled);
}

proof fn lemma_namespaced_str_texts(items: Seq<Json>, ns: Seq<char>)
    ensures
        str_texts(namespaced_items(items, ns)) == str_texts(items),
    decreases items.len(),
{
    if items.len() > 0 {
        lemma_namespaced_str_texts(items.drop_last(), ns);
        let rest = namespaced_items(items.drop_last(), ns);
        let x = namespaced(items.last(), ns);
        assert(rest.push(x).drop_last() =~= rest);
    }
}

/// `@id` namespacing does not change the hosts a value lists.
pub proof fn lemma_namespacing_keeps_hosts(v: Json, ns: Seq<char>)
    ensures
        json_hosts(namespaced(v, ns)) == json_hosts(v),
    decreases v,
{
    match v {
        Json::Array(items) => {
            lemma_namespacing_keeps_items_hosts(items, ns);
        },
        Json::Object(ms) => {
            lemma_namespacing_keeps_members_hosts(ms, ns);
        },
        _ => {},
    }
}

/// `@id` namespacing does not change the hosts a sequence of values lists.
pub proof fn lemma_namespacing_keeps_items_hosts(s: Seq<Json>, ns: Seq<char>)
    ensures
        items_hosts(namespaced_items(s, ns)) == items_hosts(s),
    decreases s,
{
    if s.len() > 0 {
        lemma_namespacing_keeps_items_hosts(s.drop_last(), ns);
        lemma_namespacing_keeps_hosts(s.last(), ns);
        let rest = namespaced_items(s.drop_last(), ns);
        assert(rest.push(namespaced(s.last(), ns)).drop_last() =~= rest);
    }
}

proof fn lemma_namespacing_keeps_members_hosts(s: Seq<(Seq<char>, Json)>, ns: Seq<char>)
    ensures
        members_hosts(namespaced_members(s, ns)) == members_hosts(s),
    decreases s,
{
    if s.len() > 0 {
        lemma_namespacing_keeps_members_hosts(s.drop_last(), ns);
        let rest = namespaced_members(s.drop_last(), ns);
        let key = s.last().0;
        let value = s.last().1;
        let own = if key == "host"@ {
            listed_hosts(value)
        } else {
            Set::empty()
        };
        assert(members_hosts(s) == members_hosts(s.drop_last()).union(own).union(json_hosts(value)));
        if key == "@id"@ && value is Str {
            let nv = Json::Str(ns + value->Str_0);
            let out = rest.push((key, nv));
            assert(namespaced_members(s, ns) == out);
            assert(out.drop_last() =~= rest);
            assert(key != "host"@) by {
                reveal_strlit("@id");
                reveal_strlit("host");
                assert(key[0] != "host"@[0]);
            }
            assert(members_hosts(out) == members_hosts(rest).union(Set::empty()).union(json_hosts(nv)));
            assert(members_hosts(out) =~= members_hosts(s));
        } else {
            lemma_namespacing_keeps_hosts(value, ns);
            let nv = namespaced(value, ns);
            let out = rest.push((key, nv));
            assert(namespaced_members(s, ns) == out);
            assert(out.drop_last() =~= rest);
            let own2 = if key == "host"@ {
                listed_hosts(nv)
            } else {
                Set::empty()
            };
            match value {
                Json::Array(items) => {
                    lemma_namespaced_str_texts(items, ns);
                    assert(listed_hosts(nv) == listed_hosts(value));
                },
                Json::Object(_) => {
                    assert(listed_hosts(nv) == listed_hosts(value));
                },
                _ => {
                    assert(nv == value);
                },
            }
            assert(own2 == own);
            assert(members_hosts(out) == members_hosts(rest).union(own2).union(json_hosts(nv)));
            assert(members_hosts(out) =~= members_hosts(s));
        }
    }
}

} // verus!
