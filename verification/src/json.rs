//! JSON documents as the daemon composes and inspects Caddy configurations: an executable
//! tree, its mathematical view, and deep copies.
//!
//! Object members keep the order they are given in; documents read from Caddy arrive with
//! their keys in ascending order.

use vstd::prelude::*;

verus! {

/// An executable JSON value. Numbers keep their text.
#[derive(Debug)]
pub enum JsonValue {
    Null,
    Bool(bool),
    Number(String),
    Str(String),
    Array(Vec<JsonValue>),
    Object(Vec<JsonMember>),
}

/// One member of a JSON object.
#[derive(Debug)]
pub struct JsonMember {
    pub key: String,
    pub value: JsonValue,
}

/// The mathematical view of a JSON value.
pub enum Json {
    Null,
    Bool(bool),
    Number(Seq<char>),
    Str(Seq<char>),
    Array(Seq<Json>),
    Object(Seq<(Seq<char>, Json)>),
}

/// The view of a value.
pub open spec fn json_of(v: JsonValue) -> Json
    decreases v,
{
    match v {
        JsonValue::Null => Json::Null,
        JsonValue::Bool(b) => Json::Bool(b),
        JsonValue::Number(n) => Json::Number(n@),
        JsonValue::Str(s) => Json::Str(s@),
        JsonValue::Array(items) => Json::Array(jsons_of(items@)),
        JsonValue::Object(members) => Json::Object(members_of(members@)),
    }
}

/// The views of a sequence of values.
pub open spec fn jsons_of(s: Seq<JsonValue>) -> Seq<Json>
    decreases s,
{
    if s.len() == 0 {
        Seq::empty()
    } else {
        jsons_of(s.drop_last()).push(json_of(s.last()))
    }
}

/// The views of a sequence of members.
pub open spec fn members_of(s: Seq<JsonMember>) -> Seq<(Seq<char>, Json)>
    decreases s,
{
    if s.len() == 0 {
        Seq::empty()
    } else {
        members_of(s.drop_last()).push((s.last().key@, json_of(s.last().value)))
    }
}

impl View for JsonValue {
    type V = Json;

    open spec fn view(&self) -> Json {
        json_of(*self)
    }
}

/// The views keep the length and each element's view.
pub proof fn lemma_jsons_of(s: Seq<JsonValue>)
    ensures
        jsons_of(s).len() == s.len(),
        forall|i: int| 0 <= i < s.len() ==> #[trigger] jsons_of(s)[i] == json_of(s[i]),
    decreases s.len(),
{
    if s.len() > 0 {
        lemma_jsons_of(s.drop_last());
    }
}

/// The member views keep the length, each key and each value's view.
pub proof fn lemma_members_of(s: Seq<JsonMember>)
    ensures
        members_of(s).len() == s.len(),
        forall|i: int| 0 <= i < s.len() ==> #[trigger] members_of(s)[i] == (s[i].key@, json_of(s[i].value)),
    decreases s.len(),
{
    if s.len() > 0 {
        lemma_members_of(s.drop_last());
    }
}

/// Views of a prefix grow one element at a time.
pub proof fn lemma_jsons_of_push(s: Seq<JsonValue>, x: JsonValue)
    ensures
        jsons_of(s.push(x)) == jsons_of(s).push(json_of(x)),
{
    assert(s.push(x).drop_last() =~= s);
}

/// Member views of a prefix grow one member at a time.
pub proof fn lemma_members_of_push(s: Seq<JsonMember>, x: JsonMember)
    ensures
        members_of(s.push(x)) == members_of(s).push((x.key@, json_of(x.value))),
{
    assert(s.push(x).drop_last() =~= s);
}

impl JsonValue {
    /// A deep copy.
    pub fn copy(&self) -> (r: JsonValue)
        ensures
            r@ == self@,
        decreases self,
    {
        match self {
            JsonValue::Null => JsonValue::Null,
            JsonValue::Bool(b) => JsonValue::Bool(*b),
            JsonValue::Number(n) => JsonValue::Number(n.clone()),
            JsonValue::Str(s) => JsonValue::Str(s.clone()),
            JsonValue::Array(items) => JsonValue::Array(copy_values(items)),
            JsonValue::Object(members) => JsonValue::Object(copy_members(members)),
        }
    }

    /// A string value's text.
    pub fn as_str(&self) -> (r: Option<&str>)
        ensures
            match self@ {
                Json::Str(s) => r matches Some(t) && t@ == s,
                _ => r is None,
            },
    {
        match self {
            JsonValue::Str(s) => Some(s.as_str()),
            _ => None,
        }
    }
}

/// Deep copies of a list of values.
pub fn copy_values(items: &Vec<JsonValue>) -> (r: Vec<JsonValue>)
    ensures
        jsons_of(r@) == jsons_of(items@),
    decreases items,
{
    let mut out: Vec<JsonValue> = Vec::new();
    let mut i: usize = 0;
    while i < items.len()
        invariant
            i <= items.len(),
            jsons_of(out@) == jsons_of(items@.subrange(0, i as int)),
        decreases items.len() - i,
    {
        let c = items[i].copy();
        proof {
            lemma_jsons_of_push(out@, c);
            assert(items@.subrange(0, i + 1).drop_last() =~= items@.subrange(0, i as int));
        }
        out.push(c);
        i = i + 1;
    }
    assert(items@.subrange(0, items@.len() as int) =~= items@);
    out
}

/// Deep copies of a list of members.
pub fn copy_members(members: &Vec<JsonMember>) -> (r: Vec<JsonMember>)
    ensures
        members_of(r@) == members_of(members@),
    decreases members,
{
    let mut out: Vec<JsonMember> = Vec::new();
    let mut i: usize = 0;
    while i < members.len()
        invariant
            i <= members.len(),
            members_of(out@) == members_of(members@.subrange(0, i as int)),
        decreases members.len() - i,
    {
        proof {
            assert(decreases_to!(*members => members[i as int]));
        }
        let value = members[i].value.copy();
        let m = JsonMember { key: members[i].key.clone(), value };
        proof {
            lemma_members_of_push(out@, m);
            assert(members@.subrange(0, i + 1).drop_last() =~= members@.subrange(0, i as int));
        }
        out.push(m);
        i = i + 1;
    }
    assert(members@.subrange(0, members@.len() as int) =~= members@);
    out
}

/// A member built from a key and a value.
pub fn member(key: &str, value: JsonValue) -> (r: JsonMember)
    ensures
        r.key@ == key@,
        r.value@ == value@,
{
    JsonMember { key: key.to_owned(), value }
}

/// The bytes that `serde_json::to_vec_pretty` writes for a document held as a
/// `serde_json::Value`: members of an object are kept by key, as `serde_json::Map` keeps them.
pub uninterp spec fn pretty_json(v: Json) -> Seq<u8>;

#[verifier::external_type_specification]
#[verifier::external_body]
pub struct ExSerdeJsonValue(serde_json::Value);

/// The document as a `serde_json::Value`, node for node; a number's text is read by
/// `serde_json` (a text that is no JSON number becomes null). Nothing is stated of it: it
/// only feeds `render_pretty`.
#[verifier::external_body]
fn to_serde_value(v: &JsonValue) -> serde_json::Value {
    match v {
        JsonValue::Null => serde_json::Value::Null,
        JsonValue::Bool(b) => serde_json::Value::Bool(*b),
        JsonValue::Number(n) => serde_json::from_str(n).unwrap_or(serde_json::Value::Null),
        JsonValue::Str(s) => serde_json::Value::String(s.clone()),
        JsonValue::Array(items) => serde_json::Value::Array(items.iter().map(to_serde_value).collect()),
        JsonValue::Object(members) => serde_json::Value::Object(
            members.iter().map(|m| (m.key.clone(), to_serde_value(&m.value))).collect(),
        ),
    }
}

/// Renders a document with `serde_json::to_vec_pretty`, which cannot fail on a
/// `serde_json::Value` (an error would give no bytes).
#[verifier::external_body]
pub(crate) fn render_pretty(v: &JsonValue) -> (r: Vec<u8>)
    ensures
        r@ == pretty_json(v@),
{
    serde_json::to_vec_pretty(&to_serde_value(v)).unwrap_or_default()
}

} // verus!
