//! JSON documents as plain data.
//!
//! The wire protocol is JSON text. Reading and writing that text is left to
//! `serde_json`; everything the relay decides is decided on [`Json`], a document
//! tree that holds nothing but strings, integers and vectors.

use serde_json::{Number, Value};
use vstd::prelude::*;

use crate::text::same_text;

verus! {

/// A JSON document.
#[derive(Debug, PartialEq, Eq)]
pub enum Json {
    Null,
    Bool(bool),
    /// A number that is a non-negative integer below 2^64.
    Number(u64),
    /// Any other number: negative, fractional or out of that range. The relay
    /// never looks inside one.
    OtherNumber(Number),
    Str(String),
    Array(Vec<Json>),
    /// The members of an object, in document order.
    Object(Vec<(String, Json)>),
}

/// The mathematical value of a [`Json`] document.
#[verifier::ext_equal]
pub enum JsonView {
    Null,
    Bool(bool),
    Number(u64),
    OtherNumber(Number),
    Str(Seq<char>),
    Array(Seq<JsonView>),
    Object(Seq<(Seq<char>, JsonView)>),
}

/// The mathematical values of a list of documents.
pub open spec fn item_views(items: Seq<Json>) -> Seq<JsonView>
    decreases items,
{
    Seq::new(
        items.len(),
        |i: int|
            if 0 <= i < items.len() {
                document(items[i])
            } else {
                JsonView::Null
            },
    )
}

/// The mathematical values of a list of object members.
pub open spec fn member_views(members: Seq<(String, Json)>) -> Seq<(Seq<char>, JsonView)>
    decreases members,
{
    Seq::new(
        members.len(),
        |i: int|
            if 0 <= i < members.len() {
                (members[i].0@, document(members[i].1))
            } else {
                (Seq::empty(), JsonView::Null)
            },
    )
}

/// The mathematical value of a document.
pub open spec fn document(json: Json) -> JsonView
    decreases json,
{
    match json {
        Json::Null => JsonView::Null,
        Json::Bool(b) => JsonView::Bool(b),
        Json::Number(n) => JsonView::Number(n),
        Json::OtherNumber(n) => JsonView::OtherNumber(n),
        Json::Str(s) => JsonView::Str(s@),
        Json::Array(items) => JsonView::Array(item_views(items@)),
        Json::Object(members) => JsonView::Object(member_views(members@)),
    }
}

impl View for Json {
    type V = JsonView;

    open spec fn view(&self) -> JsonView {
        document(*self)
    }
}

impl DeepView for Json {
    type V = JsonView;

    open spec fn deep_view(&self) -> JsonView {
        document(*self)
    }
}

/// The value of the first member named `key` in a list of object members.
pub open spec fn lookup(members: Seq<(Seq<char>, JsonView)>, key: Seq<char>) -> Option<JsonView>
    decreases members.len(),
{
    if members.len() == 0 {
        None
    } else if members[0].0 == key {
        Some(members[0].1)
    } else {
        lookup(members.skip(1), key)
    }
}

/// The first member named `key` is at `at`: `lookup` gives its value.
pub proof fn lemma_lookup_found(members: Seq<(Seq<char>, JsonView)>, key: Seq<char>, at: int)
    requires
        0 <= at < members.len(),
        members[at].0 == key,
        forall|i: int| 0 <= i < at ==> members[i].0 != key,
    ensures
        lookup(members, key) == Some(members[at].1),
    decreases at,
{
    if at > 0 {
        let rest = members.skip(1);
        assert(rest[at - 1] == members[at]);
        assert forall|i: int| 0 <= i < at - 1 implies rest[i].0 != key by {
            assert(rest[i] == members[i + 1]);
        }
        lemma_lookup_found(rest, key, at - 1);
    }
}

/// No member is named `key`: `lookup` gives nothing.
pub proof fn lemma_lookup_missing(members: Seq<(Seq<char>, JsonView)>, key: Seq<char>)
    requires
        forall|i: int| 0 <= i < members.len() ==> members[i].0 != key,
    ensures
        lookup(members, key) is None,
    decreases members.len(),
{
    if members.len() > 0 {
        let rest = members.skip(1);
        assert forall|i: int| 0 <= i < rest.len() implies rest[i].0 != key by {
            assert(rest[i] == members[i + 1]);
        }
        lemma_lookup_missing(rest, key);
    }
}

/// The texts of a list of documents, where every one of them is a string.
pub open spec fn texts(items: Seq<JsonView>) -> Option<Seq<Seq<char>>> {
    if forall|i: int| 0 <= i < items.len() ==> items[i] is Str {
        Some(Seq::new(items.len(), |i: int| items[i]->Str_0))
    } else {
        None
    }
}

impl JsonView {
    /// The value of the first member named `key`, where the document is an
    /// object that has such a member.
    pub open spec fn member(self, key: Seq<char>) -> Option<JsonView> {
        match self {
            JsonView::Object(members) => lookup(members, key),
            _ => None,
        }
    }

    /// The text, where the document is a string.
    pub open spec fn text(self) -> Option<Seq<char>> {
        match self {
            JsonView::Str(s) => Some(s),
            _ => None,
        }
    }

    /// The number, where the document is a non-negative integer below 2^64.
    pub open spec fn unsigned(self) -> Option<u64> {
        match self {
            JsonView::Number(n) => Some(n),
            _ => None,
        }
    }

    /// The items, where the document is an array.
    pub open spec fn items(self) -> Option<Seq<JsonView>> {
        match self {
            JsonView::Array(items) => Some(items),
            _ => None,
        }
    }
}

impl Json {
    /// The first member named `key`, if the document is an object that has one.
    pub fn get(&self, key: &str) -> (r: Option<&Json>)
        ensures
            r is Some <==> self@.member(key@) is Some,
            r matches Some(j) ==> self@.member(key@) == Some(j@),
    {
        match self {
            Json::Object(members) => {
                let ghost all = self@->Object_0;
                assert(all.skip(0) =~= all);
                let mut i: usize = 0;
                while i < members.len()
                    invariant
                        i <= members.len(),
                        self@ == JsonView::Object(all),
                        all.len() == members@.len(),
                        forall|k: int|
                            0 <= k < members@.len() ==> all[k] == (
                                members@[k].0@,
                                members@[k].1@,
                            ),
                        lookup(all, key@) == lookup(all.skip(i as int), key@),
                    decreases members.len() - i,
                {
                    proof {
                        let rest = all.skip(i as int);
                        assert(rest[0] == all[i as int]);
                        assert(rest.skip(1) =~= all.skip(i + 1));
                    }
                    if same_text(members[i].0.as_str(), key) {
                        return Some(&members[i].1);
                    }
                    i += 1;
                }
                None
            },
            _ => None,
        }
    }

    /// The text, if the document is a string.
    pub fn as_str(&self) -> (r: Option<&str>)
        ensures
            r is Some <==> self@.text() is Some,
            r matches Some(s) ==> self@.text() == Some(s@),
    {
        match self {
            Json::Str(s) => Some(s.as_str()),
            _ => None,
        }
    }

    /// The number, if the document is a non-negative integer below 2^64.
    pub fn as_u64(&self) -> (r: Option<u64>)
        ensures
            r == self@.unsigned(),
    {
        match self {
            Json::Number(n) => Some(*n),
            _ => None,
        }
    }

    /// The items, if the document is an array.
    pub fn as_array(&self) -> (r: Option<&Vec<Json>>)
        ensures
            r is Some <==> self@.items() is Some,
            r matches Some(items) ==> {
                &&& self@.items()->0.len() == items@.len()
                &&& forall|i: int| 0 <= i < items@.len() ==> self@.items()->0[i] == items@[i]@
            },
    {
        match self {
            Json::Array(items) => Some(items),
            _ => None,
        }
    }

    /// Whether the document is `null`.
    pub fn is_null(&self) -> (r: bool)
        ensures
            r == (self@ == JsonView::Null),
    {
        match self {
            Json::Null => true,
            _ => false,
        }
    }
}

/// `serde_json::Value`, opaque to the proofs: what it holds is known only
/// through [`value_json`].
#[verifier::external_type_specification]
#[verifier::external_body]
pub struct ExValue(Value);

/// `serde_json::Number`, opaque to the proofs: it is carried through and never
/// looked into.
#[verifier::external_type_specification]
#[verifier::external_body]
pub struct ExNumber(Number);

/// The document that a JSON text parses to, if it is well-formed JSON: what
/// `serde_json::from_str` makes of the text.
pub uninterp spec fn parsed(text: Seq<char>) -> Option<JsonView>;

/// The compact JSON text of a document: what `serde_json::to_string` writes
/// for it.
pub uninterp spec fn printed(json: JsonView) -> Seq<char>;

/// The document that a `serde_json::Value` holds.
pub uninterp spec fn value_json(value: Value) -> JsonView;

/// The compact text that `serde_json::to_string` writes for a value.
pub uninterp spec fn value_text(value: Value) -> Seq<char>;

/// Calls `serde_json::from_str` for a `serde_json::Value`; an error gives
/// `None`. The contract claims only that the outcome is a function of the
/// text: it is an error exactly where [`parsed`] has no document, and
/// otherwise the value holds the document that [`parsed`] names.
#[verifier::external_body]
fn parse_value(text: &str) -> (r: Option<Value>)
    ensures
        r is Some <==> parsed(text@) is Some,
        r matches Some(value) ==> parsed(text@) == Some(value_json(value)),
{
    serde_json::from_str::<Value>(text).ok()
}

/// Copies a `serde_json::Value` into a [`Json`], variant by variant; a number
/// goes to `Number` where `serde_json::Number::as_u64` gives it, to
/// `OtherNumber` otherwise. The contract claims only that the copy is a
/// function of the value: it is what [`value_json`] names.
#[verifier::external_body]
fn from_value(value: &Value) -> (r: Json)
    ensures
        r@ == value_json(*value),
{
    match value {
        Value::Null => Json::Null,
        Value::Bool(b) => Json::Bool(*b),
        Value::Number(n) => match n.as_u64() {
            Some(u) => Json::Number(u),
            None => Json::OtherNumber(n.clone()),
        },
        Value::String(s) => Json::Str(s.clone()),
        Value::Array(a) => Json::Array(a.iter().map(from_value).collect()),
        Value::Object(m) => Json::Object(m.iter().map(|(k, v)| (k.clone(), from_value(v))).collect()),
    }
}

/// Copies a [`Json`] into a `serde_json::Value`, variant by variant; the
/// members of an object are inserted in order into a `serde_json::Map`. The
/// contract claims only that the text which `serde_json::to_string` writes
/// for the copy is a function of the document: it is what [`printed`] names.
#[verifier::external_body]
fn to_value(json: &Json) -> (r: Value)
    ensures
        value_text(r) == printed(json@),
{
    match json {
        Json::Null => Value::Null,
        Json::Bool(b) => Value::Bool(*b),
        Json::Number(n) => Value::Number(Number::from(*n)),
        Json::OtherNumber(n) => Value::Number(n.clone()),
        Json::Str(s) => Value::String(s.clone()),
        Json::Array(a) => Value::Array(a.iter().map(to_value).collect()),
        Json::Object(m) => Value::Object(m.iter().map(|(k, v)| (k.clone(), to_value(v))).collect()),
    }
}

/// Calls `serde_json::to_string` on a `serde_json::Value`; the text is empty
/// where that reports an error. The contract claims only that the text is a
/// function of the value: it is what [`value_text`] names.
#[verifier::external_body]
fn print_value(value: &Value) -> (r: String)
    ensures
        r@ == value_text(*value),
{
    serde_json::to_string(value).unwrap_or_default()
}

/// Parses a JSON text. A text that is not well-formed JSON gives `None`.
pub fn parse(text: &str) -> (r: Option<Json>)
    ensures
        r.deep_view() == parsed(text@),
{
    match parse_value(text) {
        Some(value) => Some(from_value(&value)),
        None => None,
    }
}

/// Writes a document as compact JSON text.
pub fn print(json: &Json) -> (r: String)
    ensures
        r@ == printed(json@),
{
    let value = to_value(json);
    print_value(&value)
}

} // verus!
