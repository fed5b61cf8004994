//! JSON documents as plain values.
//!
//! Reading and writing JSON text is `serde_json`'s work. The decoders of
//! this library read a document through [`Json`], a tree of plain values,
//! so that what they do with it can be stated and proved.

use serde_json::Value;
use vstd::prelude::*;
use vstd::string::*;

use crate::text::str_eq;

verus! {

/// `serde_json::Value`, carried between the calls into `serde_json`.
#[verifier::external_type_specification]
#[verifier::external_body]
pub struct ExValue(Value);

/// A JSON document.
#[derive(Debug)]
pub enum Json {
    Null,
    Bool(bool),
    /// A number, as the decimal text that denotes it.
    Number(String),
    Str(String),
    Array(Vec<Json>),
    /// An object: its keys with their values, in order. Where a key
    /// occurs twice, readers take the first.
    Object(Vec<(String, Json)>),
}

/// A JSON document as a mathematical value.
pub enum JsonView {
    Null,
    Bool(bool),
    Number(Seq<char>),
    Str(Seq<char>),
    Array(Seq<JsonView>),
    Object(Seq<(Seq<char>, JsonView)>),
}

/// What a document holds: its own kind and, for an array or an object, what
/// its parts hold, in order.
pub open spec fn json_view(j: Json) -> JsonView
    decreases j,
{
    match j {
        Json::Null => JsonView::Null,
        Json::Bool(b) => JsonView::Bool(b),
        Json::Number(text) => JsonView::Number(text@),
        Json::Str(text) => JsonView::Str(text@),
        Json::Array(items) => JsonView::Array(
            Seq::new(
                items@.len(),
                |i: int|
                    if 0 <= i < items@.len() {
                        json_view(items@[i])
                    } else {
                        JsonView::Null
                    },
            ),
        ),
        Json::Object(entries) => JsonView::Object(
            Seq::new(
                entries@.len(),
                |i: int|
                    if 0 <= i < entries@.len() {
                        (entries@[i].0@, json_view(entries@[i].1))
                    } else {
                        (Seq::<char>::empty(), JsonView::Null)
                    },
            ),
        ),
    }
}

impl View for Json {
    type V = JsonView;

    open spec fn view(&self) -> JsonView {
        json_view(*self)
    }
}

/// What the elements of an array hold, in order.
pub open spec fn items_view(items: Seq<Json>) -> Seq<JsonView> {
    Seq::new(items.len(), |i: int| items[i]@)
}

/// What the entries of an object hold, in order.
pub open spec fn entries_view(entries: Seq<(String, Json)>) -> Seq<(Seq<char>, JsonView)> {
    Seq::new(entries.len(), |i: int| (entries[i].0@, entries[i].1@))
}

/// An array holds what its elements hold.
pub proof fn lemma_array_view(items: Vec<Json>)
    ensures
        (Json::Array(items))@ == JsonView::Array(items_view(items@)),
{
    assert((Json::Array(items))@->Array_0 =~= items_view(items@));
}

/// An object holds what its entries hold.
pub proof fn lemma_object_view(entries: Vec<(String, Json)>)
    ensures
        (Json::Object(entries))@ == JsonView::Object(entries_view(entries@)),
{
    assert((Json::Object(entries))@->Object_0 =~= entries_view(entries@));
}

/// `i` is the position of the first entry whose key is `key`.
pub open spec fn is_key_position(
    entries: Seq<(Seq<char>, JsonView)>,
    key: Seq<char>,
    i: int,
) -> bool {
    &&& 0 <= i < entries.len()
    &&& entries[i].0 == key
    &&& forall|k: int| 0 <= k < i ==> entries[k].0 != key
}

/// The position of the first entry whose key is `key`, or the number of
/// entries when no entry has that key.
pub open spec fn key_index(entries: Seq<(Seq<char>, JsonView)>, key: Seq<char>) -> int {
    if exists|i: int| is_key_position(entries, key, i) {
        choose|i: int| is_key_position(entries, key, i)
    } else {
        entries.len() as int
    }
}

/// The first entry with a key is the only position that
/// [`is_key_position`] accepts.
pub proof fn lemma_key_index_unique(entries: Seq<(Seq<char>, JsonView)>, key: Seq<char>, i: int)
    requires
        is_key_position(entries, key, i),
    ensures
        key_index(entries, key) == i,
{
    let j = key_index(entries, key);
    assert(is_key_position(entries, key, j));
    if j < i {
        assert(entries[j].0 != key);
    }
    if i < j {
        assert(entries[i].0 != key);
    }
}

impl JsonView {
    /// The value under `key`, where this is an object that has the key.
    pub open spec fn get(self, key: Seq<char>) -> Option<JsonView> {
        match self {
            JsonView::Object(entries) => {
                let i = key_index(entries, key);
                if 0 <= i < entries.len() {
                    Some(entries[i].1)
                } else {
                    None
                }
            },
            _ => None,
        }
    }

    /// The value under `key`; null where this is no object or lacks the
    /// key.
    pub open spec fn field(self, key: Seq<char>) -> JsonView {
        match self.get(key) {
            Some(v) => v,
            None => JsonView::Null,
        }
    }

    /// The text, where this is a string.
    pub open spec fn text(self) -> Option<Seq<char>> {
        match self {
            JsonView::Str(t) => Some(t),
            _ => None,
        }
    }

    /// The decimal text, where this is a number.
    pub open spec fn number(self) -> Option<Seq<char>> {
        match self {
            JsonView::Number(t) => Some(t),
            _ => None,
        }
    }

    /// The elements, where this is an array.
    pub open spec fn items(self) -> Option<Seq<JsonView>> {
        match self {
            JsonView::Array(items) => Some(items),
            _ => None,
        }
    }
}

/// The position of the first entry whose key is `key`.
pub fn find_key(entries: &Vec<(String, Json)>, key: &str) -> (r: Option<usize>)
    ensures
        match r {
            Some(i) => i < entries.len() && i == key_index(entries_view(entries@), key@),
            None => key_index(entries_view(entries@), key@) == entries.len(),
        },
{
    let ghost view = entries_view(entries@);
    let mut i: usize = 0;
    while i < entries.len()
        invariant
            i <= entries.len(),
            view == entries_view(entries@),
            forall|k: int| 0 <= k < i ==> view[k].0 != key@,
        decreases entries.len() - i,
    {
        if str_eq(entries[i].0.as_str(), key) {
            proof {
                lemma_key_index_unique(view, key@, i as int);
            }
            return Some(i);
        }
        i += 1;
    }
    None
}

impl Json {
    /// The value under `key`, where this is an object that has the key.
    pub fn get(&self, key: &str) -> (r: Option<&Json>)
        ensures
            match r {
                Some(v) => self@.get(key@) == Some(v@),
                None => self@.get(key@) is None,
            },
    {
        match self {
            Json::Object(entries) => {
                proof {
                    lemma_object_view(*entries);
                }
                match find_key(entries, key) {
                    Some(i) => Some(&entries[i].1),
                    None => None,
                }
            },
            _ => None,
        }
    }

    /// The text, where this is a string.
    pub fn as_str(&self) -> (r: Option<&str>)
        ensures
            match r {
                Some(t) => self@.text() == Some(t@),
                None => self@.text() is None,
            },
    {
        match self {
            Json::Str(t) => Some(t.as_str()),
            _ => None,
        }
    }

    /// The decimal text, where this is a number.
    pub fn as_number(&self) -> (r: Option<&str>)
        ensures
            match r {
                Some(t) => self@.number() == Some(t@),
                None => self@.number() is None,
            },
    {
        match self {
            Json::Number(t) => Some(t.as_str()),
            _ => None,
        }
    }

    /// The elements, where this is an array.
    pub fn as_array(&self) -> (r: Option<&Vec<Json>>)
        ensures
            match r {
                Some(items) => self@.items() == Some(items_view(items@)),
                None => self@.items() is None,
            },
    {
        match self {
            Json::Array(items) => {
                proof {
                    lemma_array_view(*items);
                }
                Some(items)
            },
            _ => None,
        }
    }
}

/// The document that a `serde_json::Value` holds.
pub uninterp spec fn value_tree(v: Value) -> JsonView;

/// The document that a text denotes, as `serde_json::from_str` reads it;
/// `None` for a text that it refuses.
pub uninterp spec fn json_of_text(text: Seq<char>) -> Option<JsonView>;

/// The document that `serde_json` holds once it is handed `j`: each number
/// is read anew, and an object holds its keys in their sorted order, each
/// of them once, with the value of the last entry that has the key. Note
/// that [`Json::get`] takes the first such entry. `None` where `j` holds a
/// number that `serde_json` refuses to read.
pub uninterp spec fn stored(j: JsonView) -> Option<JsonView>;

/// The text that `serde_json` writes for a document, on one line.
pub uninterp spec fn compact_text(j: JsonView) -> Seq<char>;

/// The text that `serde_json` writes for a document, indented; `None`
/// where it reports a failure instead.
pub uninterp spec fn pretty_text(j: JsonView) -> Option<Seq<char>>;

/// The indented text of a document: what `serde_json` writes for what it
/// holds of the document; `None` where it holds nothing of it or reports a
/// failure on writing.
pub open spec fn written(j: JsonView) -> Option<Seq<char>> {
    match stored(j) {
        Some(document) => pretty_text(document),
        None => None,
    }
}

/// Reads a JSON text with `serde_json::from_str`.
///
/// Trusted: states that the outcome is a function of the text, named
/// [`json_of_text`]; nothing is claimed of which texts are accepted.
#[verifier::external_body]
fn value_from_text(text: &str) -> (r: Result<Value, serde_json::Error>)
    ensures
        match r {
            Ok(v) => json_of_text(text@) == Some(value_tree(v)),
            Err(_) => json_of_text(text@) is None,
        },
{
    serde_json::from_str::<Value>(text)
}

/// Turns a `serde_json::Value` into a [`Json`], variant for variant; a
/// number becomes the text that `serde_json` prints for it.
///
/// Trusted: states that the result holds what the value holds, which is
/// what [`value_tree`] names.
#[verifier::external_body]
fn json_from_value(v: Value) -> (j: Json)
    ensures
        j@ == value_tree(v),
{
    match v {
        Value::Null => Json::Null,
        Value::Bool(b) => Json::Bool(b),
        Value::Number(n) => Json::Number(n.to_string()),
        Value::String(s) => Json::Str(s),
        Value::Array(a) => Json::Array(a.into_iter().map(json_from_value).collect()),
        Value::Object(o) => Json::Object(
            o.into_iter().map(|(k, v)| (k, json_from_value(v))).collect(),
        ),
    }
}

/// Turns a [`Json`] into a `serde_json::Value`, variant for variant; a
/// number is read with `serde_json::Number`'s `from_str`, whose failure is
/// handed on.
///
/// Trusted: states that the outcome, a value or a failure, is a function
/// of the document, named [`stored`]; nothing is claimed of which numbers
/// are read.
#[verifier::external_body]
fn json_to_value(j: &Json) -> (r: Result<Value, serde_json::Error>)
    ensures
        match r {
            Ok(v) => stored(j@) == Some(value_tree(v)),
            Err(_) => stored(j@) is None,
        },
{
    Ok(match j {
        Json::Null => Value::Null,
        Json::Bool(b) => Value::Bool(*b),
        Json::Number(t) => Value::Number(t.parse()?),
        Json::Str(t) => Value::String(t.clone()),
        Json::Array(a) => Value::Array(a.iter().map(json_to_value).collect::<Result<_, _>>()?),
        Json::Object(o) => Value::Object(
            o.iter().map(|(k, v)| Ok((k.clone(), json_to_value(v)?))).collect::<Result<_, serde_json::Error>>()?,
        ),
    })
}

/// Writes a value on one line with `serde_json::Value`'s `to_string`.
///
/// Trusted: states that the text is a function of what the value holds,
/// named [`compact_text`].
#[verifier::external_body]
fn value_to_text(v: &Value) -> (r: String)
    ensures
        r@ == compact_text(value_tree(*v)),
{
    v.to_string()
}

/// Writes a value, indented, with `serde_json::to_string_pretty`.
///
/// Trusted: states that the outcome, a text or a failure, is a function of
/// what the value holds, named [`pretty_text`]; nothing is claimed of which
/// values are written.
#[verifier::external_body]
fn value_to_pretty_text(v: &Value) -> (r: Result<String, serde_json::Error>)
    ensures
        match r {
            Ok(text) => pretty_text(value_tree(*v)) == Some(text@),
            Err(_) => pretty_text(value_tree(*v)) is None,
        },
{
    serde_json::to_string_pretty(v)
}

/// Makes the error that reports a record of the wrong shape, with
/// `serde::de::Error::custom`.
///
/// Trusted: nothing is claimed of the error.
#[verifier::external_body]
pub(crate) fn shape_error(message: &str) -> serde_json::Error {
    <serde_json::Error as serde::de::Error>::custom(message)
}

impl Json {
    /// Reads a JSON text.
    pub fn parse(text: &str) -> (r: Result<Json, serde_json::Error>)
        ensures
            match r {
                Ok(j) => json_of_text(text@) == Some(j@),
                Err(_) => json_of_text(text@) is None,
            },
    {
        match value_from_text(text) {
            Ok(v) => Ok(json_from_value(v)),
            Err(e) => Err(e),
        }
    }

    /// The document as JSON text on one line, or the failure to read one
    /// of its numbers as a JSON number.
    pub fn to_text(&self) -> (r: Result<String, serde_json::Error>)
        ensures
            match stored(self@) {
                Some(document) => r matches Ok(text) && text@ == compact_text(document),
                None => r is Err,
            },
    {
        match json_to_value(self) {
            Ok(v) => Ok(value_to_text(&v)),
            Err(e) => Err(e),
        }
    }

    /// The document as indented JSON text, or the failure to read one of
    /// its numbers as a JSON number, or the failure that the writer reports.
    pub fn to_pretty_text(&self) -> (r: Result<String, serde_json::Error>)
        ensures
            match written(self@) {
                Some(text) => r matches Ok(got) && got@ == text,
                None => r is Err,
            },
    {
        match json_to_value(self) {
            Ok(v) => value_to_pretty_text(&v),
            Err(e) => Err(e),
        }
    }
}

} // verus!
