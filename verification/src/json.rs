//! JSON documents.
//!
//! An item's metadata is a JSON object. It is kept in `serde_json`'s own map, so
//! that reading, writing and printing it is `serde_json`'s work. Contracts see a
//! document as a map from member names to [`JsonView`]s.

use vstd::prelude::*;
use crate::text::opt_text;

verus! {

#[verifier::external_type_specification]
#[verifier::external_body]
pub struct ExJsonValue(serde_json::Value);

#[verifier::external_type_specification]
#[verifier::external_body]
#[verifier::reject_recursive_types(K)]
#[verifier::reject_recursive_types(V)]
pub struct ExJsonMap<K, V>(serde_json::Map<K, V>);

#[verifier::external_type_specification]
#[verifier::external_body]
pub struct ExJsonError(serde_json::Error);

/// What a JSON value is, as far as contracts tell values apart.
pub enum JsonView {
    Null,
    Bool(bool),
    /// A number that `Value::as_i64` gives: an integer that fits an `i64`.
    Int(int),
    Text(Seq<char>),
    Array(Seq<JsonView>),
    Object(Map<Seq<char>, JsonView>),
    /// Any other number: a floating-point number, or an integer above
    /// `i64::MAX`.
    OtherNumber,
}

/// The members of a JSON object, by name.
pub type Fields = Map<Seq<char>, JsonView>;

/// The members of a document.
pub uninterp spec fn doc_fields(doc: serde_json::Map<String, serde_json::Value>) -> Fields;

/// The compact JSON text that `serde_json` prints for a document.
pub uninterp spec fn doc_text(doc: serde_json::Map<String, serde_json::Value>) -> Seq<char>;

/// The JSON value that `text` spells, as `serde_json::from_str` reads it;
/// `None` where `text` is no JSON text.
pub uninterp spec fn json_value(text: Seq<char>) -> Option<JsonView>;

/// The members of the JSON object that `text` spells; `None` where `text` is not
/// the JSON text of an object.
pub open spec fn json_fields(text: Seq<char>) -> Option<Fields> {
    match json_value(text) {
        Some(JsonView::Object(f)) => Some(f),
        _ => None,
    }
}

/// The string held by member `key`, if there is such a member and it is a string.
pub open spec fn text_at(f: Fields, key: Seq<char>) -> Option<Seq<char>> {
    if f.contains_key(key) {
        match f[key] {
            JsonView::Text(s) => Some(s),
            _ => None,
        }
    } else {
        None
    }
}

/// The integer held by member `key`, if there is such a member and it is a
/// number that fits an `i64`.
pub open spec fn int_at(f: Fields, key: Seq<char>) -> Option<int> {
    if f.contains_key(key) {
        match f[key] {
            JsonView::Int(n) => Some(n),
            _ => None,
        }
    } else {
        None
    }
}

/// The boolean held by member `key`, if there is such a member and it is one.
pub open spec fn bool_at(f: Fields, key: Seq<char>) -> Option<bool> {
    if f.contains_key(key) {
        match f[key] {
            JsonView::Bool(b) => Some(b),
            _ => None,
        }
    } else {
        None
    }
}

/// The members of the object held by member `key`, if it holds an object.
pub open spec fn object_at(f: Fields, key: Seq<char>) -> Option<Fields> {
    if f.contains_key(key) {
        match f[key] {
            JsonView::Object(m) => Some(m),
            _ => None,
        }
    } else {
        None
    }
}

/// How an unsigned number is seen: as an `Int` while it fits an `i64`.
pub open spec fn unsigned_view(n: u64) -> JsonView {
    if n <= i64::MAX {
        JsonView::Int(n as int)
    } else {
        JsonView::OtherNumber
    }
}

/// `serde_json::Map::new`: a document without members.
#[verifier::external_body]
fn doc_new() -> (r: serde_json::Map<String, serde_json::Value>)
    ensures
        doc_fields(r) == Fields::empty(),
{
    serde_json::Map::new()
}

/// `Clone` of `serde_json::Map`: a document with the same members, printed alike.
#[verifier::external_body]
fn doc_clone(doc: &serde_json::Map<String, serde_json::Value>) -> (r: serde_json::Map<
    String,
    serde_json::Value,
>)
    ensures
        doc_fields(r) == doc_fields(*doc),
        doc_text(r) == doc_text(*doc),
{
    doc.clone()
}

/// `serde_json::from_str` into a `Value`, kept where the value is an object: the
/// members of the document are those of the object that `text` spells.
#[verifier::external_body]
fn doc_parse(text: &str) -> (r: Option<serde_json::Map<String, serde_json::Value>>)
    ensures
        r is Some == json_fields(text@) is Some,
        r matches Some(d) ==> Some(doc_fields(d)) == json_fields(text@),
{
    match serde_json::from_str::<serde_json::Value>(text) {
        Ok(serde_json::Value::Object(m)) => Some(m),
        _ => None,
    }
}

/// `serde_json::from_str` into a `Value`: whether `text` is JSON text at all.
#[verifier::external_body]
fn json_is_valid(text: &str) -> (r: bool)
    ensures
        r == json_value(text@) is Some,
{
    serde_json::from_str::<serde_json::Value>(text).is_ok()
}

/// `serde_json::to_string` of a document: the text that `doc_text` names.
/// It fails where a key is no string, where a value refuses to be written, or
/// where the writer fails. A document's keys are strings, its values hand on
/// only what the writer reports, and the writer is a `Vec<u8>`, which takes
/// every byte: on a document it succeeds.
#[verifier::external_body]
fn doc_to_string(doc: &serde_json::Map<String, serde_json::Value>) -> (r: Result<
    String,
    serde_json::Error,
>)
    ensures
        r is Ok,
        r matches Ok(s) ==> s@ == doc_text(*doc),
{
    serde_json::to_string(doc)
}

/// `Display` of `serde_json::Error`: the error's message.
#[verifier::external_body]
fn json_error_message(e: &serde_json::Error) -> String {
    e.to_string()
}

/// `Map::get` and `Value::as_str`: the string held by member `key`.
#[verifier::external_body]
fn doc_get_str(doc: &serde_json::Map<String, serde_json::Value>, key: &str) -> (r: Option<String>)
    ensures
        opt_text(r) == text_at(doc_fields(*doc), key@),
{
    doc.get(key).and_then(|v| v.as_str()).map(|s| s.to_string())
}

/// `Map::get` and `Value::as_i64`: the integer held by member `key`.
#[verifier::external_body]
fn doc_get_i64(doc: &serde_json::Map<String, serde_json::Value>, key: &str) -> (r: Option<i64>)
    ensures
        r is Some == int_at(doc_fields(*doc), key@) is Some,
        r matches Some(n) ==> int_at(doc_fields(*doc), key@) == Some(n as int),
{
    doc.get(key).and_then(|v| v.as_i64())
}

/// `Map::get` and `Value::as_bool`: the boolean held by member `key`.
#[verifier::external_body]
fn doc_get_bool(doc: &serde_json::Map<String, serde_json::Value>, key: &str) -> (r: Option<bool>)
    ensures
        r == bool_at(doc_fields(*doc), key@),
{
    doc.get(key).and_then(|v| v.as_bool())
}

/// `Map::get` and `Value::as_object`: a copy of the object held by member `key`.
#[verifier::external_body]
fn doc_get_object(doc: &serde_json::Map<String, serde_json::Value>, key: &str) -> (r: Option<
    serde_json::Map<String, serde_json::Value>,
>)
    ensures
        r is Some == object_at(doc_fields(*doc), key@) is Some,
        r matches Some(d) ==> Some(doc_fields(d)) == object_at(doc_fields(*doc), key@),
{
    doc.get(key).and_then(|v| v.as_object()).map(|m| m.clone())
}

/// `Map::contains_key`: whether there is a member `key`.
#[verifier::external_body]
fn doc_contains(doc: &serde_json::Map<String, serde_json::Value>, key: &str) -> (r: bool)
    ensures
        r == doc_fields(*doc).contains_key(key@),
{
    doc.contains_key(key)
}

/// `Map::insert` of a `Value::String`: member `key` now holds the string.
#[verifier::external_body]
fn doc_insert_str(doc: &mut serde_json::Map<String, serde_json::Value>, key: &str, value: &str)
    ensures
        doc_fields(*final(doc)) == doc_fields(*old(doc)).insert(key@, JsonView::Text(value@)),
{
    doc.insert(key.to_string(), serde_json::Value::String(value.to_string()));
}

/// `Map::insert` of a `Value::Number` made from an `i64`.
#[verifier::external_body]
fn doc_insert_i64(doc: &mut serde_json::Map<String, serde_json::Value>, key: &str, value: i64)
    ensures
        doc_fields(*final(doc)) == doc_fields(*old(doc)).insert(key@, JsonView::Int(value as int)),
{
    doc.insert(key.to_string(), serde_json::Value::Number(serde_json::Number::from(value)));
}

/// `Map::insert` of a `Value::Number` made from a `u64`.
#[verifier::external_body]
fn doc_insert_u64(doc: &mut serde_json::Map<String, serde_json::Value>, key: &str, value: u64)
    ensures
        doc_fields(*final(doc)) == doc_fields(*old(doc)).insert(key@, unsigned_view(value)),
{
    doc.insert(key.to_string(), serde_json::Value::Number(serde_json::Number::from(value)));
}

/// `Map::insert` of a `Value::Bool`.
#[verifier::external_body]
fn doc_insert_bool(doc: &mut serde_json::Map<String, serde_json::Value>, key: &str, value: bool)
    ensures
        doc_fields(*final(doc)) == doc_fields(*old(doc)).insert(key@, JsonView::Bool(value)),
{
    doc.insert(key.to_string(), serde_json::Value::Bool(value));
}

/// `Map::insert` of `Value::Null`.
#[verifier::external_body]
fn doc_insert_null(doc: &mut serde_json::Map<String, serde_json::Value>, key: &str)
    ensures
        doc_fields(*final(doc)) == doc_fields(*old(doc)).insert(key@, JsonView::Null),
{
    doc.insert(key.to_string(), serde_json::Value::Null);
}

/// `Map::insert` of a `Value::Array` whose items are the given objects, in order.
#[verifier::external_body]
fn doc_insert_objects(
    doc: &mut serde_json::Map<String, serde_json::Value>,
    key: &str,
    items: Vec<serde_json::Map<String, serde_json::Value>>,
)
    ensures
        doc_fields(*final(doc)) == doc_fields(*old(doc)).insert(
            key@,
            JsonView::Array(items@.map_values(|d| JsonView::Object(doc_fields(d)))),
        ),
{
    let values = items.into_iter().map(serde_json::Value::Object).collect();
    doc.insert(key.to_string(), serde_json::Value::Array(values));
}

/// `serde_json::from_str` into a `Value`, then `Map::insert`: member `key` now
/// holds the value that `json` spells. Nothing changes where `json` is no JSON
/// text, and `false` comes back.
#[verifier::external_body]
fn doc_insert_json(doc: &mut serde_json::Map<String, serde_json::Value>, key: &str, json: &str) -> (r:
    bool)
    ensures
        r == json_value(json@) is Some,
        r ==> doc_fields(*final(doc)) == doc_fields(*old(doc)).insert(key@, json_value(json@)->0),
        !r ==> *final(doc) == *old(doc),
{
    match serde_json::from_str::<serde_json::Value>(json) {
        Ok(v) => {
            doc.insert(key.to_string(), v);
            true
        },
        Err(_) => false,
    }
}

/// `Clone` of the second document, then `Map::append`: every member of `other`
/// is now a member of `doc`, in place of a member of the same name.
#[verifier::external_body]
fn doc_merge(
    doc: &mut serde_json::Map<String, serde_json::Value>,
    other: &serde_json::Map<String, serde_json::Value>,
)
    ensures
        doc_fields(*final(doc)) == doc_fields(*old(doc)).union_prefer_right(doc_fields(*other)),
{
    let mut moved = other.clone();
    doc.append(&mut moved);
}

/// Why a document could not be printed.
pub struct JsonError {
    pub message: String,
}

/// A JSON object: the metadata document of an item.
pub struct Metadata {
    doc: serde_json::Map<String, serde_json::Value>,
}

impl View for Metadata {
    type V = Fields;

    closed spec fn view(&self) -> Fields {
        doc_fields(self.doc)
    }
}

impl Clone for Metadata {
    fn clone(&self) -> (r: Self)
        ensures
            r@ == self@,
            r.text() == self.text(),
    {
        Metadata { doc: doc_clone(&self.doc) }
    }
}

impl Metadata {
    /// The compact JSON text of the document.
    pub closed spec fn text(&self) -> Seq<char> {
        doc_text(self.doc)
    }

    /// The document without members.
    pub fn new() -> (r: Self)
        ensures
            r@ == Fields::empty(),
    {
        Metadata { doc: doc_new() }
    }

    /// Reads a document from JSON text. `None` where `text` is not the JSON text
    /// of an object.
    pub fn from_json(text: &str) -> (r: Option<Self>)
        ensures
            r is Some == json_fields(text@) is Some,
            r matches Some(m) ==> Some(m@) == json_fields(text@),
    {
        match doc_parse(text) {
            Some(doc) => Some(Metadata { doc }),
            None => None,
        }
    }

    /// Reads a document from stored text. Metadata always is an object: text
    /// that spells none gives the document without members.
    pub fn from_json_or_empty(text: &str) -> (r: Self)
        ensures
            r@ == match json_fields(text@) {
                Some(f) => f,
                None => Fields::empty(),
            },
    {
        match doc_parse(text) {
            Some(doc) => Metadata { doc },
            None => Metadata::new(),
        }
    }

    /// Whether `text` is JSON text of any kind.
    pub fn is_json(text: &str) -> (r: bool)
        ensures
            r == json_value(text@) is Some,
    {
        json_is_valid(text)
    }

    /// The compact JSON text of the document. The printer answers with a
    /// result, which is handed on; on a document it does not fail.
    pub fn to_json(&self) -> (r: Result<String, JsonError>)
        ensures
            r is Ok,
            r matches Ok(s) ==> s@ == self.text(),
    {
        Self::printed(doc_to_string(&self.doc))
    }

    /// Turns the printer's answer into the library's.
    fn printed(out: Result<String, serde_json::Error>) -> (r: Result<String, JsonError>)
        ensures
            r is Ok == out is Ok,
            r matches Ok(s) ==> out matches Ok(t) && s == t,
    {
        match out {
            Ok(s) => Ok(s),
            Err(e) => Err(JsonError { message: json_error_message(&e) }),
        }
    }

    /// Whether there is a member `key`.
    pub fn contains_key(&self, key: &str) -> (r: bool)
        ensures
            r == self@.contains_key(key@),
    {
        doc_contains(&self.doc, key)
    }

    /// The string held by member `key`, if it holds one.
    pub fn get_str(&self, key: &str) -> (r: Option<String>)
        ensures
            opt_text(r) == text_at(self@, key@),
    {
        doc_get_str(&self.doc, key)
    }

    /// The integer held by member `key`, if it holds a number that fits an `i64`.
    pub fn get_i64(&self, key: &str) -> (r: Option<i64>)
        ensures
            r is Some == int_at(self@, key@) is Some,
            r matches Some(n) ==> int_at(self@, key@) == Some(n as int),
    {
        doc_get_i64(&self.doc, key)
    }

    /// The boolean held by member `key`, if it holds one.
    pub fn get_bool(&self, key: &str) -> (r: Option<bool>)
        ensures
            r == bool_at(self@, key@),
    {
        doc_get_bool(&self.doc, key)
    }

    /// A copy of the object held by member `key`, if it holds one.
    pub fn get_object(&self, key: &str) -> (r: Option<Metadata>)
        ensures
            r is Some == object_at(self@, key@) is Some,
            r matches Some(m) ==> Some(m@) == object_at(self@, key@),
    {
        match doc_get_object(&self.doc, key) {
            Some(doc) => Some(Metadata { doc }),
            None => None,
        }
    }

    /// Sets member `key` to a string.
    pub fn insert_str(&mut self, key: &str, value: &str)
        ensures
            final(self)@ == old(self)@.insert(key@, JsonView::Text(value@)),
    {
        doc_insert_str(&mut self.doc, key, value);
    }

    /// Sets member `key` to a string, or to `null` where there is none.
    pub fn insert_opt_str(&mut self, key: &str, value: &Option<String>)
        ensures
            final(self)@ == old(self)@.insert(
                key@,
                match *value {
                    Some(s) => JsonView::Text(s@),
                    None => JsonView::Null,
                },
            ),
    {
        match value {
            Some(s) => doc_insert_str(&mut self.doc, key, s.as_str()),
            None => doc_insert_null(&mut self.doc, key),
        }
    }

    /// Sets member `key` to an integer.
    pub fn insert_i64(&mut self, key: &str, value: i64)
        ensures
            final(self)@ == old(self)@.insert(key@, JsonView::Int(value as int)),
    {
        doc_insert_i64(&mut self.doc, key, value);
    }

    /// Sets member `key` to an unsigned integer.
    pub fn insert_u64(&mut self, key: &str, value: u64)
        ensures
            final(self)@ == old(self)@.insert(key@, unsigned_view(value)),
    {
        doc_insert_u64(&mut self.doc, key, value);
    }

    /// Sets member `key` to a boolean.
    pub fn insert_bool(&mut self, key: &str, value: bool)
        ensures
            final(self)@ == old(self)@.insert(key@, JsonView::Bool(value)),
    {
        doc_insert_bool(&mut self.doc, key, value);
    }

    /// Sets member `key` to `null`.
    pub fn insert_null(&mut self, key: &str)
        ensures
            final(self)@ == old(self)@.insert(key@, JsonView::Null),
    {
        doc_insert_null(&mut self.doc, key);
    }

    /// Sets member `key` to the array of the given objects.
    pub fn insert_objects(&mut self, key: &str, items: Vec<Metadata>)
        ensures
            final(self)@ == old(self)@.insert(
                key@,
                JsonView::Array(items@.map_values(|m: Metadata| JsonView::Object(m@))),
            ),
    {
        let ghost views = items@.map_values(|m: Metadata| JsonView::Object(m@));
        let mut docs: Vec<serde_json::Map<String, serde_json::Value>> = Vec::new();
        let mut items = items;
        let ghost all = items@;
        let mut i: usize = 0;
        while i < items.len()
            invariant
                i <= items.len(),
                items@.len() == all.len(),
                forall|k: int| i <= k < all.len() ==> items@[k] == all[k],
                docs@.len() == i,
                forall|k: int| 0 <= k < i ==> doc_fields(#[trigger] docs@[k]) == all[k]@,
            decreases items.len() - i,
        {
            let mut taken = Metadata::new();
            std::mem::swap(&mut taken, &mut items[i]);
            docs.push(taken.doc);
            i += 1;
        }
        proof {
            assert(docs@.map_values(|d| JsonView::Object(doc_fields(d))) =~= views);
        }
        doc_insert_objects(&mut self.doc, key, docs);
    }

    /// Takes over every member of `other`, in place of a member of the same
    /// name.
    pub fn merge(&mut self, other: &Metadata)
        ensures
            final(self)@ == old(self)@.union_prefer_right(other@),
    {
        doc_merge(&mut self.doc, &other.doc);
    }

    /// Sets member `key` to the value that `json` spells. Where `json` is no JSON
    /// text the document stays as it is and `false` comes back.
    pub fn insert_json(&mut self, key: &str, json: &str) -> (r: bool)
        ensures
            r == json_value(json@) is Some,
            r ==> final(self)@ == old(self)@.insert(key@, json_value(json@)->0),
            !r ==> final(self)@ == old(self)@ && final(self).text() == old(self).text(),
    {
        doc_insert_json(&mut self.doc, key, json)
    }
}

} // verus!
