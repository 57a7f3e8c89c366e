//! JSON values: what they hold, how they are built, read and written. The
//! work is done by serde_json; this module states what is relied on.

use crate::text::decimal;
use serde_json::Value;
use vstd::prelude::*;

verus! {

/// What a JSON value holds.
pub enum Json {
    Null,
    Bool(bool),
    /// A number, by the characters that it is written with.
    Number(Seq<char>),
    Text(Seq<char>),
    List(Seq<Json>),
    /// An object, by its keys.
    Object(Map<Seq<char>, Json>),
}

/// A JSON value of serde_json. Contracts speak of what it holds, `json_of`.
#[verifier::external_type_specification]
#[verifier::external_body]
pub struct ExValue(serde_json::Value);

/// The entries of a JSON object in serde_json. Contracts speak of what it
/// holds, `entries_of`.
#[verifier::external_type_specification]
#[verifier::external_body]
#[verifier::reject_recursive_types(K)]
#[verifier::reject_recursive_types(V)]
pub struct ExMap<K, V>(serde_json::Map<K, V>);

/// Why serde_json refused a text.
#[verifier::external_type_specification]
#[verifier::external_body]
pub struct ExError(serde_json::Error);

/// What `value` holds.
pub uninterp spec fn json_of(value: serde_json::Value) -> Json;

/// What `entries` holds: a value for each key.
pub uninterp spec fn entries_of(entries: serde_json::Map<String, serde_json::Value>) -> Map<
    Seq<char>,
    Json,
>;

/// What `serde_json::from_str` reads from `text`: the value that the text
/// stands for, or the error that refuses it.
pub uninterp spec fn json_parse(text: Seq<char>) -> Result<Json, serde_json::Error>;

/// What `serde_json::to_string` writes for `json`.
pub uninterp spec fn json_text(json: Json) -> Seq<char>;

/// Whether `text` stands for `json`.
pub open spec fn reads_as(text: Seq<char>, json: Json) -> bool {
    json_parse(text) == Ok::<Json, serde_json::Error>(json)
}

/// Whether `json` holds no number and nests lists and objects at most `depth`
/// deep.
pub open spec fn plain(json: Json, depth: nat) -> bool
    decreases depth,
{
    match json {
        Json::Number(_) => false,
        Json::List(items) => depth > 0 && forall|i: int|
            0 <= i < items.len() ==> plain(#[trigger] items[i], (depth - 1) as nat),
        Json::Object(entries) => depth > 0 && forall|key: Seq<char>|
            entries.contains_key(key) ==> plain(#[trigger] entries[key], (depth - 1) as nat),
        _ => true,
    }
}

/// How deep lists and objects may nest in a text that serde_json reads.
pub open spec fn depth_limit() -> nat {
    127
}

/// `Map::new` of serde_json: an object without entries.
pub assume_specification[ serde_json::Map::<String, serde_json::Value>::new ]() -> (r:
    serde_json::Map<String, serde_json::Value>)
    ensures
        entries_of(r) == (Map::<Seq<char>, Json>::empty()),
;

/// `Map::insert` of serde_json: the key now has the value, the other keys keep
/// theirs, and the value that the key had before is handed back.
pub assume_specification[ serde_json::Map::<String, serde_json::Value>::insert ](
    entries: &mut serde_json::Map<String, serde_json::Value>,
    k: String,
    v: serde_json::Value,
) -> (r: Option<serde_json::Value>)
    ensures
        entries_of(*final(entries)) == entries_of(*old(entries)).insert(k@, json_of(v)),
        match r {
            Some(before) => entries_of(*old(entries)).contains_key(k@) && json_of(before)
                == entries_of(*old(entries))[k@],
            None => !entries_of(*old(entries)).contains_key(k@),
        },
;

/// `Value::as_str` of serde_json: the text of a value that is a string, and
/// `None` for any other value.
pub assume_specification[ serde_json::Value::as_str ](value: &serde_json::Value) -> (r: Option<
    &str,
>)
    ensures
        match json_of(*value) {
            Json::Text(text) => r is Some && r->0@ == text,
            _ => r is None,
        },
;

/// `Value::get` of serde_json with a key: the value that an object has for the
/// key; `None` where it has none, and for a value that is no object.
#[verifier::external_body]
pub(crate) fn get<'a>(value: &'a Value, key: &str) -> (r: Option<&'a Value>)
    ensures
        match json_of(*value) {
            Json::Object(entries) => if entries.contains_key(key@) {
                r is Some && json_of(*r->0) == entries[key@]
            } else {
                r is None
            },
            _ => r is None,
        },
{
    value.get(key)
}

/// `Value::from` of serde_json on a string: that string as a JSON value.
#[verifier::external_body]
pub(crate) fn text_value(text: String) -> (r: Value)
    ensures
        json_of(r) == Json::Text(text@),
{
    Value::from(text)
}

/// `Value::from` of serde_json on a truth value: it as a JSON value.
#[verifier::external_body]
pub(crate) fn bool_value(flag: bool) -> (r: Value)
    ensures
        json_of(r) == Json::Bool(flag),
{
    Value::from(flag)
}

/// `Value::from` of serde_json on a count: a number, written in decimal
/// notation.
#[verifier::external_body]
pub(crate) fn count_value(count: usize) -> (r: Value)
    ensures
        json_of(r) == Json::Number(decimal(count as nat)),
{
    Value::from(count)
}

/// `Value::from` of serde_json on a list of values: the list of them, in the
/// same order.
#[verifier::external_body]
pub(crate) fn list_value(items: Vec<Value>) -> (r: Value)
    ensures
        json_of(r) == Json::List(jsons_of(items@)),
{
    Value::from(items)
}

/// `Value::from` of serde_json on entries: the object that has them.
#[verifier::external_body]
pub(crate) fn object_value(entries: serde_json::Map<String, Value>) -> (r: Value)
    ensures
        json_of(r) == Json::Object(entries_of(entries)),
{
    Value::from(entries)
}

/// What a list of values holds.
pub open spec fn jsons_of(values: Seq<serde_json::Value>) -> Seq<Json> {
    values.map_values(|v: serde_json::Value| json_of(v))
}

/// `serde_json::from_str` into a JSON value: the value that the text stands
/// for, or an error. Both depend on the text alone, and `json_parse` names
/// them.
#[verifier::external_body]
pub(crate) fn parse(text: &str) -> (r: Result<Value, serde_json::Error>)
    ensures
        match r {
            Ok(value) => reads_as(text@, json_of(value)),
            Err(e) => json_parse(text@) == Err::<Json, serde_json::Error>(e),
        },
{
    serde_json::from_str(text)
}

/// `serde_json::to_string` on a JSON value, which always has a text. The text
/// depends on what the value holds alone, and `json_text` names it. It holds no
/// line feed. That of an object begins and ends with its braces. A text without
/// numbers, nested no deeper than the reader goes, reads back as what was
/// written.
#[verifier::external_body]
pub(crate) fn print(value: &Value) -> (r: Result<String, serde_json::Error>)
    ensures
        r is Ok,
        r->Ok_0@ == json_text(json_of(*value)),
        !r->Ok_0@.contains('\n'),
        json_of(*value) is Object ==> r->Ok_0@.len() >= 2 && r->Ok_0@.first() == '{'
            && r->Ok_0@.last() == '}',
        plain(json_of(*value), depth_limit()) ==> reads_as(
            r->Ok_0@,
            json_of(*value),
        ),
{
    serde_json::to_string(value)
}

/// What an object has under a key, as far as the library looks.
#[derive(Debug, PartialEq, Eq)]
pub enum Field {
    /// Nothing; or the value looked into is no object.
    Missing,
    /// A value that is no string.
    Other,
    /// A string.
    Text(String),
}

/// What a `Field` holds.
pub enum FieldView {
    Missing,
    Other,
    Text(Seq<char>),
}

impl View for Field {
    type V = FieldView;

    open spec fn view(&self) -> FieldView {
        match self {
            Field::Missing => FieldView::Missing,
            Field::Other => FieldView::Other,
            Field::Text(text) => FieldView::Text(text@),
        }
    }
}

/// What `json` has under `key`.
pub open spec fn field_of(json: Json, key: Seq<char>) -> FieldView {
    match json {
        Json::Object(entries) => if entries.contains_key(key) {
            match entries[key] {
                Json::Text(text) => FieldView::Text(text),
                _ => FieldView::Other,
            }
        } else {
            FieldView::Missing
        },
        _ => FieldView::Missing,
    }
}

/// Looks up `key` in `value`.
pub fn look_up(value: &Value, key: &str) -> (r: Field)
    ensures
        r@ == field_of(json_of(*value), key@),
{
    match get(value, key) {
        None => Field::Missing,
        Some(found) => match found.as_str() {
            None => Field::Other,
            Some(text) => Field::Text(text.to_string()),
        },
    }
}

/// A field that was found shows its text if it is a string, and else only
/// whether it is there.
pub proof fn law_field_view(field: Field)
    ensures
        field@ is Missing <==> field is Missing,
        field@ is Other <==> field is Other,
        field@ is Text <==> field is Text,
        field is Text ==> field@->Text_0 == field->Text_0@,
{
}

/// Under a key stands what the object was given for it: a string whole, any
/// other value as such, and nothing where the object has no such key or there
/// is no object.
pub proof fn law_field(json: Json, key: Seq<char>)
    ensures
        field_of(json, key) is Missing <==> !(json is Object && json->Object_0.contains_key(key)),
        field_of(json, key) is Text <==> (json is Object && json->Object_0.contains_key(key)
            && json->Object_0[key] is Text),
        field_of(json, key) is Text ==> field_of(json, key)->Text_0
            == json->Object_0[key]->Text_0,
{
}

} // verus!
