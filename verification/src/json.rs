//! JSON values, as the `serde_json` crate holds them.

use serde_json::Value;
use vstd::prelude::*;

verus! {

/// `serde_json::Value`, a JSON value.
#[verifier::external_type_specification]
#[verifier::external_body]
pub struct ExValue(Value);

/// `serde_json::Map`, the fields of a JSON object.
#[verifier::external_type_specification]
#[verifier::external_body]
#[verifier::reject_recursive_types(K)]
#[verifier::reject_recursive_types(V)]
pub struct ExJsonMap<K, V>(serde_json::Map<K, V>);

/// What a JSON value stands for. A number that is not a whole one of at least zero
/// is kept by its text.
pub enum JsonModel {
    Null,
    Bool(bool),
    Uint(u64),
    Number(Seq<char>),
    Text(Seq<char>),
    Array(Seq<JsonModel>),
    Object(Map<Seq<char>, JsonModel>),
}

/// What a JSON value holds.
pub uninterp spec fn json_of(v: Value) -> JsonModel;

/// What the fields of a JSON object hold, by name.
pub uninterp spec fn json_fields(m: serde_json::Map<String, Value>) -> Map<Seq<char>, JsonModel>;

/// The value that a text is read as; `None` where it is not JSON.
pub uninterp spec fn json_parse(text: Seq<char>) -> Option<JsonModel>;

/// The fields of an object that has none.
pub open spec fn no_members() -> Map<Seq<char>, JsonModel> {
    Map::empty()
}

impl JsonModel {
    /// The field of an object.
    pub open spec fn member(self, key: Seq<char>) -> Option<JsonModel> {
        match self {
            JsonModel::Object(fields) => if fields.contains_key(key) {
                Some(fields[key])
            } else {
                None
            },
            _ => None,
        }
    }

    /// The text of a string.
    pub open spec fn text(self) -> Option<Seq<char>> {
        match self {
            JsonModel::Text(s) => Some(s),
            _ => None,
        }
    }

    /// The fields of an object.
    pub open spec fn fields(self) -> Option<Map<Seq<char>, JsonModel>> {
        match self {
            JsonModel::Object(fields) => Some(fields),
            _ => None,
        }
    }
}

/// A whole number, or null where there is none.
pub open spec fn uint_or_null(n: Option<u64>) -> JsonModel {
    match n {
        Some(n) => JsonModel::Uint(n),
        None => JsonModel::Null,
    }
}

/// `serde_json::from_str` reads a text as a JSON value. What it makes of a text
/// depends on the text alone; the grammar is left to the crate.
#[verifier::external_body]
pub(crate) fn parse_value(text: &str) -> (r: Option<Value>)
    ensures
        match r {
            Some(v) => json_parse(text@) == Some(json_of(v)),
            None => json_parse(text@) is None,
        },
{
    serde_json::from_str::<Value>(text).ok()
}

/// `Value::get` with a name returns the field of an object, and `None` for any
/// other value.
#[verifier::external_body]
pub(crate) fn member<'a>(v: &'a Value, key: &str) -> (r: Option<&'a Value>)
    ensures
        match r {
            Some(x) => json_of(*v).member(key@) == Some(json_of(*x)),
            None => json_of(*v).member(key@) is None,
        },
{
    v.get(key)
}

/// `Value::as_str` returns the text of a string, and `None` for any other value.
#[verifier::external_body]
pub(crate) fn text_of(v: &Value) -> (r: Option<&str>)
    ensures
        match r {
            Some(s) => json_of(*v).text() == Some(s@),
            None => json_of(*v).text() is None,
        },
{
    v.as_str()
}

/// `Value::as_object` returns the fields of an object, here as a copy, and `None`
/// for any other value.
#[verifier::external_body]
pub(crate) fn fields_of(v: &Value) -> (r: Option<serde_json::Map<String, Value>>)
    ensures
        match r {
            Some(m) => json_of(*v).fields() == Some(json_fields(m)),
            None => json_of(*v).fields() is None,
        },
{
    v.as_object().cloned()
}

/// `serde_json::Map::new` makes an object without fields.
#[verifier::external_body]
pub(crate) fn no_fields() -> (r: serde_json::Map<String, Value>)
    ensures
        json_fields(r) == no_members(),
{
    serde_json::Map::new()
}

/// `serde_json::Map::insert` sets a field, in place of one with the same name.
#[verifier::external_body]
pub(crate) fn put_field(m: &mut serde_json::Map<String, Value>, key: &str, v: Value)
    ensures
        json_fields(*final(m)) == json_fields(*old(m)).insert(key@, json_of(v)),
{
    m.insert(key.to_owned(), v);
}

/// `Value::Object` makes an object of its fields.
#[verifier::external_body]
pub(crate) fn object_value(m: serde_json::Map<String, Value>) -> (r: Value)
    ensures
        json_of(r) == JsonModel::Object(json_fields(m)),
{
    Value::Object(m)
}

/// `Value::String` makes a string.
#[verifier::external_body]
pub(crate) fn text_value(s: &str) -> (r: Value)
    ensures
        json_of(r) == JsonModel::Text(s@),
{
    Value::String(s.to_owned())
}

/// `Value::Bool` makes a boolean.
#[verifier::external_body]
pub(crate) fn bool_value(b: bool) -> (r: Value)
    ensures
        json_of(r) == JsonModel::Bool(b),
{
    Value::Bool(b)
}

/// `Value::from` with a `u64` makes a whole number.
#[verifier::external_body]
pub(crate) fn uint_value(n: u64) -> (r: Value)
    ensures
        json_of(r) == JsonModel::Uint(n),
{
    Value::from(n)
}

/// `Value::Null` is the null value.
#[verifier::external_body]
pub(crate) fn null_value() -> (r: Value)
    ensures
        json_of(r) == JsonModel::Null,
{
    Value::Null
}

/// `Value::Array` makes an array of its items.
#[verifier::external_body]
pub(crate) fn array_value(items: Vec<Value>) -> (r: Value)
    ensures
        json_of(r) == JsonModel::Array(items@.map_values(|v: Value| json_of(v))),
{
    Value::Array(items)
}

/// A whole number, or null where there is none.
pub(crate) fn opt_uint_value(n: Option<u64>) -> (r: Value)
    ensures
        json_of(r) == uint_or_null(n),
{
    match n {
        Some(n) => uint_value(n),
        None => null_value(),
    }
}

/// `Value::clone` makes a second value that holds the same.
#[verifier::external_body]
pub(crate) fn copy_value(v: &Value) -> (r: Value)
    ensures
        json_of(r) == json_of(*v),
{
    v.clone()
}

} // verus!
