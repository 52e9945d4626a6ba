//! JSON values, as `serde_json` holds them, and what they hold.

use vstd::prelude::*;
use serde_json::Value;
use crate::table::{distinct, map_of, Table};

verus! {

#[verifier::external_type_specification]
#[verifier::external_body]
pub struct ExValue(serde_json::Value);

/// A JSON value.
pub enum Json {
    Null,
    Bool(bool),
    /// A number, and its value where that is a whole number of 64 bits, not
    /// negative.
    Number(Option<u64>),
    Text(Seq<char>),
    Array(Seq<Json>),
    Object(Map<Seq<char>, Json>),
}

/// What a value of `serde_json` holds.
pub uninterp spec fn json_of(v: serde_json::Value) -> Json;

/// The field of an object, if it is one and has it.
pub open spec fn field(j: Json, key: Seq<char>) -> Option<Json> {
    match j {
        Json::Object(fields) => if fields.contains_key(key) {
            Some(fields[key])
        } else {
            None
        },
        _ => None,
    }
}

/// The field of an object, or another one where it does not have it.
pub open spec fn either_field(j: Json, key: Seq<char>, other: Seq<char>) -> Option<Json> {
    match field(j, key) {
        Some(x) => Some(x),
        None => field(j, other),
    }
}

/// The text of a value, if it is one.
pub open spec fn text_in(j: Option<Json>) -> Option<Seq<char>> {
    match j {
        Some(Json::Text(s)) => Some(s),
        _ => None,
    }
}

/// The number of a value, if it is one.
pub open spec fn number_in(j: Option<Json>) -> Option<u64> {
    match j {
        Some(Json::Number(n)) => n,
        _ => None,
    }
}

/// The items of a value, if it is an array.
pub open spec fn items_in(j: Option<Json>) -> Option<Seq<Json>> {
    match j {
        Some(Json::Array(items)) => Some(items),
        _ => None,
    }
}

/// The items of a value; none where it is no array.
pub open spec fn items_or_none(j: Option<Json>) -> Seq<Json> {
    match items_in(j) {
        Some(items) => items,
        None => Seq::empty(),
    }
}

/// What optional values hold.
pub open spec fn held(v: Option<&Value>) -> Option<Json> {
    match v {
        Some(x) => Some(json_of(*x)),
        None => None,
    }
}

/// `serde_json::Value::get` with a text: the field of that name, where the value
/// is an object that has one.
#[verifier::external_body]
pub(crate) fn get<'a>(v: &'a Value, key: &str) -> (r: Option<&'a Value>)
    ensures
        held(r) == field(json_of(*v), key@),
{
    v.get(key)
}

/// `serde_json::Value::as_str`: the text, where the value is one.
#[verifier::external_body]
pub(crate) fn as_str<'a>(v: &'a Value) -> (r: Option<&'a str>)
    ensures
        match r {
            Some(s) => json_of(*v) == Json::Text(s@),
            None => !(json_of(*v) is Text),
        },
{
    v.as_str()
}

/// `serde_json::Value::as_u64`: the number, where the value is a whole number of
/// 64 bits that is not negative.
#[verifier::external_body]
pub(crate) fn as_u64(v: &Value) -> (r: Option<u64>)
    ensures
        r == number_in(Some(json_of(*v))),
{
    v.as_u64()
}

/// `serde_json::Value::as_bool`: the truth value, where the value is one.
#[verifier::external_body]
pub(crate) fn as_bool(v: &Value) -> (r: Option<bool>)
    ensures
        match r {
            Some(b) => json_of(*v) == Json::Bool(b),
            None => !(json_of(*v) is Bool),
        },
{
    v.as_bool()
}

/// `serde_json::Value::as_array`: the items, where the value is an array.
#[verifier::external_body]
pub(crate) fn as_array<'a>(v: &'a Value) -> (r: Option<&'a Vec<Value>>)
    ensures
        match r {
            Some(items) => json_of(*v) == Json::Array(items@.map_values(|x: Value| json_of(x))),
            None => !(json_of(*v) is Array),
        },
{
    v.as_array()
}

/// What the bytes of a JSON text stand for, or what is wrong with them.
pub uninterp spec fn json_read(bytes: Seq<u8>) -> Result<Json, Seq<char>>;

/// `serde_json::from_slice` into a `Value`: it depends on the bytes alone.
#[verifier::external_body]
pub(crate) fn from_slice(bytes: &[u8]) -> (r: Result<Value, String>)
    ensures
        match r {
            Ok(v) => json_read(bytes@) == Ok::<Json, Seq<char>>(json_of(v)),
            Err(e) => json_read(bytes@) == Err::<Json, Seq<char>>(e@),
        },
{
    serde_json::from_slice::<Value>(bytes).map_err(|e| e.to_string())
}

/// A value as JSON writes it.
pub uninterp spec fn value_text(v: serde_json::Value) -> Seq<char>;

/// `serde_json::Value::to_string`: the value as compact JSON.
#[verifier::external_body]
pub(crate) fn value_string(v: &Value) -> (r: String)
    ensures
        r@ == value_text(*v),
{
    v.to_string()
}

/// A text as JSON writes it.
pub uninterp spec fn json_text(s: Seq<char>) -> Seq<char>;

/// `serde_json::to_string` on a text, which cannot fail: the text in double
/// quotes, with escapes. It depends on the text alone.
#[verifier::external_body]
pub(crate) fn json_string(s: &str) -> (r: String)
    ensures
        r@ == json_text(s@),
{
    serde_json::to_string(s).unwrap()
}

/// The text of a field.
pub fn text_field(v: &Value, key: &str) -> (r: Option<String>)
    ensures
        crate::config::text_view(r) == text_in(field(json_of(*v), key@)),
{
    match get(v, key) {
        Some(x) => match as_str(x) {
            Some(s) => Some(s.to_owned()),
            None => None,
        },
        None => None,
    }
}

/// The text of a field, or of another one where it is not there.
pub fn either_text(v: &Value, key: &str, other: &str) -> (r: Option<String>)
    ensures
        crate::config::text_view(r) == text_in(either_field(json_of(*v), key@, other@)),
{
    match get(v, key) {
        Some(x) => match as_str(x) {
            Some(s) => Some(s.to_owned()),
            None => None,
        },
        None => text_field(v, other),
    }
}

/// The number of a field.
pub fn number_field(v: &Value, key: &str) -> (r: Option<u64>)
    ensures
        r == number_in(field(json_of(*v), key@)),
{
    match get(v, key) {
        Some(x) => as_u64(x),
        None => None,
    }
}

/// The text of a field, or nothing.
pub open spec fn text_or_empty(j: Option<Json>) -> Seq<char> {
    match text_in(j) {
        Some(s) => s,
        None => Seq::empty(),
    }
}

pub fn text_or_nothing(v: &Value, key: &str) -> (r: String)
    ensures
        r@ == text_or_empty(field(json_of(*v), key@)),
{
    match text_field(v, key) {
        Some(s) => s,
        None => String::new(),
    }
}

// ---------------------------------------------------------------------------
// Mappings from text to text
// ---------------------------------------------------------------------------

/// The texts of a mapping.
pub open spec fn text_map(m: Map<Seq<char>, String>) -> Map<Seq<char>, Seq<char>> {
    m.map_values(|s: String| s@)
}

/// The mapping from text to text that the bytes of a JSON text stand for; nothing
/// where they stand for none.
pub uninterp spec fn mapping_read(bytes: Seq<u8>) -> Option<Map<Seq<char>, Seq<char>>>;

/// `serde_json::from_slice` into a map from text to text: it depends on the bytes
/// alone. The entries come under distinct keys, in an order that is not stated.
#[verifier::external_body]
fn map_from_slice(bytes: &[u8]) -> (r: Option<Vec<(String, String)>>)
    ensures
        match r {
            Some(rows) => distinct(rows@) && mapping_read(bytes@) == Some(text_map(map_of(rows@))),
            None => mapping_read(bytes@) is None,
        },
{
    let map = serde_json::from_slice::<std::collections::BTreeMap<String, String>>(bytes).ok()?;
    Some(map.into_iter().collect())
}

/// `serde_json::to_vec_pretty` on a map from text to text, which cannot fail: the
/// bytes that it writes read back as the same map. The order of the entries and
/// the white space between them are not stated.
#[verifier::external_body]
fn pretty_bytes(rows: &Vec<(String, String)>) -> (r: Vec<u8>)
    requires
        distinct(rows@),
    ensures
        mapping_read(r@) == Some(text_map(map_of(rows@))),
{
    let map: std::collections::BTreeMap<&String, &String> = rows.iter().map(|e| (&e.0, &e.1)).collect();
    serde_json::to_vec_pretty(&map).unwrap()
}

/// Reads a mapping from text to text out of JSON; nothing where it is none.
pub fn text_mapping(data: &[u8]) -> (r: Option<Table<String>>)
    ensures
        match r {
            Some(t) => mapping_read(data@) == Some(text_map(t@)),
            None => mapping_read(data@) is None,
        },
{
    match map_from_slice(data) {
        Some(rows) => Some(Table::from_rows(rows)),
        None => None,
    }
}

/// The bytes in which a mapping is saved.
pub fn mapping_bytes(t: &Table<String>) -> (r: Vec<u8>)
    ensures
        mapping_read(r@) == Some(text_map(t@)),
{
    pretty_bytes(&t.to_rows())
}

/// A mapping that was saved reads back as it was.
pub proof fn mappings_read_back(
    bytes: Seq<u8>,
    saved: Map<Seq<char>, String>,
    loaded: Map<Seq<char>, String>,
)
    requires
        mapping_read(bytes) == Some(text_map(saved)),
        mapping_read(bytes) == Some(text_map(loaded)),
    ensures
        loaded.dom() == saved.dom(),
        forall|k: Seq<char>| #[trigger] loaded.contains_key(k) ==> loaded[k]@ == saved[k]@,
{
    assert(text_map(saved).dom() =~= saved.dom());
    assert(text_map(loaded).dom() =~= loaded.dom());
    assert forall|k: Seq<char>| #[trigger] loaded.contains_key(k) implies loaded[k]@ == saved[k]@ by {
        assert(text_map(loaded)[k] == loaded[k]@);
        assert(text_map(saved)[k] == saved[k]@);
    }
}

} // verus!
