//! JSON values of `serde_json`, seen through a mathematical model.
//!
//! A `serde_json::Value` is opaque to the verifier. [`json_model`] names what
//! a value holds, and the functions below say what each call does to it.

use serde_json::Value;
use vstd::prelude::*;
use vstd::utf8::valid_utf8;

verus! {

/// A JSON value.
pub enum JsonModel {
    Null,
    Bool(bool),
    /// A number written without sign, fraction or exponent.
    Unsigned(u64),
    /// A number below zero written without fraction or exponent.
    Negative(i64),
    /// Any other number, by the text that it is rendered as.
    Float(Seq<char>),
    Text(Seq<char>),
    Array(Seq<JsonModel>),
    Object(Map<Seq<char>, JsonModel>),
}

/// The members of a JSON object.
pub type JsonFields = serde_json::Map<String, Value>;

/// The members of a JSON object, by name.
pub type JsonMembers = Map<Seq<char>, JsonModel>;

/// What parsing gives: a value, or the reason why there is none.
pub type JsonResult = Result<JsonModel, Seq<char>>;

/// How deep arrays and objects may nest in a text that is parsed.
pub open spec fn json_depth() -> nat {
    127
}

/// The member called `key`, where the value is an object that has one.
pub open spec fn member(m: JsonModel, key: Seq<char>) -> Option<JsonModel> {
    match m {
        JsonModel::Object(fields) => if fields.dom().contains(key) {
            Some(fields[key])
        } else {
            None
        },
        _ => None,
    }
}

/// The text of a JSON string.
pub open spec fn text_of(m: JsonModel) -> Option<Seq<char>> {
    match m {
        JsonModel::Text(s) => Some(s),
        _ => None,
    }
}

/// The number, where the value is one that a `u64` holds.
pub open spec fn number_of(m: JsonModel) -> Option<u64> {
    match m {
        JsonModel::Unsigned(n) => Some(n),
        _ => None,
    }
}

/// The name that a parse does not take for that of a member.
pub open spec fn raw_value_key() -> Seq<char> {
    "$serde_json::private::RawValue"@
}

/// Whether a value nests no deeper than `depth`, holds no fractional number and
/// has no member called [`raw_value_key`]: rendering and parsing such a value
/// loses nothing.
pub open spec fn exact_json(m: JsonModel, depth: nat) -> bool
    decreases depth,
{
    match m {
        JsonModel::Float(_) => false,
        JsonModel::Negative(n) => n < 0,
        JsonModel::Array(items) => depth > 0 && forall|i: int|
            0 <= i < items.len() ==> exact_json(#[trigger] items[i], (depth - 1) as nat),
        JsonModel::Object(fields) => depth > 0 && fields.dom().finite() && forall|k: Seq<char>|
            fields.dom().contains(k) ==> k != raw_value_key() && exact_json(
                #[trigger] fields[k],
                (depth - 1) as nat,
            ),
        _ => true,
    }
}

#[verifier::external_type_specification]
#[verifier::external_body]
pub struct ExValue(serde_json::Value);

#[verifier::external_type_specification]
#[verifier::external_body]
#[verifier::reject_recursive_types(K)]
#[verifier::reject_recursive_types(V)]
pub struct ExFields<K, V>(serde_json::Map<K, V>);

/// What a `serde_json::Value` holds.
pub uninterp spec fn json_model(v: Value) -> JsonModel;

/// What a `serde_json::Map` holds.
pub uninterp spec fn json_members(m: JsonFields) -> JsonMembers;

/// What `serde_json::from_str` makes of a text: the value, or the error as it
/// is displayed.
pub uninterp spec fn json_parsed(text: Seq<char>) -> JsonResult;

/// What `serde_json::from_slice` makes of a run of bytes: the value, or the
/// error as it is displayed.
pub uninterp spec fn json_parsed_bytes(bytes: Seq<u8>) -> JsonResult;

/// The compact text that a value is displayed as.
pub uninterp spec fn json_rendered(m: JsonModel) -> Seq<char>;

/// `serde_json::from_str::<Value>`, with the error as it is displayed.
#[verifier::external_body]
pub(crate) fn parse_json(text: &str) -> (r: Result<Value, String>)
    ensures
        match r {
            Ok(v) => json_parsed(text@) == JsonResult::Ok(json_model(v)),
            Err(e) => json_parsed(text@) == JsonResult::Err(e@),
        },
{
    serde_json::from_str::<Value>(text).map_err(|e| e.to_string())
}

/// `serde_json::from_slice::<Value>`, with the error as it is displayed. Nothing
/// but UTF-8 is taken for JSON: strings are checked for it, and ASCII is all
/// that may stand outside them.
#[verifier::external_body]
pub(crate) fn parse_json_bytes(bytes: &[u8]) -> (r: Result<Value, String>)
    ensures
        match r {
            Ok(v) => json_parsed_bytes(bytes@) == JsonResult::Ok(json_model(v)),
            Err(e) => json_parsed_bytes(bytes@) == JsonResult::Err(e@),
        },
        r is Ok ==> valid_utf8(bytes@),
{
    serde_json::from_slice::<Value>(bytes).map_err(|e| e.to_string())
}

/// `Value::to_string`: the compact text of a value. The text depends on what
/// the value holds alone, since objects are kept in the order of their keys,
/// and parsing it gives the value back unless it holds fractional numbers, nests
/// deeper than a parse follows, or has a member of the name that a parse gives a
/// meaning of its own.
#[verifier::external_body]
pub(crate) fn render_json(v: &Value) -> (r: String)
    ensures
        r@ == json_rendered(json_model(*v)),
        exact_json(json_model(*v), json_depth()) ==> json_parsed(r@) == JsonResult::Ok(
            json_model(*v),
        ),
{
    v.to_string()
}

/// `Value::String`: a JSON string.
#[verifier::external_body]
pub(crate) fn json_text(s: &str) -> (r: Value)
    ensures
        json_model(r) == JsonModel::Text(s@),
{
    Value::String(s.to_owned())
}

/// `Value::from(u16)`: a JSON number.
#[verifier::external_body]
pub(crate) fn json_number(n: u16) -> (r: Value)
    ensures
        json_model(r) == JsonModel::Unsigned(n as u64),
{
    Value::from(n)
}

/// `Value::Object`: the object with the given members.
#[verifier::external_body]
pub(crate) fn json_object(fields: JsonFields) -> (r: Value)
    ensures
        json_model(r) == JsonModel::Object(json_members(fields)),
{
    Value::Object(fields)
}

/// `Value::get` with a string, copied: the member of that name.
#[verifier::external_body]
pub(crate) fn json_member(v: &Value, key: &str) -> (r: Option<Value>)
    ensures
        match r {
            Some(x) => member(json_model(*v), key@) == Some(json_model(x)),
            None => member(json_model(*v), key@) is None,
        },
{
    v.get(key).cloned()
}

/// `Value::as_str`, copied: the text of a JSON string.
#[verifier::external_body]
pub(crate) fn json_as_text(v: &Value) -> (r: Option<String>)
    ensures
        match r {
            Some(s) => text_of(json_model(*v)) == Some(s@),
            None => text_of(json_model(*v)) is None,
        },
{
    v.as_str().map(|s| s.to_owned())
}

/// `Value::as_u64`: the number, where a `u64` holds it.
#[verifier::external_body]
pub(crate) fn json_as_u64(v: &Value) -> (r: Option<u64>)
    ensures
        r == number_of(json_model(*v)),
{
    v.as_u64()
}

/// `serde_json::Map::new`: no members.
#[verifier::external_body]
pub(crate) fn no_fields() -> (r: JsonFields)
    ensures
        json_members(r) == JsonMembers::empty(),
{
    serde_json::Map::new()
}

/// `serde_json::Map::insert`: sets a member, in place of one of the same name.
#[verifier::external_body]
pub(crate) fn put_field(fields: &mut JsonFields, key: &str, value: Value)
    ensures
        json_members(*final(fields)) == json_members(*old(fields)).insert(
            key@,
            json_model(value),
        ),
{
    fields.insert(key.to_owned(), value);
}

/// `serde_json::Map::is_empty`.
#[verifier::external_body]
pub(crate) fn is_without_fields(fields: &JsonFields) -> (r: bool)
    ensures
        r == (json_members(*fields) == JsonMembers::empty()),
{
    fields.is_empty()
}

} // verus!
