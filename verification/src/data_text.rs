//! JSON and TOML texts: reading and writing them with `serde_json` and `toml`.

use crate::json::{Json, JsonNumber, JsonValue};
use crate::text_map::TextMap;
use crate::toml_document;
use crate::toml_value;
use crate::toml_value::{Toml, TomlFloat, TomlValue};
use toml::Value;
use vstd::prelude::*;

verus! {

/// A JSON value of `serde_json`, carried through without a look inside.
#[verifier::external_type_specification]
#[verifier::external_body]
pub struct ExSerdeValue(serde_json::Value);

/// A TOML value of `toml`, carried through without a look inside.
#[verifier::external_type_specification]
#[verifier::external_body]
pub struct ExTomlValue(toml::Value);

/// What `serde_json::from_str` reads in a text as a JSON value: nothing where
/// it refuses the text.
pub uninterp spec fn json_parsed(source: Seq<char>) -> Option<Json>;

/// The compact text that `serde_json` writes for a JSON value through
/// `Value::to_string`.
pub uninterp spec fn json_rendered(value: Json) -> Seq<char>;

/// The bytes that `serde_json::to_vec` writes for a JSON value.
pub uninterp spec fn json_serialized(value: Json) -> Seq<u8>;

/// What `toml` reads in a text as a document where a table of it holds the key by
/// which `toml` tells a date from a table, or the message of its error.
pub uninterp spec fn marked_toml_parsed(source: Seq<char>) -> Result<Toml, Seq<char>>;

/// What `toml` reads in a text as a document, or the message of its error: what
/// `toml_edit` reads in it, unless a table holds the key for dates.
pub open spec fn toml_parsed(source: Seq<char>) -> Result<Toml, Seq<char>> {
    match toml_document::document_parsed(source) {
        Err(message) => Err(message),
        Ok(entries) => if toml_value::is_plain(Toml::Table(entries)) {
            Ok(Toml::Table(entries))
        } else {
            marked_toml_parsed(source)
        },
    }
}

/// The value of this library with the content of a `serde_json::Value`. The
/// contract claims nothing: the functions that read a text state what comes out.
#[verifier::external_body]
fn value_from_serde(value: serde_json::Value) -> (r: JsonValue) {
    match value {
        serde_json::Value::Null => JsonValue::Null,
        serde_json::Value::Bool(b) => JsonValue::Bool(b),
        serde_json::Value::Number(n) => JsonValue::Number(
            n.as_i128().map_or_else(|| JsonNumber::Float(n.to_string()), JsonNumber::Integer),
        ),
        serde_json::Value::String(s) => JsonValue::Text(s),
        serde_json::Value::Array(a) => JsonValue::Array(a.into_iter().map(value_from_serde).collect()),
        serde_json::Value::Object(o) => JsonValue::Object(
            TextMap::from_pairs(o.into_iter().map(|(key, item)| (key, value_from_serde(item))).collect()),
        ),
    }
}

/// The `serde_json::Value` with the content of a number of this library. A number
/// with a fraction is read from its text by `str::parse`, which gives the closest
/// number, and so the one that the shortest text stands for. The contract claims
/// nothing: the functions that write a text state what comes out.
#[verifier::external_body]
fn number_to_serde(number: &JsonNumber) -> (r: serde_json::Value) {
    match number {
        JsonNumber::Integer(i) => serde_json::Number::from_i128(*i).map_or_else(|| serde_json::Value::String(i.to_string()), serde_json::Value::Number),
        JsonNumber::Float(f) => f.parse().ok().and_then(serde_json::Number::from_f64).map_or_else(|| serde_json::Value::String(f.clone()), serde_json::Value::Number),
    }
}

/// The `serde_json::Value` with the content of a value of this library. The
/// contract claims nothing: the functions that write a text state what comes out.
#[verifier::external_body]
fn value_to_serde(value: &JsonValue) -> (r: serde_json::Value) {
    match value {
        JsonValue::Null => serde_json::Value::Null,
        JsonValue::Bool(b) => serde_json::Value::Bool(*b),
        JsonValue::Number(n) => number_to_serde(n),
        JsonValue::Text(s) => serde_json::Value::String(s.clone()),
        JsonValue::Array(a) => serde_json::Value::Array(a.iter().map(value_to_serde).collect()),
        JsonValue::Object(o) => serde_json::Value::Object(o.keys.iter().cloned().zip(o.values.iter().map(value_to_serde)).collect()),
    }
}

/// Reads a JSON text with `serde_json::from_str`. The contract names the
/// outcome, as a function of the text.
#[verifier::external_body]
pub(crate) fn parse_json(source: &str) -> (r: Option<JsonValue>)
    ensures
        match r {
            Some(value) => json_parsed(source@) == Some(value@),
            None => json_parsed(source@) is None,
        },
{
    serde_json::from_str::<serde_json::Value>(source).ok().map(value_from_serde)
}

/// Writes a JSON value with `serde_json::Value::to_string`. The contract names
/// the text, as a function of what the value is.
#[verifier::external_body]
pub(crate) fn json_to_string(value: &JsonValue) -> (r: String)
    ensures
        r@ == json_rendered(value@),
{
    value_to_serde(value).to_string()
}

/// Writes a JSON value with `serde_json::to_vec`. The contract names the bytes, as a
/// function of what the value is, and says that there is no error: the keys are
/// texts, the numbers are finite, and writing into memory does not fail.
#[verifier::external_body]
pub(crate) fn json_to_vec(value: &JsonValue) -> (r: Result<Vec<u8>, String>)
    ensures
        r is Ok,
        r->Ok_0@ == json_serialized(value@),
{
    serde_json::to_vec(&value_to_serde(value)).map_err(|error| error.to_string())
}

/// What an outcome of reading TOML says.
pub open spec fn toml_result(r: Result<TomlValue, String>) -> Result<Toml, Seq<char>> {
    match r {
        Ok(value) => Ok(value@),
        Err(message) => Err(message@),
    }
}

/// The value of this library with the content of a `toml::Value`. The contract
/// claims nothing: `parse_toml` states what comes out.
#[verifier::external_body]
fn value_from_toml(value: toml::Value) -> (r: TomlValue) {
    match value {
        Value::String(s) => TomlValue::Text(s),
        Value::Integer(i) => TomlValue::Integer(i),
        Value::Float(f) => TomlValue::Float(
            serde_json::Number::from_f64(f).map_or_else(|| TomlFloat::NonFinite(f.to_string()), |n| TomlFloat::Finite(n.to_string())),
        ),
        Value::Boolean(b) => TomlValue::Boolean(b),
        Value::Datetime(d) => TomlValue::Datetime(d.to_string()),
        Value::Array(a) => TomlValue::Array(a.into_iter().map(value_from_toml).collect()),
        Value::Table(t) => TomlValue::Table(
            TextMap::from_pairs(t.into_iter().map(|(key, item)| (key, value_from_toml(item))).collect()),
        ),
    }
}

/// Reads a TOML document with the `toml` crate, which has `toml_edit` read the text
/// and takes over its error or its entries. The contract says that the outcome is
/// that of `toml_edit`, where no table holds the key for dates, and names it
/// elsewhere, as a function of the text.
#[verifier::external_body]
pub(crate) fn parse_toml(source: &str) -> (r: Result<TomlValue, String>)
    ensures
        toml_result(r) == match toml_document::document_parsed(source@) {
            Err(message) => Err(message),
            Ok(entries) => if toml_value::is_plain(Toml::Table(entries)) {
                Ok(Toml::Table(entries))
            } else {
                marked_toml_parsed(source@)
            },
        },
{
    source.parse::<toml::Value>().map(value_from_toml).map_err(|error| error.to_string())
}

} // verus!
