//! YAML documents as the flattening rule reads them.
//!
//! Parsing is the work of the `serde_yaml_ng` crate. What it returns is
//! copied, node by node, into [`YamlValue`], which holds as plain values
//! all that the rest of the library looks at.

use crate::error::ServerError;
use serde_yaml_ng::{Number, Value};
use vstd::prelude::*;

verus! {

/// A YAML number. The three readings are those that the parser offers for
/// it: as a signed integer, as an unsigned integer, and as a float, each
/// present where the number has that reading.
#[derive(Clone, Debug, PartialEq, Eq)]
pub struct YamlNumber {
    /// The number as a signed 64-bit integer.
    pub as_i64: Option<i64>,
    /// The number as an unsigned 64-bit integer.
    pub as_u64: Option<u64>,
    /// The bits of the number as a 64-bit float.
    pub as_float_bits: Option<u64>,
    /// The number as the parser prints it.
    pub text: String,
}

/// One entry of a YAML mapping.
#[derive(Debug, PartialEq, Eq)]
pub struct YamlEntry {
    pub key: YamlValue,
    /// The key as the parser prints it for debugging.
    pub key_debug: String,
    pub value: YamlValue,
}

/// A YAML document or a part of one.
#[derive(Debug, PartialEq, Eq)]
pub enum YamlValue {
    Null,
    Bool(bool),
    Number(YamlNumber),
    String(String),
    Sequence(Vec<YamlValue>),
    /// The entries of a mapping, in the order of the document.
    Mapping(Vec<YamlEntry>),
    /// A value with a tag; the tag itself is not kept.
    Tagged(Box<YamlValue>),
}

/// The error of `serde_yaml_ng::from_str`.
#[verifier::external_type_specification]
#[verifier::external_body]
pub struct ExYamlError(serde_yaml_ng::Error);

/// A value as `serde_yaml_ng` parses it. It is only ever copied into a
/// [`YamlValue`].
#[verifier::external_type_specification]
#[verifier::external_body]
pub struct ExParsedValue(serde_yaml_ng::Value);

/// A number as `serde_yaml_ng` parses it. It is only ever copied into a
/// [`YamlNumber`].
#[verifier::external_type_specification]
#[verifier::external_body]
pub struct ExParsedNumber(serde_yaml_ng::Number);

/// The document that `serde_yaml_ng::from_str` reads from `text`, or `None`
/// where it reports an error.
pub uninterp spec fn yaml_document(text: Seq<char>) -> Option<YamlValue>;

/// Copies a number: its three readings by `Number::as_i64`, `as_u64` and
/// `as_f64`, and its text by `Display`.
#[verifier::external_body]
fn lower_number(n: &Number) -> YamlNumber {
    YamlNumber {
        as_i64: n.as_i64(),
        as_u64: n.as_u64(),
        as_float_bits: n.as_f64().map(|x| x.to_bits()),
        text: n.to_string(),
    }
}

/// Copies one entry of a mapping; the key is also kept as `Debug` prints it.
#[verifier::external_body]
fn lower_entry(entry: (&Value, &Value)) -> YamlEntry {
    YamlEntry {
        key: lower_value(entry.0),
        key_debug: format!("{:?}", entry.0),
        value: lower_value(entry.1),
    }
}

/// Copies a parsed value, variant by variant.
#[verifier::external_body]
fn lower_value(value: &Value) -> YamlValue {
    match value {
        Value::Null => YamlValue::Null,
        Value::Bool(b) => YamlValue::Bool(*b),
        Value::Number(n) => YamlValue::Number(lower_number(n)),
        Value::String(s) => YamlValue::String(s.clone()),
        Value::Sequence(items) => YamlValue::Sequence(items.iter().map(lower_value).collect()),
        Value::Mapping(m) => YamlValue::Mapping(m.iter().map(lower_entry).collect()),
        Value::Tagged(t) => YamlValue::Tagged(Box::new(lower_value(&t.value))),
    }
}

/// Parses `text` with `serde_yaml_ng::from_str` and copies the result. The
/// parser is deterministic: the same text gives the same document or fails.
#[verifier::external_body]
fn parse_yaml(text: &str) -> (r: Result<YamlValue, serde_yaml_ng::Error>)
    ensures
        r matches Ok(doc) ==> yaml_document(text@) == Some(doc),
        r is Err ==> yaml_document(text@) is None,
{
    match serde_yaml_ng::from_str::<Value>(text) {
        Ok(value) => Ok(lower_value(&value)),
        Err(e) => Err(e),
    }
}

/// The text of a parse error, by its `Display`.
#[verifier::external_body]
fn yaml_error_text(e: &serde_yaml_ng::Error) -> (r: String) {
    e.to_string()
}

/// Reads `text` as a YAML document. A text that is no YAML document is
/// reported as [`ServerError::Yaml`].
pub fn parse_document(text: &str) -> (r: Result<YamlValue, ServerError>)
    ensures
        r matches Ok(doc) ==> yaml_document(text@) == Some(doc),
        r matches Err(e) ==> yaml_document(text@) is None && e is Yaml,
{
    match parse_yaml(text) {
        Ok(doc) => Ok(doc),
        Err(e) => Err(ServerError::Yaml(yaml_error_text(&e))),
    }
}

} // verus!
