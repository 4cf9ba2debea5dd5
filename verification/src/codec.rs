//! Reading and writing JSON text. The text format itself is the work of
//! `serde_json`; this module names what it computes and converts between its
//! tree and [`Json`].
//!
//! `serde_json` is built with `preserve_order`, so that an object keeps its
//! members in the order of the document, and with `float_roundtrip`, so
//! that a number that was written reads back as the same number.
//!
//! What `json5` reads is not named: its outcome is no function of the text
//! alone.

use crate::json::{Json, JsonValue, Member};
use crate::text::utf8_text;
use vstd::prelude::*;

verus! {

/// The document tree of `serde_json`.
#[verifier::external_type_specification]
#[verifier::external_body]
pub struct ExValue(serde_json::Value);

/// The error of `serde_json`.
#[verifier::external_type_specification]
#[verifier::external_body]
pub struct ExError(serde_json::Error);

/// The error of `json5`.
#[verifier::external_type_specification]
#[verifier::external_body]
pub struct ExJson5Error(json5::Error);

/// Why a payload could not be read or written.
#[derive(Debug, Clone, Copy, PartialEq, Eq)]
pub enum JsonError {
    /// The payload is not a JSON document.
    InvalidJson,
    /// The payload is not UTF-8 text.
    InvalidUtf8,
    /// The patched document could not be written as JSON text.
    NotSerializable,
}

/// The document that `serde_json::from_slice` reads from `bytes`, `None`
/// where it reports an error.
pub uninterp spec fn parsed_bytes(bytes: Seq<u8>) -> Option<JsonValue>;

/// The document that `serde_json::from_str` reads from `text`, `None` where
/// it reports an error.
pub uninterp spec fn parsed_text(text: Seq<char>) -> Option<JsonValue>;

/// The compact JSON text that `serde_json::to_vec` writes for `doc`, `None`
/// where it reports an error.
pub uninterp spec fn written_bytes(doc: JsonValue) -> Option<Seq<u8>>;

/// The compact JSON text that `serde_json::to_string` writes for `doc`,
/// `None` where it reports an error.
pub uninterp spec fn written_text(doc: JsonValue) -> Option<Seq<char>>;

/// The bytes that a `serde_json::Serializer` with a `PrettyFormatter` of
/// indentation `indent` writes for `doc`, `None` where it reports an error.
pub uninterp spec fn pretty_bytes(doc: JsonValue, indent: Seq<char>) -> Option<Seq<u8>>;

/// The JSON text of `doc` over several lines, each level indented by one
/// more `indent`; `None` where it cannot be written, or is no text.
pub open spec fn pretty_text(doc: JsonValue, indent: Seq<char>) -> Option<Seq<char>> {
    match pretty_bytes(doc, indent) {
        Some(bytes) => if vstd::utf8::valid_utf8(bytes) {
            Some(vstd::utf8::decode_utf8(bytes))
        } else {
            None
        },
        None => None,
    }
}

/// The number that `serde_json::Number::from` makes of an unsigned integer.
pub uninterp spec fn unsigned_number(n: u64) -> serde_json::Number;

/// Moves a `serde_json::Value` into a [`Json`], variant by variant; object
/// members keep the order in which the map yields them.
#[verifier::external_body]
fn from_value(value: serde_json::Value) -> Json {
    match value {
        serde_json::Value::Null => Json::Null,
        serde_json::Value::Bool(b) => Json::Bool(b),
        serde_json::Value::Number(n) => Json::Number(n),
        serde_json::Value::String(s) => Json::Text(s),
        serde_json::Value::Array(items) => Json::Array(items.into_iter().map(from_value).collect()),
        serde_json::Value::Object(map) => Json::Object(
            map.into_iter().map(|(key, v)| Member { key, value: from_value(v) }).collect(),
        ),
    }
}

/// Copies a [`Json`] into a `serde_json::Value`, variant by variant; object
/// members are inserted in their order, so of two members with one name
/// the later value takes the earlier place.
#[verifier::external_body]
fn to_value(doc: &Json) -> serde_json::Value {
    match doc {
        Json::Null => serde_json::Value::Null,
        Json::Bool(b) => serde_json::Value::Bool(*b),
        Json::Number(n) => serde_json::Value::Number(n.clone()),
        Json::Text(s) => serde_json::Value::String(s.clone()),
        Json::Array(items) => serde_json::Value::Array(items.iter().map(to_value).collect()),
        Json::Object(members) => serde_json::Value::Object(
            members.iter().map(|m| (m.key.clone(), to_value(&m.value))).collect(),
        ),
    }
}

/// `serde_json::from_slice`, read as a `serde_json::Value`. The contract
/// claims only that the outcome is a function of the bytes.
#[verifier::external_body]
fn read_bytes(bytes: &[u8]) -> (r: Result<Json, serde_json::Error>)
    ensures
        match r {
            Ok(doc) => parsed_bytes(bytes@) == Some(doc@),
            Err(_) => parsed_bytes(bytes@) is None,
        },
{
    serde_json::from_slice::<serde_json::Value>(bytes).map(from_value)
}

/// `serde_json::from_str`, read as a `serde_json::Value`. The contract
/// claims only that the outcome is a function of the text.
#[verifier::external_body]
fn read_text(text: &str) -> (r: Result<Json, serde_json::Error>)
    ensures
        match r {
            Ok(doc) => parsed_text(text@) == Some(doc@),
            Err(_) => parsed_text(text@) is None,
        },
{
    serde_json::from_str::<serde_json::Value>(text).map(from_value)
}

/// `serde_json::to_vec`. The contract claims only that the outcome is a
/// function of the document.
#[verifier::external_body]
fn write_bytes(doc: &Json) -> (r: Result<Vec<u8>, serde_json::Error>)
    ensures
        match r {
            Ok(bytes) => written_bytes(doc@) == Some(bytes@),
            Err(_) => written_bytes(doc@) is None,
        },
{
    serde_json::to_vec(&to_value(doc))
}

/// `serde_json::to_string`. The contract claims only that the outcome is a
/// function of the document.
#[verifier::external_body]
fn write_text(doc: &Json) -> (r: Result<String, serde_json::Error>)
    ensures
        match r {
            Ok(text) => written_text(doc@) == Some(text@),
            Err(_) => written_text(doc@) is None,
        },
{
    serde_json::to_string(&to_value(doc))
}

/// `json5::from_str`, read as a `serde_json::Value`. Nothing is claimed of
/// the outcome: the parser gives up on a text when the stack that is left
/// to it runs short, so one text may be read by one call and refused by
/// another.
#[verifier::external_body]
fn read_json5(text: &str) -> Result<Json, json5::Error> {
    json5::from_str::<serde_json::Value>(text).map(from_value)
}

/// The message of a `json5::Error`, as its `Display` writes it.
#[verifier::external_body]
fn json5_message(error: &json5::Error) -> String {
    error.to_string()
}

/// Writes a document through a `serde_json::Serializer` that has a
/// `PrettyFormatter` with the given indentation. The contract claims only
/// that the outcome is a function of the document and the indentation.
#[verifier::external_body]
fn serialize_with_indent(value: &Json, indent: &str) -> (r: Result<Vec<u8>, serde_json::Error>)
    ensures
        match r {
            Ok(bytes) => pretty_bytes(value@, indent@) == Some(bytes@),
            Err(_) => pretty_bytes(value@, indent@) is None,
        },
{
    let mut buf = Vec::new();
    let formatter = serde_json::ser::PrettyFormatter::with_indent(indent.as_bytes());
    let mut ser = serde_json::Serializer::with_formatter(&mut buf, formatter);
    let done = serde::Serialize::serialize(&to_value(value), &mut ser);
    done.map(|_| buf)
}

/// `serde_json::Number::from` on a `u64`.
#[verifier::external_body]
fn number_from_u64(n: u64) -> (number: serde_json::Number)
    ensures
        number == unsigned_number(n),
{
    serde_json::Number::from(n)
}

impl Json {
    /// Reads a JSON document from bytes.
    pub fn from_slice(bytes: &[u8]) -> (r: Result<Json, JsonError>)
        ensures
            match r {
                Ok(doc) => parsed_bytes(bytes@) == Some(doc@),
                Err(e) => e == JsonError::InvalidJson && parsed_bytes(bytes@) is None,
            },
    {
        match read_bytes(bytes) {
            Ok(doc) => Ok(doc),
            Err(_) => Err(JsonError::InvalidJson),
        }
    }

    /// Reads a JSON document from text.
    pub fn from_text(text: &str) -> (r: Result<Json, JsonError>)
        ensures
            match r {
                Ok(doc) => parsed_text(text@) == Some(doc@),
                Err(e) => e == JsonError::InvalidJson && parsed_text(text@) is None,
            },
    {
        match read_text(text) {
            Ok(doc) => Ok(doc),
            Err(_) => Err(JsonError::InvalidJson),
        }
    }

    /// Writes this document as compact JSON text, in bytes.
    pub fn to_bytes(&self) -> (r: Result<Vec<u8>, JsonError>)
        ensures
            match r {
                Ok(bytes) => written_bytes(self@) == Some(bytes@),
                Err(e) => e == JsonError::NotSerializable && written_bytes(self@) is None,
            },
    {
        match write_bytes(self) {
            Ok(bytes) => Ok(bytes),
            Err(_) => Err(JsonError::NotSerializable),
        }
    }

    /// Writes this document as compact JSON text.
    pub fn to_text(&self) -> (r: Result<String, JsonError>)
        ensures
            match r {
                Ok(text) => written_text(self@) == Some(text@),
                Err(e) => e == JsonError::NotSerializable && written_text(self@) is None,
            },
    {
        match write_text(self) {
            Ok(text) => Ok(text),
            Err(_) => Err(JsonError::NotSerializable),
        }
    }

    /// Reads a document from JSON5 text: JSON with comments, trailing
    /// commas and the like. Where the parser refuses the text, its message
    /// is handed back. Whether a text is read is the parser's to say, and
    /// may differ from call to call; what is done with either outcome is
    /// stated where the outcome is used.
    pub fn from_json5(text: &str) -> Result<Json, String> {
        match read_json5(text) {
            Ok(doc) => Ok(doc),
            Err(error) => Err(json5_message(&error)),
        }
    }

    /// Writes this document as JSON text over several lines, each level
    /// indented by one more `indent`.
    pub fn to_pretty_text(&self, indent: &str) -> (r: Result<String, JsonError>)
        ensures
            match r {
                Ok(text) => pretty_text(self@, indent@) == Some(text@),
                Err(e) => pretty_text(self@, indent@) is None && e == if pretty_bytes(
                    self@,
                    indent@,
                ) is None {
                    JsonError::NotSerializable
                } else {
                    JsonError::InvalidUtf8
                },
            },
    {
        match serialize_with_indent(self, indent) {
            Ok(bytes) => match utf8_text(bytes.as_slice()) {
                Some(text) => Ok(text.to_owned()),
                None => Err(JsonError::InvalidUtf8),
            },
            Err(_) => Err(JsonError::NotSerializable),
        }
    }

    /// The JSON number `n`.
    pub fn unsigned(n: u64) -> (doc: Json)
        ensures
            doc@ == JsonValue::Number(unsigned_number(n)),
    {
        Json::Number(number_from_u64(n))
    }
}

} // verus!
