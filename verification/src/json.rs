//! JSON documents, as far as the stream decoder reads them.
//!
//! Parsing is done by `serde_json`. A parsed document is a
//! `serde_json::Value`, which the verifier cannot look into; [`JsonValue`] is
//! its mathematical model, and the functions of this module are the only
//! places where the two are related. Their contracts are believed, not
//! proved.

use vstd::prelude::*;

verus! {

/// The mathematical model of a JSON document.
pub enum JsonValue {
    /// `null`.
    Null,
    /// `true` or `false`.
    Bool(bool),
    /// A number. `unsigned` is its value where the document holds it as an
    /// unsigned integer of 64 bits, which is how a plain integer from 0 to
    /// 2^64 - 1 is read; a number that is negative, beyond that range, or
    /// written with a fraction or an exponent has `None` there.
    Number { unsigned: Option<u64> },
    /// A string.
    String(Seq<char>),
    /// An array, in document order.
    Array(Seq<JsonValue>),
    /// An object: its keys and the member each of them names.
    Object(Map<Seq<char>, JsonValue>),
}

impl JsonValue {
    /// The member that `key` names, where `self` is an object that has one.
    pub open spec fn member(self, key: Seq<char>) -> Option<JsonValue> {
        match self {
            JsonValue::Object(members) => if members.dom().contains(key) {
                Some(members[key])
            } else {
                None
            },
            _ => None,
        }
    }

    /// The text, where `self` is a string.
    pub open spec fn text(self) -> Option<Seq<char>> {
        match self {
            JsonValue::String(s) => Some(s),
            _ => None,
        }
    }

    /// The value, where `self` is an unsigned integer that fits 64 bits.
    pub open spec fn unsigned(self) -> Option<u64> {
        match self {
            JsonValue::Number { unsigned } => unsigned,
            _ => None,
        }
    }

    /// The elements, where `self` is an array.
    pub open spec fn items(self) -> Option<Seq<JsonValue>> {
        match self {
            JsonValue::Array(items) => Some(items),
            _ => None,
        }
    }
}

/// `serde_json::Value`, a parsed document, as an opaque type.
#[verifier::external_type_specification]
#[verifier::external_body]
pub struct ExValue(serde_json::Value);

/// `serde_json::Error`, the reason why a text is no document, as an opaque
/// type.
#[verifier::external_type_specification]
#[verifier::external_body]
pub struct ExError(serde_json::Error);

/// The document that a `serde_json::Value` holds.
pub uninterp spec fn json_model(v: serde_json::Value) -> JsonValue;

/// The document that `serde_json::from_slice` reads from `text`, or `None`
/// where it reports an error.
pub uninterp spec fn json_text(text: Seq<u8>) -> Option<JsonValue>;

/// The documents that a sequence of values holds, one by one.
pub open spec fn json_models(vs: Seq<serde_json::Value>) -> Seq<JsonValue> {
    vs.map_values(|v: serde_json::Value| json_model(v))
}

/// `serde_json::from_slice::<serde_json::Value>`: parses the whole of `text`
/// as one JSON document. The result depends on `text` alone; the contract
/// names it and says that the value returned holds that document.
#[verifier::external_body]
pub(crate) fn parse(text: &[u8]) -> (r: Result<serde_json::Value, serde_json::Error>)
    ensures
        match r {
            Ok(v) => json_text(text@) == Some(json_model(v)),
            Err(_) => json_text(text@) is None,
        },
{
    serde_json::from_slice::<serde_json::Value>(text)
}

/// `serde_json::Value::get` with a string index: the member of an object
/// that `key` names; `None` for a key that the object lacks and for a value
/// that is no object.
#[verifier::external_body]
pub(crate) fn get<'a>(v: &'a serde_json::Value, key: &str) -> (r: Option<&'a serde_json::Value>)
    ensures
        match r {
            Some(m) => json_model(*v).member(key@) == Some(json_model(*m)),
            None => json_model(*v).member(key@) is None,
        },
{
    v.get(key)
}

/// `serde_json::Value::as_str`: the text of a string, `None` for any other
/// value.
#[verifier::external_body]
pub(crate) fn as_str<'a>(v: &'a serde_json::Value) -> (r: Option<&'a str>)
    ensures
        match r {
            Some(s) => json_model(*v).text() == Some(s@),
            None => json_model(*v).text() is None,
        },
{
    v.as_str()
}

/// `serde_json::Value::as_u64`: the value of a number that is an unsigned
/// integer of at most 64 bits, `None` for any other value.
#[verifier::external_body]
pub(crate) fn as_u64(v: &serde_json::Value) -> (r: Option<u64>)
    ensures
        r == json_model(*v).unsigned(),
{
    v.as_u64()
}

/// `serde_json::Value::as_array`: the elements of an array, `None` for any
/// other value.
#[verifier::external_body]
pub(crate) fn as_array<'a>(v: &'a serde_json::Value) -> (r: Option<&'a Vec<serde_json::Value>>)
    ensures
        match r {
            Some(items) => json_model(*v).items() == Some(json_models(items@)),
            None => json_model(*v).items() is None,
        },
{
    v.as_array()
}

/// `serde_json::Value::is_null`: whether the value is `null`.
#[verifier::external_body]
pub(crate) fn is_null(v: &serde_json::Value) -> (r: bool)
    ensures
        r == (json_model(*v) is Null),
{
    v.is_null()
}

/// `serde_json::Value::is_object`: whether the value is an object.
#[verifier::external_body]
pub(crate) fn is_object(v: &serde_json::Value) -> (r: bool)
    ensures
        r == (json_model(*v) is Object),
{
    v.is_object()
}

} // verus!
