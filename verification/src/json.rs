//! Trusted shims over `serde_json`. The JSON tree type is opaque to the
//! verifier: values of it are carried through the library and handed back
//! to `serde_json` for parsing, serialization and shape inspection.

use vstd::prelude::*;

verus! {

#[verifier::external_type_specification]
#[verifier::external_body]
pub struct ExValue(serde_json::Value);

/// Whether the bytes are a well-formed JSON document, a function of the
/// bytes alone.
pub uninterp spec fn json_wf(b: Seq<u8>) -> bool;

/// Relies on `serde_json::from_slice::<Value>`: parsing succeeds exactly
/// when the bytes are well-formed JSON; the error is rendered as text.
#[verifier::external_body]
pub fn parse_json(b: &[u8]) -> (r: Result<serde_json::Value, String>)
    ensures
        r is Ok <==> json_wf(b@),
{
    serde_json::from_slice::<serde_json::Value>(b).map_err(|e| e.to_string())
}

/// Relies on `serde_json::to_string`: the compact serialization of the
/// tree, as bytes. Serializing a `Value` cannot fail — its object keys
/// are strings and its `Serialize` never errs — so the result is always
/// `Ok`; the `Result` shape is kept for the callers' error paths.
#[verifier::external_body]
pub fn json_to_bytes(v: &serde_json::Value) -> (r: Result<Vec<u8>, String>)
    ensures
        r is Ok,
{
    match serde_json::to_string(v) {
        Ok(s) => Ok(s.into_bytes()),
        Err(e) => Err(e.to_string()),
    }
}

/// Relies on `Value::clone`: the clone is the same tree.
#[verifier::external_body]
pub fn clone_value(v: &serde_json::Value) -> (r: serde_json::Value)
    ensures
        r == *v,
{
    v.clone()
}

/// The JSON string value wrapping the given text, a function of the text
/// alone.
pub uninterp spec fn json_str_of(s: Seq<char>) -> serde_json::Value;

/// Relies on `Value::String`: wraps text as a JSON string value.
#[verifier::external_body]
pub fn json_string(s: String) -> (r: serde_json::Value)
    ensures
        r == json_str_of(s@),
{
    serde_json::Value::String(s)
}

/// Relies on `Value::Null`.
#[verifier::external_body]
pub fn json_null() -> (r: serde_json::Value) {
    serde_json::Value::Null
}

/// Relies on `Value::Array`: wraps the items, in order.
#[verifier::external_body]
pub fn json_array(items: Vec<serde_json::Value>) -> (r: serde_json::Value) {
    serde_json::Value::Array(items)
}

/// Relies on `serde_json::Map::insert` and `Value::Object`: builds an
/// object holding the given entries (later duplicates override earlier).
#[verifier::external_body]
pub fn json_object(entries: Vec<(String, serde_json::Value)>) -> (r: serde_json::Value) {
    serde_json::Value::Object(entries.into_iter().collect())
}

/// Relies on `Value::Object` and `serde_json::Map::iter`: the object's
/// entries in the map's order, or nothing if the value is not an object.
#[verifier::external_body]
pub fn object_entries(v: &serde_json::Value) -> (r: Option<Vec<(String, serde_json::Value)>>) {
    match v {
        serde_json::Value::Object(m) => Some(
            m.iter().map(|(k, val)| (k.clone(), val.clone())).collect(),
        ),
        _ => None,
    }
}

/// The shape of a JSON value as header material: a string, an array (with
/// only its string elements kept, position by position), or anything else.
pub enum HeaderShape {
    Str(String),
    List(Vec<Option<String>>),
    Other,
}

/// The mathematical value of a classified shape.
pub enum HeaderShapeV {
    Str(Seq<char>),
    List(Seq<Option<Seq<char>>>),
    Other,
}

impl View for HeaderShape {
    type V = HeaderShapeV;

    open spec fn view(&self) -> HeaderShapeV {
        match self {
            HeaderShape::Str(s) => HeaderShapeV::Str(s@),
            HeaderShape::List(items) => HeaderShapeV::List(items.deep_view()),
            HeaderShape::Other => HeaderShapeV::Other,
        }
    }
}

impl DeepView for HeaderShape {
    type V = HeaderShapeV;

    open spec fn deep_view(&self) -> HeaderShapeV {
        self@
    }
}

/// Relies on matching `Value`'s variants: classifies a value as header
/// material, moving the strings out.
#[verifier::external_body]
pub fn header_shape(v: &serde_json::Value) -> (r: HeaderShape) {
    match v {
        serde_json::Value::String(s) => HeaderShape::Str(s.clone()),
        serde_json::Value::Array(items) => HeaderShape::List(
            items.iter().map(|x| match x {
                serde_json::Value::String(s) => Some(s.clone()),
                _ => None,
            }).collect(),
        ),
        _ => HeaderShape::Other,
    }
}

/// Relies on matching `Value::String`: the text if the value is a string.
#[verifier::external_body]
pub fn value_as_string(v: &serde_json::Value) -> (r: Option<String>) {
    match v {
        serde_json::Value::String(s) => Some(s.clone()),
        _ => None,
    }
}

/// Relies on `Value::as_u64`: the value if it is a non-negative integer.
#[verifier::external_body]
pub fn value_as_u64(v: &serde_json::Value) -> (r: Option<u64>) {
    v.as_u64()
}

/// Relies on `Value::as_bool`: the value if it is a boolean.
#[verifier::external_body]
pub fn value_as_bool(v: &serde_json::Value) -> (r: Option<bool>) {
    v.as_bool()
}

} // verus!
