//! JSON documents as the `serde_json` crate reads them.
//!
//! A parsed document stays a `serde_json::Value`. What such a value holds is
//! described by [`JsonShape`], and the three operations this crate needs
//! (parse, look a member up, read a string) are calls into `serde_json`
//! whose contracts are stated over that description and are not proved here.

use vstd::prelude::*;

verus! {

/// What a JSON value holds. Numbers are not told apart.
pub enum JsonShape {
    Null,
    Bool(bool),
    Number,
    Text(Seq<char>),
    Array(Seq<JsonShape>),
    Object(Map<Seq<char>, JsonShape>),
}

/// Makes `serde_json::Value` known as a type whose inside is not looked
/// into.
#[verifier::external_type_specification]
#[verifier::external_body]
pub struct ExJsonValue(serde_json::Value);

/// What `value` holds.
pub uninterp spec fn json_shape(value: serde_json::Value) -> JsonShape;

/// What `serde_json::from_slice` reads from `bytes`: the shape of the
/// document, or `None` where the bytes are not one JSON document.
pub uninterp spec fn json_document(bytes: Seq<u8>) -> Option<JsonShape>;

/// The member `key` of a JSON object; `None` for a missing member and for
/// anything that is not an object.
pub open spec fn json_member(doc: JsonShape, key: Seq<char>) -> Option<JsonShape> {
    match doc {
        JsonShape::Object(members) => if members.dom().contains(key) {
            Some(members[key])
        } else {
            None
        },
        _ => None,
    }
}

/// The text of a JSON string; `None` for every other kind of value.
pub open spec fn json_text(doc: JsonShape) -> Option<Seq<char>> {
    match doc {
        JsonShape::Text(text) => Some(text),
        _ => None,
    }
}

/// Calls `serde_json::from_slice` for a `serde_json::Value`. The result is
/// `Some` exactly where the bytes are one JSON document, and its shape is
/// the one named by [`json_document`].
#[verifier::external_body]
pub(crate) fn parse_document(bytes: &[u8]) -> (doc: Option<serde_json::Value>)
    ensures
        match doc {
            Some(value) => json_document(bytes@) == Some(json_shape(value)),
            None => json_document(bytes@) is None,
        },
{
    serde_json::from_slice::<serde_json::Value>(bytes).ok()
}

/// Calls `serde_json::Value::get` with a string key: the member of that
/// name where `doc` is an object that has one, `None` otherwise.
#[verifier::external_body]
pub(crate) fn member<'a>(doc: &'a serde_json::Value, key: &str) -> (found: Option<
    &'a serde_json::Value,
>)
    ensures
        match found {
            Some(value) => json_member(json_shape(*doc), key@) == Some(json_shape(*value)),
            None => json_member(json_shape(*doc), key@) is None,
        },
{
    doc.get(key)
}

/// Calls `serde_json::Value::as_str`: the text where `doc` is a JSON
/// string, `None` otherwise.
#[verifier::external_body]
pub(crate) fn text(doc: &serde_json::Value) -> (found: Option<String>)
    ensures
        match found {
            Some(s) => json_text(json_shape(*doc)) == Some(s@),
            None => json_text(json_shape(*doc)) is None,
        },
{
    doc.as_str().map(|s| s.to_string())
}

} // verus!
