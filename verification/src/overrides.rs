//! Configuration overrides: a key with a value written as text.
//!
//! The text of a value is read as a TOML value where TOML can read it, so
//! that `5` is a number, `true` a boolean and `[1, 2]` an array. Text that
//! TOML cannot read is the value itself, as a string. Reading is the `toml`
//! crate's work: a value stays a `toml::Value`, what it holds is described
//! by [`TomlShape`], and the contracts of the calls into `toml` are stated
//! over that description and are not proved here.

use vstd::prelude::*;
use vstd::string::StringExecFns;

verus! {

/// One override: a key of the configuration, and its value as text.
#[derive(Debug, Clone, PartialEq, Eq)]
pub struct ConfigOverrideEntry {
    pub key: String,
    pub value: String,
}

/// What the host passes to start a conversation.
#[derive(Debug, Clone, PartialEq, Eq)]
pub struct CreateConversationOptions {
    pub overrides: Option<Vec<ConfigOverrideEntry>>,
}

/// What a TOML value holds. Floats and dates are not told apart.
pub enum TomlShape {
    Text(Seq<char>),
    Integer(int),
    Float,
    Boolean(bool),
    Datetime,
    Array(Seq<TomlShape>),
    Table(Map<Seq<char>, TomlShape>),
}

/// Makes `toml::Value` known as a type whose inside is not looked into.
#[verifier::external_type_specification]
#[verifier::external_body]
pub struct ExTomlValue(toml::Value);

/// What `value` holds.
pub uninterp spec fn toml_shape(value: toml::Value) -> TomlShape;

/// What `toml::from_str` reads from `text` as a `toml::Value`: the shape of
/// the document, or `None` where the text is not a TOML document.
pub uninterp spec fn toml_document(text: Seq<char>) -> Option<TomlShape>;

/// The entry `key` of a TOML table; `None` for a missing entry and for
/// anything that is not a table.
pub open spec fn toml_member(doc: TomlShape, key: Seq<char>) -> Option<TomlShape> {
    match doc {
        TomlShape::Table(entries) => if entries.dom().contains(key) {
            Some(entries[key])
        } else {
            None
        },
        _ => None,
    }
}

/// The key under which the text of a value is read.
pub const WRAP_KEY: &'static str = "_x_";

/// What is put before the text of a value to make a document of it.
pub const WRAP_PREFIX: &'static str = "_x_ = ";

/// The document that is read for the text of a value.
pub open spec fn wrapped(raw: Seq<char>) -> Seq<char> {
    WRAP_PREFIX@ + raw
}

/// The entry under the wrapping key in a document that was read.
pub open spec fn wrapped_member(doc: Option<TomlShape>) -> Option<TomlShape> {
    match doc {
        Some(doc) => toml_member(doc, WRAP_KEY@),
        None => None,
    }
}

/// The TOML value that the text of a value is read as, if TOML reads it.
pub open spec fn parsed_value(raw: Seq<char>) -> Option<TomlShape> {
    wrapped_member(toml_document(wrapped(raw)))
}

/// The value of an override, given what its text was read as: that value,
/// or the text itself as a string.
pub open spec fn value_or_text(parsed: Option<TomlShape>, raw: Seq<char>) -> TomlShape {
    match parsed {
        Some(value) => value,
        None => TomlShape::Text(raw),
    }
}

/// The value of an override with this text.
pub open spec fn override_value(raw: Seq<char>) -> TomlShape {
    value_or_text(parsed_value(raw), raw)
}

/// Calls `toml::from_str` for a `toml::Value`. The result is `Some`
/// exactly where the text is a TOML document, and its shape is the one
/// named by [`toml_document`].
#[verifier::external_body]
fn parse_document(text: &str) -> (doc: Option<toml::Value>)
    ensures
        match doc {
            Some(value) => toml_document(text@) == Some(toml_shape(value)),
            None => toml_document(text@) is None,
        },
{
    toml::from_str::<toml::Value>(text).ok()
}

/// Calls `toml::Value::get` with a string key and copies what it finds:
/// the entry of that name where `doc` is a table that has one, `None`
/// otherwise.
#[verifier::external_body]
fn entry(doc: &toml::Value, key: &str) -> (found: Option<toml::Value>)
    ensures
        match found {
            Some(value) => toml_member(toml_shape(*doc), key@) == Some(toml_shape(value)),
            None => toml_member(toml_shape(*doc), key@) is None,
        },
{
    doc.get(key).cloned()
}

/// Makes a `toml::Value::String` of `text`.
#[verifier::external_body]
fn text_value(text: String) -> (value: toml::Value)
    ensures
        toml_shape(value) == TomlShape::Text(text@),
{
    toml::Value::String(text)
}

/// The entry under the wrapping key of a document that was read, if the
/// document was read and has one.
pub fn take_wrapped(doc: Option<toml::Value>) -> (found: Option<toml::Value>)
    ensures
        match found {
            Some(value) => wrapped_member(
                match doc {
                    Some(d) => Some(toml_shape(d)),
                    None => None,
                },
            ) == Some(toml_shape(value)),
            None => wrapped_member(
                match doc {
                    Some(d) => Some(toml_shape(d)),
                    None => None,
                },
            ) is None,
        },
{
    match doc {
        Some(d) => entry(&d, WRAP_KEY),
        None => None,
    }
}

/// The value of an override, given what its text was read as.
pub fn parsed_or_text(parsed: Option<toml::Value>, raw: String) -> (value: toml::Value)
    ensures
        toml_shape(value) == value_or_text(
            match parsed {
                Some(v) => Some(toml_shape(v)),
                None => None,
            },
            raw@,
        ),
{
    match parsed {
        Some(value) => value,
        None => text_value(raw),
    }
}

/// Reads the text of a value as a TOML value. `None` where TOML cannot
/// read it.
pub fn parse_toml_value(raw: &str) -> (parsed: Option<toml::Value>)
    ensures
        match parsed {
            Some(value) => parsed_value(raw@) == Some(toml_shape(value)),
            None => parsed_value(raw@) is None,
        },
{
    let mut document = WRAP_PREFIX.to_owned();
    document.append(raw);
    take_wrapped(parse_document(document.as_str()))
}

/// The overrides as pairs of key and typed value, in the order given.
pub fn parse_overrides(entries: Vec<ConfigOverrideEntry>) -> (pairs: Vec<(String, toml::Value)>)
    ensures
        pairs.len() == entries.len(),
        forall|i: int|
            0 <= i < pairs.len() ==> (#[trigger] pairs[i]).0 == entries[i].key && toml_shape(
                pairs[i].1,
            ) == override_value(entries[i].value@),
{
    let mut pairs: Vec<(String, toml::Value)> = Vec::new();
    for item in it: entries
        invariant
            it.seq() == entries@,
            pairs.len() == it.index(),
            forall|i: int|
                0 <= i < pairs.len() ==> (#[trigger] pairs[i]).0 == entries[i].key && toml_shape(
                    pairs[i].1,
                ) == override_value(entries[i].value@),
    {
        let parsed = parse_toml_value(item.value.as_str());
        let value = parsed_or_text(parsed, item.value);
        pairs.push((item.key, value));
    }
    pairs
}

/// The overrides that the options hold, none where they hold none.
pub fn overrides_of(options: Option<CreateConversationOptions>) -> (entries: Vec<
    ConfigOverrideEntry,
>)
    ensures
        entries@ == match options {
            Some(CreateConversationOptions { overrides: Some(list) }) => list@,
            _ => Seq::<ConfigOverrideEntry>::empty(),
        },
{
    match options {
        Some(o) => match o.overrides {
            Some(list) => list,
            None => Vec::new(),
        },
        None => Vec::new(),
    }
}

} // verus!
