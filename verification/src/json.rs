//! JSON values as far as the settings need them.

use serde_json::Value;
use vstd::prelude::*;

verus! {

/// A JSON value. What no setting can hold is kept as its JSON text.
#[derive(Debug)]
pub enum JsonValue {
    Null,
    Bool(bool),
    /// A whole number from zero up to `u64::MAX`.
    Number(u64),
    Text(String),
    List(Vec<JsonEntry>),
    /// Any other number, or an object.
    Further(String),
}

/// An entry of a list.
#[derive(Debug)]
pub enum JsonEntry {
    Text(String),
    /// Anything but a string, as its JSON text.
    Further(String),
}

/// A JSON value with its text as sequences.
pub enum JsonView {
    Null,
    Bool(bool),
    Number(u64),
    Text(Seq<char>),
    List(Seq<EntryView>),
    Further(Seq<char>),
}

/// An entry of a list with its text as a sequence.
pub enum EntryView {
    Text(Seq<char>),
    Further(Seq<char>),
}

impl View for JsonEntry {
    type V = EntryView;

    open spec fn view(&self) -> EntryView {
        match self {
            JsonEntry::Text(s) => EntryView::Text(s@),
            JsonEntry::Further(s) => EntryView::Further(s@),
        }
    }
}

/// A list's entries.
pub open spec fn entries_view(entries: Seq<JsonEntry>) -> Seq<EntryView> {
    entries.map_values(|e: JsonEntry| e@)
}

impl View for JsonValue {
    type V = JsonView;

    open spec fn view(&self) -> JsonView {
        match self {
            JsonValue::Null => JsonView::Null,
            JsonValue::Bool(b) => JsonView::Bool(*b),
            JsonValue::Number(n) => JsonView::Number(*n),
            JsonValue::Text(s) => JsonView::Text(s@),
            JsonValue::List(v) => JsonView::List(entries_view(v@)),
            JsonValue::Further(s) => JsonView::Further(s@),
        }
    }
}

pub open spec fn opt_json(v: Option<JsonValue>) -> Option<JsonView> {
    match v {
        Some(j) => Some(j@),
        None => None,
    }
}

impl JsonView {
    /// Whether a setting can hold the value, so that it is ever written.
    pub open spec fn is_whole(self) -> bool {
        match self {
            JsonView::List(v) => forall|i: int| 0 <= i < v.len() ==> (#[trigger] v[i]) is Text,
            JsonView::Further(_) => false,
            _ => true,
        }
    }
}

/// The value that a text states, as `serde_json::from_str` reads it; none where the
/// text is not JSON.
pub uninterp spec fn parsed_json(text: Seq<char>) -> Option<JsonView>;

/// The text of a value, as `serde_json::to_string` writes it.
pub uninterp spec fn json_text(value: JsonView) -> Seq<char>;

/// `serde_json::from_str` into a `serde_json::Value`. The result is a function of the
/// text, and none where the text is not JSON. What it is on a given text is left
/// unsaid. What no setting can hold comes with its text as `serde_json` writes it.
#[verifier::external_body]
fn from_json(text: &str) -> (r: Option<JsonValue>)
    ensures
        opt_json(r) == parsed_json(text@),
{
    Some(match serde_json::from_str::<Value>(text).ok()? {
        Value::Null => JsonValue::Null,
        Value::Bool(b) => JsonValue::Bool(b),
        Value::Number(n) => match n.as_u64() {
            Some(u) => JsonValue::Number(u),
            None => JsonValue::Further(n.to_string()),
        },
        Value::String(s) => JsonValue::Text(s),
        Value::Array(v) => JsonValue::List(v.into_iter().map(|e| match e {
            Value::String(s) => JsonEntry::Text(s),
            e => JsonEntry::Further(e.to_string()),
        }).collect()),
        Value::Object(o) => JsonValue::Further(Value::Object(o).to_string()),
    })
}

/// `serde_json::to_string` of a `serde_json::Value`. The result is a function of the
/// value, and is read back as the same value.
#[verifier::external_body]
fn to_json(value: &JsonValue) -> (r: String)
    requires
        value@.is_whole(),
    ensures
        r@ == json_text(value@),
        parsed_json(r@) == Some(value@),
{
    let v = match value {
        JsonValue::Null => Value::Null,
        JsonValue::Bool(b) => Value::from(*b),
        JsonValue::Number(n) => Value::from(*n),
        JsonValue::Text(s) | JsonValue::Further(s) => Value::from(s.as_str()),
        JsonValue::List(v) => v.iter().map(|e| match e {
            JsonEntry::Text(s) | JsonEntry::Further(s) => s.as_str(),
        }).collect(),
    };
    serde_json::to_string(&v).unwrap_or_default()
}

impl JsonValue {
    /// Read a value out of JSON text.
    pub fn parse(text: &str) -> (r: Option<JsonValue>)
        ensures
            opt_json(r) == parsed_json(text@),
    {
        from_json(text)
    }

    /// The value as JSON text.
    pub fn write(&self) -> (r: String)
        requires
            self@.is_whole(),
        ensures
            r@ == json_text(self@),
            parsed_json(r@) == Some(self@),
    {
        to_json(self)
    }
}

} // verus!
