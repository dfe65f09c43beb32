//! Reading single fields out of JSON text.

use vstd::prelude::*;

verus! {

/// What a JSON document holds under a key, as far as it is read here.
#[derive(Debug)]
pub enum Field {
    /// A string.
    Text(String),
    /// An integer that is not negative and fits 64 bits.
    Number(u64),
    /// Anything else.
    Other,
}

/// A field as the contracts see it.
pub enum FieldView {
    Text(Seq<char>),
    Number(u64),
    Other,
}

impl View for Field {
    type V = FieldView;

    open spec fn view(&self) -> FieldView {
        match self {
            Field::Text(t) => FieldView::Text(t@),
            Field::Number(n) => FieldView::Number(*n),
            Field::Other => FieldView::Other,
        }
    }
}

/// What `field` finds in a body under a key: nothing at all where the body
/// is not JSON; no field where it is JSON but is no object or has no such
/// key; else what the object holds under the key.
pub uninterp spec fn json_field(body: Seq<char>, key: Seq<char>) -> Option<Option<FieldView>>;

/// What was found, or not, as the contracts see it.
pub open spec fn found_view(found: Result<Option<Field>, String>) -> Option<Option<FieldView>> {
    match found {
        Ok(Some(f)) => Some(Some(f@)),
        Ok(None) => Some(None),
        Err(_) => None,
    }
}

/// `serde_json::from_str` into a `serde_json::Value`, then `Value::get` with
/// the key. What is found is handed on by its kind: a string as it is, a
/// number by `Number::as_u64`. An error of the parser comes back as its
/// message. The result depends on the body and the key alone.
#[verifier::external_body]
pub(crate) fn field(body: &str, key: &str) -> (r: Result<Option<Field>, String>)
    ensures
        found_view(r) == json_field(body@, key@),
{
    let value: serde_json::Value = serde_json::from_str(body).map_err(|e| e.to_string())?;
    Ok(value.get(key).map(|found| match found {
        serde_json::Value::String(text) => Field::Text(text.clone()),
        serde_json::Value::Number(n) => n.as_u64().map_or(Field::Other, Field::Number),
        _ => Field::Other,
    }))
}

} // verus!
