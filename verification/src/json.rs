//! Access to the JSON wire format, through serde_json.
//!
//! Every request the broker reads is a single-line JSON object whose relevant
//! fields hold strings: a handshake carries `method` and `topic`, a publish
//! carries `message`. The one query the broker's logic needs is therefore
//! "the string field named `key` of the JSON text, if the text is an object
//! and has one": `string_field` answers it, and the uninterpreted
//! [`json_string_field`] names its outcome so that contracts can speak of it
//! exactly.

use vstd::prelude::*;

verus! {

/// The string field named `key` of the JSON text: its characters when the
/// text parses as a JSON object whose field `key` holds a string, and nothing
/// otherwise. The result depends on the text and the key alone.
pub uninterp spec fn json_string_field(text: Seq<char>, key: Seq<char>) -> Option<Seq<char>>;

/// Relies on `serde_json::from_str::<serde_json::Value>`, `Value::get` and
/// `Value::as_str`: parses the text as JSON and hands out its string field
/// named `key`, or nothing when the text is not valid JSON, not an object,
/// lacks the field, or holds a non-string there. The result depends on the
/// text and the key alone.
#[verifier::external_body]
pub(crate) fn string_field(text: &str, key: &str) -> (r: Option<String>)
    ensures
        match r {
            Some(s) => json_string_field(text@, key@) == Some(s@),
            None => json_string_field(text@, key@) is None,
        },
{
    match serde_json::from_str::<serde_json::Value>(text) {
        Ok(value) => match value.get(key) {
            Some(field) => match field.as_str() {
                Some(s) => Some(s.to_owned()),
                None => None,
            },
            None => None,
        },
        Err(_) => None,
    }
}

} // verus!
