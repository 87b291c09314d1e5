//! A JSON value as a record of named strings.

use vstd::prelude::*;

verus! {

#[verifier::external_type_specification]
#[verifier::external_body]
pub struct ExValue(serde_json::Value);

/// The string that the JSON object `json` holds under `key`; `None` where
/// `json` is no object, has no such key, or holds something other than a
/// string under it.
pub uninterp spec fn json_string_field(json: serde_json::Value, key: Seq<char>) -> Option<Seq<char>>;

/// `serde_json::Value::get` with a string key, then `Value::as_str`. Trusted:
/// the result is the named string field, copied.
#[verifier::external_body]
pub(crate) fn string_field(json: &serde_json::Value, key: &str) -> (found: Option<String>)
    ensures
        match found {
            Some(value) => json_string_field(*json, key@) == Some(value@),
            None => json_string_field(*json, key@).is_none(),
        },
{
    json.get(key).and_then(serde_json::Value::as_str).map(String::from)
}

} // verus!
