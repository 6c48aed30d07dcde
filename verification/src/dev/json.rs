//! Reading single values out of JSON text, through `serde_json`.
use vstd::prelude::*;

verus! {

/// The unsigned integer `serde_json` finds at the JSON pointer `pointer` in the
/// document `text`, if the text parses and the value there is one.
pub uninterp spec fn json_u64_at(text: Seq<char>, pointer: Seq<char>) -> Option<u64>;

/// Parses `text` with `serde_json::from_str` into a `serde_json::Value`, then
/// reads `Value::pointer(pointer)` and `Value::as_u64`. The contract names the
/// result; JSON and pointer syntax are not stated.
#[verifier::external_body]
pub(crate) fn json_pointer_u64(text: &str, pointer: &str) -> (r: Option<u64>)
    ensures
        r == json_u64_at(text@, pointer@),
{
    match serde_json::from_str::<serde_json::Value>(text) {
        Ok(value) => value.pointer(pointer).and_then(serde_json::Value::as_u64),
        Err(_) => None,
    }
}

} // verus!
