use vstd::prelude::*;

use crate::json::{from_serde, keys_unique, to_serde, JsonValue};

verus! {

#[verifier::external_type_specification]
#[verifier::external_body]
pub struct ExSerdeJsonError(serde_json::Error);

#[verifier::external_type_specification]
#[verifier::external_body]
pub struct ExSerdeJsonValue(serde_json::Value);

/// The JSON value that serde_json reads from `text`, if the text is JSON.
pub uninterp spec fn parsed(text: Seq<char>) -> Option<JsonValue>;

/// The compact JSON text that serde_json writes for `v`.
pub uninterp spec fn printed(v: JsonValue) -> Seq<char>;

/// Relies on `serde_json::from_str` into `serde_json::Value`: parses `text`
/// as one JSON value, keeping the order of object keys, or fails. Equal texts
/// give equal values. Objects come from `serde_json::Map`, whose keys are
/// unique.
#[verifier::external_body]
pub(crate) fn parse_json(text: &str) -> (r: Result<JsonValue, serde_json::Error>)
    ensures
        r is Ok <==> parsed(text@) is Some,
        r is Ok ==> r->Ok_0 == parsed(text@)->Some_0,
        r is Ok && r->Ok_0 is Object ==> keys_unique(r->Ok_0->Object_0@),
{
    serde_json::from_str::<serde_json::Value>(text).map(from_serde)
}

/// Relies on `serde_json::to_string` of a `serde_json::Value`: writes `v` as
/// compact JSON text. It succeeds: a `Value` has string keys and finite
/// numbers only, and every `JsonNumber`'s text reads as a number.
#[verifier::external_body]
pub(crate) fn print_json(v: JsonValue) -> (r: Result<String, serde_json::Error>)
    ensures
        r is Ok,
        r is Ok ==> r->Ok_0@ == printed(v),
{
    to_serde(v).and_then(|s| serde_json::to_string(&s))
}

} // verus!
