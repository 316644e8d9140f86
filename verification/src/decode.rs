//! Decoding a raw secret payload into a flat string-to-string mapping.
//!
//! An absent payload decodes to an empty mapping; a present payload must be a
//! JSON object of string values, and anything else is a decode failure.
use std::collections::HashMap;

use vstd::prelude::*;

use crate::errors::RetrievalError;

verus! {

/// The parse of `s` as a JSON object of string-to-string pairs, when `s` is
/// one. The parse is a function of the characters alone.
pub uninterp spec fn json_string_map_of(s: Seq<char>) -> Option<Map<String, String>>;

#[verifier::external_type_specification]
#[verifier::external_body]
pub struct ExJsonError(serde_json::Error);

/// Relies on `serde_json::from_str`: the parse depends on the characters of
/// the input alone, succeeds exactly on JSON objects whose values are all
/// strings, and then yields the object's key/value pairs.
#[verifier::external_body]
fn parse_json_string_map(s: &str) -> (r: Result<HashMap<String, String>, serde_json::Error>)
    ensures
        r is Ok <==> json_string_map_of(s@) is Some,
        r matches Ok(m) ==> json_string_map_of(s@) matches Some(sm) && m@ == sm,
{
    serde_json::from_str(s)
}

/// Decodes the raw payload of a secret: an absent payload yields the empty
/// mapping, a present payload is parsed as a JSON object of strings, and any
/// other payload is reported as a JSON decode failure.
pub fn get_secret_value_as_map(raw: Option<String>) -> (r: Result<
    HashMap<String, String>,
    RetrievalError,
>)
    ensures
        raw is None ==> (r matches Ok(m) && m@ == Map::<String, String>::empty()),
        raw matches Some(s) ==> match r {
            Ok(m) => json_string_map_of(s@) matches Some(sm) && m@ == sm,
            Err(e) => json_string_map_of(s@) is None && e is Json,
        },
{
    match raw {
        Option::None => Ok(HashMap::new()),
        Option::Some(s) => match parse_json_string_map(s.as_str()) {
            Ok(m) => Ok(m),
            Err(_) => Err(RetrievalError::Json),
        },
    }
}

} // verus!
