//! The JSON reader behind map records.
//!
//! A map record holds one JSON object. Reading it is the work of
//! `serde_json`; nothing here is proved about what that crate does.

use crate::error::ErrorKind;
use vstd::prelude::*;

verus! {

/// A JSON object as `serde_json` holds it.
pub type JsonMap = serde_json::Map<String, serde_json::Value>;

/// `serde_json::Error`, of which nothing is known but that it is one.
#[verifier::external_type_specification]
#[verifier::external_body]
pub struct ExJsonError(serde_json::Error);

/// `serde_json::Value`, carried through unread.
#[verifier::external_type_specification]
#[verifier::external_body]
pub struct ExJsonValue(serde_json::Value);

/// `serde_json::Map`, carried through unread.
#[verifier::external_type_specification]
#[verifier::external_body]
#[verifier::reject_recursive_types(K)]
#[verifier::reject_recursive_types(V)]
pub struct ExJsonMap<K, V>(serde_json::Map<K, V>);

/// What a JSON object holds: under each key, the JSON text of its value.
pub uninterp spec fn json_entries(map: serde_json::Map<String, serde_json::Value>) -> Map<
    Seq<char>,
    Seq<char>,
>;

/// What `serde_json` reads as a map from the start of `record`: the
/// object's entries, or nothing where it reads no map.
pub uninterp spec fn json_map_of(record: Seq<u8>) -> Option<Map<Seq<char>, Seq<char>>>;

/// Reads `record` with `serde_json::Deserializer::from_slice` and its
/// `deserialize_map`, through the `Deserialize` impl of `serde_json::Map`.
/// Claimed: whether the call succeeds, and what the map holds that comes
/// back, depend on the bytes alone.
#[verifier::external_body]
pub(crate) fn json_map_from_slice(record: &[u8]) -> (r: Result<JsonMap, serde_json::Error>)
    ensures
        r.is_ok() == json_map_of(record@).is_some(),
        r matches Ok(m) ==> json_map_of(record@) == Some(json_entries(m)),
{
    let mut d = serde_json::Deserializer::from_slice(record);
    serde::Deserialize::deserialize(&mut d)
}

/// The outcome of reading a nested JSON record, in the codec's own error
/// kinds: what was read stays, a rejection becomes `DecodeNestedJson`.
pub fn nested<T>(r: Result<T, serde_json::Error>) -> (out: Result<T, ErrorKind>)
    ensures
        match r {
            Ok(v) => out == Ok::<T, ErrorKind>(v),
            Err(_) => out == Err::<T, ErrorKind>(ErrorKind::DecodeNestedJson),
        },
{
    match r {
        Ok(v) => Ok(v),
        Err(_) => Err(ErrorKind::DecodeNestedJson),
    }
}

} // verus!
