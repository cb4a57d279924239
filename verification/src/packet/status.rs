//! The status response an older client is shown.
//!
//! The server always reports its own protocol, so an older client would draw
//! the server as incompatible even though it can join; the response is
//! rewritten to report the client's own version.

use vstd::prelude::*;
use crate::codec::{prefixed_bytes, read_string, rest_of, string_at, write_prefixed};
use crate::version::JavaMinecraftVersion;

verus! {

/// A JSON value of `serde_json`.
#[verifier::external_type_specification]
#[verifier::external_body]
pub struct ExJsonValue(serde_json::Value);

/// A JSON object of `serde_json`.
#[verifier::external_type_specification]
#[verifier::external_body]
#[verifier::reject_recursive_types(Key)]
#[verifier::reject_recursive_types(Val)]
pub struct ExJsonMap<Key, Val>(serde_json::Map<Key, Val>);

/// Whether `serde_json` reads the bytes as one JSON document.
pub uninterp spec fn json_parses(bytes: Seq<u8>) -> bool;

/// `serde_json::from_slice` into a `Value`: the document the bytes hold,
/// `None` where they hold none.
#[verifier::external_body]
fn parse_json(bytes: &[u8]) -> (r: Option<serde_json::Value>)
    ensures
        r is Some <==> json_parses(bytes@),
{
    serde_json::from_slice(bytes).ok()
}

/// `Value::get_mut` with a key: the member `key` of an object, `None` for
/// a missing member or a value that is no object.
#[verifier::external_body]
fn member_mut<'a>(value: &'a mut serde_json::Value, key: &str) -> (r: Option<&'a mut serde_json::Value>)
{
    value.get_mut(key)
}

/// `Value::as_object_mut`: the object a value is, `None` for another kind.
#[verifier::external_body]
fn object_mut<'a>(value: &'a mut serde_json::Value) -> (r: Option<&'a mut serde_json::Map<String, serde_json::Value>>)
{
    value.as_object_mut()
}

/// `Map::insert` of a number under `key`, replacing what was there.
#[verifier::external_body]
fn insert_number(object: &mut serde_json::Map<String, serde_json::Value>, key: String, n: u32)
{
    object.insert(key, serde_json::Value::from(n));
}

/// `Map::insert` of a string under `key`, replacing what was there.
#[verifier::external_body]
fn insert_text(object: &mut serde_json::Map<String, serde_json::Value>, key: String, text: String)
{
    object.insert(key, serde_json::Value::from(text));
}

/// `serde_json::to_string`: the document as text, `None` where it cannot be
/// printed.
#[verifier::external_body]
fn print_json(value: &serde_json::Value) -> (r: Option<String>)
{
    serde_json::to_string(value).ok()
}

/// Rewrites `version.protocol` and `version.name` of a status response to
/// `version`'s own, so the client sees itself as compatible. `None` where
/// the payload does not start with a string, the string is no JSON document
/// or has no `version` object, or the document cannot be printed again;
/// otherwise the rewritten document as one string.
pub fn rewrite_status_response(payload: &[u8], version: JavaMinecraftVersion) -> (r: Option<Vec<u8>>)
    ensures
        string_at(rest_of(payload@, 0)) is None ==> r is None,
        string_at(rest_of(payload@, 0)) matches Some((json, _)) && !json_parses(json) ==> r is None,
        r is Some ==> (string_at(rest_of(payload@, 0)) matches Some((json, _)) && json_parses(json)),
        r matches Some(out) ==> exists|text: Seq<u8>| text.len() <= i32::MAX && out@ == prefixed_bytes(text),
{
    let (json, _) = match read_string(payload, 0) {
        Some(found) => found,
        None => return None,
    };
    let mut value = match parse_json(json.as_slice()) {
        Some(v) => v,
        None => return None,
    };
    match member_mut(&mut value, "version") {
        Some(entry) => match object_mut(entry) {
            Some(object) => {
                insert_number(object, "protocol".to_string(), version.protocol_version());
                insert_text(object, "name".to_string(), version.name().to_string());
            },
            None => return None,
        },
        None => return None,
    }
    let text = match print_json(&value) {
        Some(t) => t,
        None => return None,
    };
    let bytes = text.as_str().as_bytes();
    if bytes.len() > i32::MAX as usize {
        return None;
    }
    let mut out: Vec<u8> = Vec::new();
    write_prefixed(&mut out, bytes);
    assert(out@ =~= prefixed_bytes(bytes@));
    Some(out)
}

} // verus!
