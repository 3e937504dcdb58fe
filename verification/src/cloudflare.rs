//! Provider API payloads and response parsing.
//!
//! The reconciliation session (see `reconciler`) decides which calls to
//! make; this module builds their URLs and JSON bodies and digests their
//! JSON responses into plain values.  What serde_json computes is captured
//! by named results over the response text, so every parser's contract
//! pins its outcome; the HTTP transport itself is outside the library.

use vstd::prelude::*;
use crate::reconciler::CloudflareApiError;

verus! {

use vstd::string::StringExecFns;

broadcast use vstd::string::group_string_axioms;

/// Whether serde_json parses this text as one JSON value.
pub uninterp spec fn json_ok(r: Seq<char>) -> bool;

/// Whether the text is a well-shaped listing response: a JSON object
/// whose `result` is an array of objects each carrying a string `id`.
pub uninterp spec fn listing_ok(r: Seq<char>) -> bool;

/// The record ids of a well-shaped listing response, in response order.
pub uninterp spec fn listing_ids(r: Seq<char>) -> Seq<Seq<char>>;

/// Whether the text is a well-shaped mutation response: a JSON object
/// whose `result` carries a string `id`.
pub uninterp spec fn result_id_ok(r: Seq<char>) -> bool;

/// The id of the affected record in a well-shaped mutation response.
pub uninterp spec fn result_id(r: Seq<char>) -> Seq<char>;

/// The serialized `{type, name, content, ttl, comment}` record body.
pub uninterp spec fn record_body_bytes(
    rtype: Seq<char>,
    name: Seq<char>,
    content: Seq<char>,
    ttl: u16,
    comment: Seq<char>,
) -> Seq<u8>;

/// Relies on serde_json::from_str and Value::{get, as_array, as_str}:
/// the id strings under the response's `result` array, a function of the
/// response text alone.  `Err(Some(_))` carries serde_json's message for
/// a text that is not JSON; `Err(None)` marks JSON of the wrong shape.
#[verifier::external_body]
fn decode_listing(response: &str) -> (r: Result<Vec<String>, Option<String>>)
    ensures
        r is Ok <==> listing_ok(response@),
        r matches Ok(v) ==> v@.map_values(|s: String| s@) == listing_ids(response@),
        r matches Err(e) ==> (e is Some <==> !json_ok(response@)),
{
    let v: serde_json::Value =
        serde_json::from_str(response).map_err(|e| Some(format!("{}", e)))?;
    v.get("result")
        .and_then(|x| x.as_array())
        .and_then(|a| {
            a.iter()
                .map(|i| i.get("id").and_then(|x| x.as_str()).map(str::to_string))
                .collect::<Option<Vec<String>>>()
        })
        .ok_or(None)
}

/// Relies on serde_json::from_str and Value::{get, as_str}: the string
/// under the response's `result.id`, a function of the response text
/// alone.  Errors as in `decode_listing`.
#[verifier::external_body]
fn decode_result_id(response: &str) -> (r: Result<String, Option<String>>)
    ensures
        r is Ok <==> result_id_ok(response@),
        r matches Ok(v) ==> v@ == result_id(response@),
        r matches Err(e) ==> (e is Some <==> !json_ok(response@)),
{
    let v: serde_json::Value =
        serde_json::from_str(response).map_err(|e| Some(format!("{}", e)))?;
    v.get("result")
        .and_then(|x| x.get("id"))
        .and_then(|x| x.as_str())
        .map(str::to_string)
        .ok_or(None)
}

/// Relies on serde_json::{Map::new, Map::insert, Value construction,
/// to_vec}: the serialized record object, a function of the five fields
/// alone (the map serializes its members in a fixed order).
#[verifier::external_body]
fn encode_record_body(rtype: &str, name: &str, content: &str, ttl: u16, comment: &str) -> (r:
    Vec<u8>)
    ensures
        r@ == record_body_bytes(rtype@, name@, content@, ttl, comment@),
{
    let mut m = serde_json::Map::new();
    m.insert("type".to_string(), serde_json::Value::String(rtype.to_string()));
    m.insert("name".to_string(), serde_json::Value::String(name.to_string()));
    m.insert("content".to_string(), serde_json::Value::String(content.to_string()));
    m.insert("ttl".to_string(), serde_json::Value::Number(ttl.into()));
    m.insert("comment".to_string(), serde_json::Value::String(comment.to_string()));
    serde_json::to_vec(&serde_json::Value::Object(m)).unwrap_or_default()
}

/// The comment written on every managed record, so an operator can tell
/// where it came from.
pub open spec fn record_comment_text() -> Seq<char> {
    "Managed by cloudflare-cname-switcher v0.1.0"@
}

/// Build the comment written on every managed record.
pub fn record_comment() -> (r: String)
    ensures
        r@ == record_comment_text(),
{
    "Managed by cloudflare-cname-switcher v0.1.0".to_owned()
}

/// The URL that lists the records under the managed name.
pub fn records_query_url(zone_id: &str, record: &str) -> (r: String)
    ensures
        r@ == "https://api.cloudflare.com/client/v4/zones/"@ + zone_id@ + "/dns_records?name="@
            + record@,
{
    let mut out: String = "https://api.cloudflare.com/client/v4/zones/".to_owned();
    out.append(zone_id);
    out.append("/dns_records?name=");
    out.append(record);
    out
}

/// The URL records are created under.
pub fn records_url(zone_id: &str) -> (r: String)
    ensures
        r@ == "https://api.cloudflare.com/client/v4/zones/"@ + zone_id@ + "/dns_records"@,
{
    let mut out: String = "https://api.cloudflare.com/client/v4/zones/".to_owned();
    out.append(zone_id);
    out.append("/dns_records");
    out
}

/// The URL of one record, for patching or deleting.
pub fn record_url(zone_id: &str, record_id: &str) -> (r: String)
    ensures
        r@ == "https://api.cloudflare.com/client/v4/zones/"@ + zone_id@ + "/dns_records/"@
            + record_id@,
{
    let mut out: String = "https://api.cloudflare.com/client/v4/zones/".to_owned();
    out.append(zone_id);
    out.append("/dns_records/");
    out.append(record_id);
    out
}

/// The JSON body that creates or patches one record: its type, name,
/// content, TTL, and the managing comment.
pub fn record_body(rtype: &str, name: &str, content: &str, ttl: u16) -> (r: Vec<u8>)
    ensures
        r@ == record_body_bytes(rtype@, name@, content@, ttl, record_comment_text()),
{
    let comment = record_comment();
    encode_record_body(rtype, name, content, ttl, comment.as_str())
}

/// The record type an address is published as.
pub fn address_record_type(ip: &crate::ip::IpAddress) -> (r: &'static str)
    ensures
        r@ == match ip {
            crate::ip::IpAddress::V4(_) => "A"@,
            crate::ip::IpAddress::V6(_) => "AAAA"@,
        },
{
    match ip {
        crate::ip::IpAddress::V4(_) => "A",
        crate::ip::IpAddress::V6(_) => "AAAA",
    }
}

/// Read the record ids out of a listing response.  It succeeds exactly on
/// a well-shaped listing and then returns exactly its ids, in order; a
/// text that is not JSON is a parse error, JSON of the wrong shape a
/// schema error.
pub fn extract_record_ids(response: &str) -> (r: Result<Vec<String>, CloudflareApiError>)
    ensures
        r is Ok <==> listing_ok(response@),
        r matches Ok(v) ==> v@.map_values(|s: String| s@) == listing_ids(response@),
        r matches Err(e) ==> {
            &&& e is JsonParseError <==> !json_ok(response@)
            &&& e is SchemaParseError <==> json_ok(response@) && !listing_ok(response@)
        },
{
    match decode_listing(response) {
        Ok(ids) => Ok(ids),
        Err(Some(detail)) => Err(CloudflareApiError::JsonParseError(detail)),
        Err(None) => Err(CloudflareApiError::SchemaParseError),
    }
}

/// Read the id of the affected record out of a create, patch or delete
/// response.  It succeeds exactly on a well-shaped mutation response and
/// then returns exactly its `result.id`; errors as in
/// `extract_record_ids`.
pub fn extract_result_id(response: &str) -> (r: Result<String, CloudflareApiError>)
    ensures
        r is Ok <==> result_id_ok(response@),
        r matches Ok(v) ==> v@ == result_id(response@),
        r matches Err(e) ==> {
            &&& e is JsonParseError <==> !json_ok(response@)
            &&& e is SchemaParseError <==> json_ok(response@) && !result_id_ok(response@)
        },
{
    match decode_result_id(response) {
        Ok(id) => Ok(id),
        Err(Some(detail)) => Err(CloudflareApiError::JsonParseError(detail)),
        Err(None) => Err(CloudflareApiError::SchemaParseError),
    }
}

/// Check a deletion response: it is accepted exactly when the provider
/// acknowledges the record that was asked to be deleted.
pub fn verify_delete_response(response: &str, record_id: &str) -> (r: Result<
    (),
    CloudflareApiError,
>)
    ensures
        r is Ok <==> result_id_ok(response@) && result_id(response@) == record_id@,
{
    match extract_result_id(response) {
        Ok(id) => {
            if id == record_id.to_owned() {
                Ok(())
            } else {
                Err(CloudflareApiError::SchemaParseError)
            }
        },
        Err(e) => Err(e),
    }
}

} // verus!
