//! Request decoding: strict deserialization of one framed text payload
//! into the request record. The payload is a self-describing structured
//! text body of the form `{"job": <non-negative integer>}`; no other
//! attribute is read.

use vstd::prelude::*;

verus! {

/// A decoded request: one required attribute, the non-negative job
/// identifier. It lives only for one request/response cycle.
#[derive(Clone, Copy, Debug, PartialEq, Eq, Structural)]
pub struct Request {
    pub job: u32,
}

/// The job identifier that a strict parse of the payload text yields:
/// `Some(n)` when the text is a structured object whose `job` attribute is
/// a non-negative integer that fits in `u32`, `None` otherwise. The parse
/// is a function of the text alone.
pub uninterp spec fn json_job(s: Seq<char>) -> Option<u32>;

/// Relies on serde_json::from_str (to a `serde_json::Value`),
/// serde_json::Value::get and serde_json::Value::as_u64: a strict parse
/// of the text, its result a function of the text alone.
#[verifier::external_body]
fn decode_job(s: &str) -> (r: Option<u32>)
    ensures
        r == json_job(s@),
{
    let value: serde_json::Value = match serde_json::from_str(s) {
        Ok(v) => v,
        Err(_) => return None,
    };
    match value.get("job").and_then(serde_json::Value::as_u64) {
        Some(n) => u32::try_from(n).ok(),
        None => None,
    }
}

/// Strict decode of one inbound payload into a request record: `Some`
/// exactly when the payload parses to a job identifier, `None` exactly
/// when it is malformed.
pub fn decode_request(s: &str) -> (r: Option<Request>)
    ensures
        match r {
            Some(req) => json_job(s@) == Some(req.job),
            None => json_job(s@) is None,
        },
{
    match decode_job(s) {
        Some(job) => Some(Request { job }),
        None => None,
    }
}

} // verus!
