//! The request-handling path: parse the request text, short-circuit
//! loopback addresses, and render the reply, echoing the request text
//! verbatim. A request that needs a database lookup is handed back as a
//! parsed address beside the text to echo; the caller runs the lookup
//! and finishes the reply with `finish_lookup`.

use crate::buffer::buf_bytes;
use crate::geo::GeoFields;
use crate::geo::GeoRecord;
use crate::geo::empty_fields;
use crate::geo::lookup_fields;
use crate::ip::IpAddress;
use crate::ip::is_loopback;
use crate::ip::parse_ip_bytes;
use crate::ip::spec_is_loopback;
use crate::ip::spec_parse_ip;
use crate::json::build_error_body;
use crate::json::build_geo_json;
use crate::json::spec_error_body;
use crate::json::spec_geo_json;
use vstd::prelude::*;

verus! {

use vstd::string::StrSliceExecFns;
use vstd::string::StringSliceAdditionalSpecFns;

/// One HTTP reply: a status code and the reply document.
pub struct HttpReply {
    pub status: u16,
    pub body: bytes::BytesMut,
}

/// What handling a request text comes to before any lookup runs.
pub enum RequestOutcome {
    /// The text is not an IP address: reply 400 with the fixed error
    /// document.
    Invalid(HttpReply),
    /// The reply is complete without a lookup (a loopback address).
    Done(HttpReply),
    /// A valid non-loopback address: the caller must look it up and
    /// finish the reply with `finish_lookup`, handing it the request
    /// text to echo.
    NeedsLookup(IpAddress, Vec<u8>),
}

/// The status and the body that answer a request, as a function of the
/// request text and of the field texts its lookup would yield. The
/// request text itself is echoed in the body.
pub open spec fn spec_response(raw: Seq<u8>, f: GeoFields) -> (int, Seq<u8>) {
    match spec_parse_ip(raw) {
        None => (400, spec_error_body()),
        Some(ip) => (
            200,
            spec_geo_json(
                raw,
                if spec_is_loopback(ip) {
                    empty_fields()
                } else {
                    f
                },
            ),
        ),
    }
}

/// Handle a request text up to the point where a lookup would run.
/// Exactly the texts that fail IP parsing get the fixed 400 reply; a
/// loopback address gets its complete 200 reply, the request text
/// echoed verbatim and all fields empty, with no lookup; any other
/// address is handed back for its lookup, beside the request text.
pub fn handle_request(raw: &str) -> (r: RequestOutcome)
    ensures
        match spec_parse_ip(raw.spec_bytes()) {
            None => r matches RequestOutcome::Invalid(rep) && rep.status == 400 && buf_bytes(
                rep.body,
            ) == spec_error_body(),
            Some(ip) => if spec_is_loopback(ip) {
                r matches RequestOutcome::Done(rep) && rep.status == 200 && buf_bytes(rep.body)
                    == spec_geo_json(raw.spec_bytes(), empty_fields())
            } else {
                r matches RequestOutcome::NeedsLookup(out_ip, echo) && out_ip == ip && echo@
                    == raw.spec_bytes()
            },
        },
{
    let b = raw.as_bytes_vec();
    match parse_ip_bytes(&b) {
        None => RequestOutcome::Invalid(
            HttpReply { status: 400, body: build_error_body() },
        ),
        Some(ip) => {
            if is_loopback(&ip) {
                let body = build_geo_json(&b, None);
                RequestOutcome::Done(HttpReply { status: 200, body })
            } else {
                RequestOutcome::NeedsLookup(ip, b)
            }
        },
    }
}

/// Finish a request that needed a lookup: render the 200 reply echoing
/// the request text and whatever the lookup yielded. A miss renders
/// exactly as a record with every field absent — the reply never tells
/// the two apart.
pub fn finish_lookup(echo: &Vec<u8>, rec: Option<&GeoRecord>) -> (rep: HttpReply)
    ensures
        rep.status == 200,
        buf_bytes(rep.body) == spec_geo_json(echo@, lookup_fields(rec)),
{
    HttpReply { status: 200, body: build_geo_json(echo, rec) }
}

/// Replies are a function of the request text and of what the lookup
/// yields: repeated identical requests against an unchanged database
/// render byte-identical reply bodies.
pub proof fn lemma_response_deterministic(
    raw1: Seq<u8>,
    f1: GeoFields,
    raw2: Seq<u8>,
    f2: GeoFields,
)
    requires
        raw1 == raw2,
        f1 == f2,
    ensures
        spec_response(raw1, f1) == spec_response(raw2, f2),
{
}

/// A lookup miss renders exactly as a loopback reply for the same
/// request text: the text echoed, all five fields empty.
pub proof fn lemma_miss_renders_empty(echo: Seq<u8>)
    ensures
        spec_geo_json(echo, lookup_fields(None)) == spec_geo_json(echo, empty_fields()),
{
}

/// Handling plus lookup renders exactly `spec_response`: the 400 reply
/// for a text that does not parse, and the 200 document otherwise, with
/// the looked-up fields dropped for a loopback address.
pub proof fn lemma_handling_is_response(raw: Seq<u8>, rec: Option<&GeoRecord>)
    ensures
        match spec_parse_ip(raw) {
            None => spec_response(raw, lookup_fields(rec)) == (400int, spec_error_body()),
            Some(ip) => spec_response(raw, lookup_fields(rec)) == (
                200int,
                spec_geo_json(
                    raw,
                    if spec_is_loopback(ip) {
                        empty_fields()
                    } else {
                        lookup_fields(rec)
                    },
                ),
            ),
        },
{
}

} // verus!
