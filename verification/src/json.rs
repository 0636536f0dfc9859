//! Rendering a geolocation reply as JSON, straight into the response
//! buffer. The request text is echoed verbatim; the field order is
//! fixed; every field is written as a JSON string, the latitude and the
//! longitude included; an absent field is written as an empty string,
//! never as null and never left out.

use crate::buffer::buf_bytes;
use crate::buffer::buf_extend;
use crate::buffer::buf_with_capacity;
use crate::geo::GeoFields;
use crate::geo::GeoRecord;
use crate::geo::lookup_fields;
use vstd::prelude::*;

verus! {

use vstd::string::StringSliceAdditionalSpecFns;

/// The JSON document for a request text and the five field texts, as
/// bytes: the request text echoed verbatim first, then the five fields,
/// each quoted, in a fixed order.
pub open spec fn spec_geo_json(echo: Seq<u8>, f: GeoFields) -> Seq<u8> {
    "{\"ip\":\"".spec_bytes() + echo + "\",\"country_code\":\"".spec_bytes()
        + f.country_code + "\",\"country_name\":\"".spec_bytes() + f.country_name
        + "\",\"time_zone\":\"".spec_bytes() + f.time_zone + "\",\"latitude\":\"".spec_bytes()
        + f.latitude + "\",\"longitude\":\"".spec_bytes() + f.longitude + "\"}".spec_bytes()
}

/// The fixed document that answers a request whose text is not an
/// IP address.
pub open spec fn spec_error_body() -> Seq<u8> {
    "{\"error\":\"invalid ip\"}".spec_bytes()
}

fn extend_field(buf: &mut bytes::BytesMut, v: Option<&Vec<u8>>)
    ensures
        buf_bytes(*final(buf)) == buf_bytes(*old(buf)) + (match v {
            Some(b) => b@,
            None => Seq::<u8>::empty(),
        }),
{
    match v {
        Some(b) => buf_extend(buf, b.as_slice()),
        None => {
            proof {
                assert(buf_bytes(*buf) =~= buf_bytes(*old(buf)) + Seq::<u8>::empty());
            }
        },
    }
}

/// Render the reply document for a request text and what its lookup
/// yielded, into a fresh pre-sized buffer. The text is echoed verbatim;
/// a miss renders exactly as a record with every field absent.
pub fn build_geo_json(echo: &Vec<u8>, rec: Option<&GeoRecord>) -> (out: bytes::BytesMut)
    ensures
        buf_bytes(out) == spec_geo_json(echo@, lookup_fields(rec)),
{
    let (cc, cn, tz, la, lo): (
        Option<&Vec<u8>>,
        Option<&Vec<u8>>,
        Option<&Vec<u8>>,
        Option<&Vec<u8>>,
        Option<&Vec<u8>>,
    ) = match rec {
        Some(r) => (
            r.country_code.as_ref(),
            r.country_name.as_ref(),
            r.time_zone.as_ref(),
            r.latitude.as_ref(),
            r.longitude.as_ref(),
        ),
        None => (None, None, None, None, None),
    };
    let mut buf = buf_with_capacity(256);
    buf_extend(&mut buf, "{\"ip\":\"".as_bytes());
    buf_extend(&mut buf, echo.as_slice());
    buf_extend(&mut buf, "\",\"country_code\":\"".as_bytes());
    extend_field(&mut buf, cc);
    buf_extend(&mut buf, "\",\"country_name\":\"".as_bytes());
    extend_field(&mut buf, cn);
    buf_extend(&mut buf, "\",\"time_zone\":\"".as_bytes());
    extend_field(&mut buf, tz);
    buf_extend(&mut buf, "\",\"latitude\":\"".as_bytes());
    extend_field(&mut buf, la);
    buf_extend(&mut buf, "\",\"longitude\":\"".as_bytes());
    extend_field(&mut buf, lo);
    buf_extend(&mut buf, "\"}".as_bytes());
    proof {
        assert(buf_bytes(buf) =~= spec_geo_json(echo@, lookup_fields(rec)));
    }
    buf
}

/// Render the fixed invalid-address document into a fresh buffer.
pub fn build_error_body() -> (out: bytes::BytesMut)
    ensures
        buf_bytes(out) == spec_error_body(),
{
    let mut buf = buf_with_capacity(32);
    buf_extend(&mut buf, "{\"error\":\"invalid ip\"}".as_bytes());
    proof {
        assert(buf_bytes(buf) =~= spec_error_body());
    }
    buf
}

} // verus!
