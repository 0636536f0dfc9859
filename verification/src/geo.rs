//! The geolocation attributes that a lookup yields for an address.

use vstd::prelude::*;

verus! {

/// The attributes a lookup yields for one address. Every field is
/// independently optional: a database entry may carry only some of them.
/// Each present field holds the UTF-8 bytes of its text; the latitude and
/// the longitude hold the decimal text of the stored number.
pub struct GeoRecord {
    pub country_code: Option<Vec<u8>>,
    pub country_name: Option<Vec<u8>>,
    pub time_zone: Option<Vec<u8>>,
    pub latitude: Option<Vec<u8>>,
    pub longitude: Option<Vec<u8>>,
}

/// The text of the five fields as they are written into a response:
/// an absent field is written as empty text.
#[verifier::ext_equal]
pub ghost struct GeoFields {
    pub country_code: Seq<u8>,
    pub country_name: Seq<u8>,
    pub time_zone: Seq<u8>,
    pub latitude: Seq<u8>,
    pub longitude: Seq<u8>,
}

pub open spec fn opt_bytes(v: Option<Vec<u8>>) -> Seq<u8> {
    match v {
        Some(b) => b@,
        None => Seq::<u8>::empty(),
    }
}

/// All five fields empty: what a loopback address or a lookup miss yields.
pub open spec fn empty_fields() -> GeoFields {
    GeoFields {
        country_code: Seq::<u8>::empty(),
        country_name: Seq::<u8>::empty(),
        time_zone: Seq::<u8>::empty(),
        latitude: Seq::<u8>::empty(),
        longitude: Seq::<u8>::empty(),
    }
}

impl GeoRecord {
    pub open spec fn fields(self) -> GeoFields {
        GeoFields {
            country_code: opt_bytes(self.country_code),
            country_name: opt_bytes(self.country_name),
            time_zone: opt_bytes(self.time_zone),
            latitude: opt_bytes(self.latitude),
            longitude: opt_bytes(self.longitude),
        }
    }
}

/// What a lookup outcome renders as: a miss renders exactly as a record
/// with every field absent.
pub open spec fn lookup_fields(rec: Option<&GeoRecord>) -> GeoFields {
    match rec {
        Some(r) => r.fields(),
        None => empty_fields(),
    }
}

} // verus!
