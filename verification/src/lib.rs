//! A small geolocation service library: IP-address text parsing and
//! canonical formatting, the loopback rule, and a direct-to-buffer JSON
//! encoder for geolocation responses.

pub mod buffer;
pub mod geo;
pub mod handler;
pub mod ip;
pub mod json;
