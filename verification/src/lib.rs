//! Protocol engine for a u-blox GPS receiver: NMEA sentence framing and
//! decoding, UBX binary packet decoding, and aggregation of decoded messages
//! into one live navigation snapshot.

pub mod datetime;
pub mod dms;
pub mod fields;
pub mod gps;
pub mod info;
pub mod nmea_data;
pub mod nmea_types;
pub mod num;
pub mod sentence;
pub mod ubx;
