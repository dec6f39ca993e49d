//! Decoding of NMEA-0183 style navigation sentences into structured records.
//!
//! The crate splits one sentence into positional fields and decodes them with
//! a small set of primitive field decoders: optional numerals, sexagesimal
//! coordinates, a composite date-time, and single-letter enumerations. The
//! exemplar sentence handler is the Recommended-Minimum (RMC) handler.

pub mod digits;
pub mod scan;
pub mod tokenize;
pub mod errors;
pub mod numeral;
pub mod coord;
pub mod datetime;
pub mod rmc;
pub mod sentence;
