//! On-disk record formats of a log-structured key-value store.
//!
//! Two record shapes are defined, both with big-endian, fixed-width integer
//! fields:
//!
//! * the *data record*, which carries a key and a value behind a CRC-32
//!   checksum and is appended to the value log;
//! * the *hint record*, which points at a data record in the log (or marks a
//!   key as deleted) and lets the key index be rebuilt without reading the
//!   values.
//!
//! Decoding and checking are two steps. A decode fails only where the bytes
//! end before the record does; a record whose bytes were damaged decodes, and
//! [`schema::DataEntry::check_crc`] tells. A scanner can so tell the end of a
//! log from a corrupt entry in it.
//!
//! The modules, bottom up:
//!
//! * [`wire`]: big-endian integer fields;
//! * [`checksum`]: CRC-32, its definition and the digest the records use;
//! * [`reader`]: the byte source that decoding consumes, and its error;
//! * [`layout`]: the two formats as mathematics;
//! * [`schema`]: the executable records, verified against [`layout`];
//! * [`laws`]: what holds of the formats: round trips, truncation, detection
//!   of corruption, the tombstone rule.

pub mod checksum;
pub mod laws;
pub mod layout;
pub mod reader;
pub mod schema;
pub mod wire;
