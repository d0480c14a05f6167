//! Framing codec for length-prefixed, type-tagged, checksummed data chunks
//! in the style of PNG container records.
//!
//! `chunk_type` holds the four-byte type code and its flags; `chunk` holds
//! the record itself, with construction, parsing and serialisation.

pub mod chunk;
pub mod chunk_type;
pub mod error;
