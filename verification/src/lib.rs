//! Decoder for the wire format of a DNS message: the fixed 12-byte header
//! and the question section that follows it (a length-prefixed label
//! sequence, then 16-bit type and class codes, all integers big-endian).

pub mod errors;
pub mod header;
pub mod question;
