//! A codec for checksummed, tagged binary records laid out like PNG chunks:
//! a big-endian length, a four-byte type tag, the payload and a CRC-32.

pub mod chunk;
pub mod chunk_type;
pub mod laws;
