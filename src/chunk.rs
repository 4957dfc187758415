//! A checksummed record: construction, parsing and serialization.
use vstd::prelude::*;
use vstd::slice::slice_to_vec;
use vstd::utf8::{decode_utf8, valid_utf8};
use std::string::FromUtf8Error;
use crate::chunk_type::{ChunkType, lemma_tag_len, utf8_to_string};

verus! {

broadcast use lemma_tag_len;

/// The CRC-32/ISO-HDLC checksum of `bytes`, as the `crc` crate computes it.
pub uninterp spec fn crc32_iso_hdlc(bytes: Seq<u8>) -> u32;

/// Relies on `crc::Crc::<u32>::checksum` with the `CRC_32_ISO_HDLC` algorithm:
/// the checksum is a function of the bytes alone.
#[verifier::external_body]
fn crc32_of(bytes: &[u8]) -> (r: u32)
    ensures
        r == crc32_iso_hdlc(bytes@),
{
    crc::Crc::<u32>::new(&crc::CRC_32_ISO_HDLC).checksum(bytes)
}

/// Why a record could not be built or parsed.
#[derive(Debug, Clone, Copy, PartialEq, Eq, Structural)]
pub enum ChunkError {
    /// The buffer ends before a field that the record needs.
    TruncatedInput,
    /// The stored checksum differs from the one computed over tag and payload.
    ChecksumMismatch,
    /// The payload is longer than a 32-bit length field can state.
    LengthOverflow,
}

/// The integer that four bytes give when read big-endian.
pub open spec fn be_u32(b: Seq<u8>) -> u32 {
    ((b[0] as u32) << 24u32) | ((b[1] as u32) << 16u32) | ((b[2] as u32) << 8u32) | (b[3] as u32)
}

/// The four big-endian bytes of `x`.
pub open spec fn u32_be_bytes(x: u32) -> Seq<u8> {
    seq![(x >> 24u32) as u8, (x >> 16u32) as u8, (x >> 8u32) as u8, x as u8]
}

/// The fields of a record.
pub struct ChunkView {
    pub length: u32,
    pub chunk_type: Seq<u8>,
    pub data: Seq<u8>,
    pub crc: u32,
}

/// The checksum that a record with this tag and payload carries.
pub open spec fn record_crc(chunk_type: Seq<u8>, data: Seq<u8>) -> u32 {
    crc32_iso_hdlc(chunk_type + data)
}

/// A record whose length and checksum agree with its tag and payload.
pub open spec fn valid_view(v: ChunkView) -> bool {
    &&& v.chunk_type.len() == 4
    &&& v.data.len() == v.length
    &&& v.crc == record_crc(v.chunk_type, v.data)
}

/// The record built from a tag and a payload.
pub open spec fn new_view(chunk_type: Seq<u8>, data: Seq<u8>) -> ChunkView {
    ChunkView {
        length: data.len() as u32,
        chunk_type,
        data,
        crc: record_crc(chunk_type, data),
    }
}

/// The wire form of a record: the payload's length, the tag, the payload and the
/// stored checksum, the two integers big-endian.
pub open spec fn serialize_view(v: ChunkView) -> Seq<u8> {
    u32_be_bytes(v.data.len() as u32) + v.chunk_type + v.data + u32_be_bytes(v.crc)
}

/// What parsing the front of `buf` gives. Bytes after the checksum are ignored.
pub open spec fn parse_view(buf: Seq<u8>) -> Result<ChunkView, ChunkError> {
    if buf.len() < 8 {
        Err(ChunkError::TruncatedInput)
    } else {
        let length = be_u32(buf.subrange(0, 4));
        let end = 8 + length;
        if buf.len() < end + 4 {
            Err(ChunkError::TruncatedInput)
        } else {
            let chunk_type = buf.subrange(4, 8);
            let data = buf.subrange(8, end);
            let crc = be_u32(buf.subrange(end, end + 4));
            if crc != record_crc(chunk_type, data) {
                Err(ChunkError::ChecksumMismatch)
            } else {
                Ok(ChunkView { length, chunk_type, data, crc })
            }
        }
    }
}

/// Reads four bytes at `off` as a big-endian integer.
fn read_be_u32(bytes: &[u8], off: usize) -> (r: u32)
    requires
        off + 4 <= bytes@.len(),
    ensures
        r == be_u32(bytes@.subrange(off as int, off + 4)),
{
    let r = ((bytes[off] as u32) << 24u32) | ((bytes[off + 1] as u32) << 16u32) | ((bytes[off
        + 2] as u32) << 8u32) | (bytes[off + 3] as u32);
    let ghost s = bytes@.subrange(off as int, off + 4);
    assert(s[0] == bytes@[off as int] && s[1] == bytes@[off + 1] && s[2] == bytes@[off + 2]
        && s[3] == bytes@[off + 3]);
    r
}

/// Appends the four big-endian bytes of `x`.
fn push_be_u32(out: &mut Vec<u8>, x: u32)
    ensures
        final(out)@ == old(out)@ + u32_be_bytes(x),
{
    out.push((x >> 24u32) as u8);
    out.push((x >> 16u32) as u8);
    out.push((x >> 8u32) as u8);
    out.push(x as u8);
    assert(final(out)@ =~= old(out)@ + u32_be_bytes(x));
}

/// Appends `b`.
fn push_bytes(out: &mut Vec<u8>, b: &[u8])
    ensures
        final(out)@ == old(out)@ + b@,
{
    let mut i: usize = 0;
    while i < b.len()
        invariant
            i <= b@.len(),
            out@ == old(out)@ + b@.subrange(0, i as int),
        decreases b@.len() - i,
    {
        out.push(b[i]);
        i = i + 1;
        assert(out@ =~= old(out)@ + b@.subrange(0, i as int));
    }
    assert(b@.subrange(0, b@.len() as int) =~= b@);
}

/// A record: a tag, a payload, the payload's length and a checksum over tag and payload.
pub struct Chunk {
    length: u32,
    chunk_type: ChunkType,
    chunk_data: Vec<u8>,
    crc: u32,
}

impl View for Chunk {
    type V = ChunkView;

    closed spec fn view(&self) -> ChunkView {
        ChunkView {
            length: self.length,
            chunk_type: self.chunk_type@,
            data: self.chunk_data@,
            crc: self.crc,
        }
    }
}

impl Chunk {
    #[verifier::type_invariant]
    closed spec fn inv(&self) -> bool {
        valid_view(self@)
    }

    /// Builds a record from a tag and a payload, computing length and checksum.
    pub fn new(chunk_type: ChunkType, data: Vec<u8>) -> (r: Chunk)
        requires
            data@.len() <= u32::MAX,
        ensures
            r@ == new_view(chunk_type@, data@),
    {
        let tag = chunk_type.bytes();
        let mut covered = slice_to_vec(tag.as_slice());
        push_bytes(&mut covered, data.as_slice());
        let crc = crc32_of(covered.as_slice());
        Chunk { length: data.len() as u32, chunk_type, chunk_data: data, crc }
    }

    /// Builds a record as `new` does, or fails where the payload is too long for
    /// the length field.
    pub fn try_new(chunk_type: ChunkType, data: Vec<u8>) -> (r: Result<Chunk, ChunkError>)
        ensures
            r matches Ok(c) ==> data@.len() <= u32::MAX && c@ == new_view(chunk_type@, data@),
            r matches Err(e) ==> data@.len() > u32::MAX && e == ChunkError::LengthOverflow,
    {
        if data.len() as u64 > 0xFFFF_FFFFu64 {
            Err(ChunkError::LengthOverflow)
        } else {
            Ok(Chunk::new(chunk_type, data))
        }
    }
    /// Parses one record from the front of `bytes`. Bytes after its checksum are
    /// left alone, so a record can be read out of a longer stream.
    pub fn parse(bytes: &[u8]) -> (r: Result<Chunk, ChunkError>)
        ensures
            match r {
                Ok(c) => parse_view(bytes@) == Ok::<ChunkView, ChunkError>(c@),
                Err(e) => parse_view(bytes@) == Err::<ChunkView, ChunkError>(e),
            },
    {
        if bytes.len() < 8 {
            return Err(ChunkError::TruncatedInput);
        }
        let length = read_be_u32(bytes, 0);
        let chunk_type = ChunkType::from_bytes([bytes[4], bytes[5], bytes[6], bytes[7]]);
        assert(chunk_type@ =~= bytes@.subrange(4, 8));
        if ((bytes.len() - 8) as u64) < (length as u64) + 4 {
            return Err(ChunkError::TruncatedInput);
        }
        let end: usize = 8 + length as usize;
        let data = slice_to_vec(&bytes[8..end]);
        let tag = chunk_type.bytes();
        let mut covered = slice_to_vec(tag.as_slice());
        push_bytes(&mut covered, data.as_slice());
        let computed = crc32_of(covered.as_slice());
        let stored = read_be_u32(bytes, end);
        if stored != computed {
            return Err(ChunkError::ChecksumMismatch);
        }
        Ok(Chunk { length, chunk_type, chunk_data: data, crc: stored })
    }

    /// The payload's length.
    pub fn length(&self) -> (r: u32)
        ensures
            r == self@.length,
            r == self@.data.len(),
    {
        proof {
            use_type_invariant(self);
        }
        self.length
    }

    /// The record's tag.
    pub fn chunk_type(&self) -> (r: &ChunkType)
        ensures
            r@ == self@.chunk_type,
    {
        &self.chunk_type
    }

    /// The payload.
    pub fn data(&self) -> (r: &[u8])
        ensures
            r@ == self@.data,
    {
        self.chunk_data.as_slice()
    }

    /// The stored checksum, which is the CRC-32 of tag and payload.
    pub fn crc(&self) -> (r: u32)
        ensures
            r == self@.crc,
            r == record_crc(self@.chunk_type, self@.data),
    {
        proof {
            use_type_invariant(self);
        }
        self.crc
    }

    /// The payload as text; fails where it is not valid UTF-8.
    pub fn data_as_string(&self) -> (r: Result<String, FromUtf8Error>)
        ensures
            r is Ok <==> valid_utf8(self@.data),
            r matches Ok(s) ==> s@ == decode_utf8(self@.data),
    {
        utf8_to_string(slice_to_vec(self.chunk_data.as_slice()))
    }

    /// The wire form: length (recomputed from the payload) and checksum big-endian,
    /// with the tag and the payload between them.
    pub fn as_bytes(&self) -> (r: Vec<u8>)
        ensures
            r@ == serialize_view(self@),
            r@.len() == 12 + self@.length,
    {
        proof {
            use_type_invariant(self);
        }
        let mut out: Vec<u8> = Vec::new();
        push_be_u32(&mut out, self.chunk_data.len() as u32);
        let tag = self.chunk_type.bytes();
        push_bytes(&mut out, tag.as_slice());
        push_bytes(&mut out, self.chunk_data.as_slice());
        push_be_u32(&mut out, self.crc);
        out
    }
}

/// No spec-level conversion is offered: `try_from` below carries the contract of
/// `Chunk::parse` itself.
impl<'a> vstd::std_specs::convert::TryFromSpecImpl<&'a [u8]> for Chunk {
    open spec fn obeys_try_from_spec() -> bool {
        false
    }

    open spec fn try_from_spec(v: &'a [u8]) -> Result<Chunk, ChunkError> {
        arbitrary()
    }
}

impl<'a> TryFrom<&'a [u8]> for Chunk {
    type Error = ChunkError;

    /// Parses one record from the front of `value`, as `Chunk::parse` does.
    fn try_from(value: &'a [u8]) -> (r: Result<Chunk, ChunkError>)
        ensures
            match r {
                Ok(c) => parse_view(value@) == Ok::<ChunkView, ChunkError>(c@),
                Err(e) => parse_view(value@) == Err::<ChunkView, ChunkError>(e),
            },
    {
        Chunk::parse(value)
    }
}

} // verus!
