//! Properties of the wire format that relate parsing, serialization and construction.
use vstd::prelude::*;
use crate::chunk::{
    ChunkError, ChunkView, be_u32, crc32_iso_hdlc, new_view, parse_view, serialize_view,
    u32_be_bytes, valid_view,
};

verus! {

/// Reading back the big-endian bytes of `x` gives `x`.
proof fn lemma_be_u32_of_bytes(x: u32)
    ensures
        be_u32(u32_be_bytes(x)) == x,
{
    assert((((((x >> 24u32) as u8) as u32) << 24u32) | ((((x >> 16u32) as u8) as u32) << 16u32)
        | ((((x >> 8u32) as u8) as u32) << 8u32) | ((x as u8) as u32)) == x) by (bit_vector);
}

/// Writing out the integer that four bytes give yields those bytes.
proof fn lemma_bytes_of_be_u32(s: Seq<u8>)
    requires
        s.len() == 4,
    ensures
        u32_be_bytes(be_u32(s)) == s,
{
    let a = s[0];
    let b = s[1];
    let c = s[2];
    let d = s[3];
    let x = be_u32(s);
    assert(x == ((a as u32) << 24u32) | ((b as u32) << 16u32) | ((c as u32) << 8u32) | (d as u32));
    assert((((((a as u32) << 24u32) | ((b as u32) << 16u32) | ((c as u32) << 8u32) | (d as u32))
        >> 24u32) as u8) == a) by (bit_vector);
    assert((((((a as u32) << 24u32) | ((b as u32) << 16u32) | ((c as u32) << 8u32) | (d as u32))
        >> 16u32) as u8) == b) by (bit_vector);
    assert((((((a as u32) << 24u32) | ((b as u32) << 16u32) | ((c as u32) << 8u32) | (d as u32))
        >> 8u32) as u8) == c) by (bit_vector);
    assert(((((a as u32) << 24u32) | ((b as u32) << 16u32) | ((c as u32) << 8u32) | (d as u32))
        as u8) == d) by (bit_vector);
    assert(u32_be_bytes(x) =~= s);
}

/// Every valid record parses back from its own wire form.
pub proof fn lemma_parse_serialize(v: ChunkView)
    requires
        valid_view(v),
    ensures
        parse_view(serialize_view(v)) == Ok::<ChunkView, ChunkError>(v),
{
    let buf = serialize_view(v);
    let end: int = 8 + v.data.len() as int;
    lemma_be_u32_of_bytes(v.length);
    lemma_be_u32_of_bytes(v.crc);
    assert(buf.subrange(0, 4) =~= u32_be_bytes(v.length));
    assert(buf.subrange(4, 8) =~= v.chunk_type);
    assert(buf.subrange(8, end) =~= v.data);
    assert(buf.subrange(end, end + 4) =~= u32_be_bytes(v.crc));
}

/// A record built from a tag and a payload parses back, field for field, from
/// its serialized bytes.
pub proof fn lemma_round_trip(chunk_type: Seq<u8>, data: Seq<u8>)
    requires
        chunk_type.len() == 4,
        data.len() <= u32::MAX,
    ensures
        valid_view(new_view(chunk_type, data)),
        parse_view(serialize_view(new_view(chunk_type, data))) == Ok::<ChunkView, ChunkError>(
            new_view(chunk_type, data),
        ),
{
    lemma_parse_serialize(new_view(chunk_type, data));
}

/// Every strict prefix of a valid record's wire form is reported as truncated.
pub proof fn lemma_truncated_prefix(v: ChunkView, n: int)
    requires
        valid_view(v),
        0 <= n < serialize_view(v).len(),
    ensures
        parse_view(serialize_view(v).take(n)) == Err::<ChunkView, ChunkError>(
            ChunkError::TruncatedInput,
        ),
{
    let p = serialize_view(v).take(n);
    if n >= 8 {
        lemma_be_u32_of_bytes(v.length);
        assert(p.subrange(0, 4) =~= u32_be_bytes(v.length));
    }
}

/// Serializing what was parsed from `buf` gives back exactly the bytes that the
/// record took up at the front of `buf`, whatever follows them; the parsed record
/// is valid.
pub proof fn lemma_serialize_parse(buf: Seq<u8>)
    requires
        parse_view(buf) is Ok,
    ensures
        valid_view(parse_view(buf)->Ok_0),
        serialize_view(parse_view(buf)->Ok_0) == buf.take(
            12 + (parse_view(buf)->Ok_0).length,
        ),
{
    let v = parse_view(buf)->Ok_0;
    let end: int = 8 + v.length;
    lemma_bytes_of_be_u32(buf.subrange(0, 4));
    lemma_bytes_of_be_u32(buf.subrange(end, end + 4));
    assert(serialize_view(v) =~= buf.take(12 + v.length));
}

/// Bytes after a record do not change what parsing the front of the buffer gives.
pub proof fn lemma_trailing_bytes_ignored(buf: Seq<u8>, extra: Seq<u8>)
    requires
        parse_view(buf) is Ok,
    ensures
        parse_view(buf + extra) == parse_view(buf),
{
    let all = buf + extra;
    let v = parse_view(buf)->Ok_0;
    let end: int = 8 + v.length;
    assert(all.subrange(0, 4) =~= buf.subrange(0, 4));
    assert(all.subrange(4, 8) =~= buf.subrange(4, 8));
    assert(all.subrange(8, end) =~= buf.subrange(8, end));
    assert(all.subrange(end, end + 4) =~= buf.subrange(end, end + 4));
}

/// `buf` with bit `k` of byte `i` flipped.
pub open spec fn flip_bit(buf: Seq<u8>, i: int, k: u8) -> Seq<u8> {
    buf.update(i, buf[i] ^ (1u8 << k))
}

/// Flipping one bit of the tag or the payload of a valid record's wire form changes
/// the bytes that the checksum covers, and parsing the result never reports
/// truncation: it reports a checksum mismatch, and succeeds only where the CRC-32 of
/// the altered tag and payload equals that of the unaltered ones.
pub proof fn lemma_bit_flip_reaches_checksum(v: ChunkView, i: int, k: u8)
    requires
        valid_view(v),
        4 <= i < 8 + v.data.len(),
        k < 8,
    ensures
        ({
            let flipped = flip_bit(serialize_view(v), i, k);
            let covered = flipped.subrange(4, 8 + v.data.len() as int);
            &&& covered != v.chunk_type + v.data
            &&& parse_view(flipped) is Ok <==> crc32_iso_hdlc(covered) == crc32_iso_hdlc(
                v.chunk_type + v.data,
            )
            &&& !(parse_view(flipped) is Ok) ==> parse_view(flipped) == Err::<
                ChunkView,
                ChunkError,
            >(ChunkError::ChecksumMismatch)
        }),
{
    let buf = serialize_view(v);
    let flipped = flip_bit(buf, i, k);
    let end: int = 8 + v.data.len() as int;
    let covered = flipped.subrange(4, end);
    let old_byte = buf[i];
    assert((old_byte ^ (1u8 << k)) != old_byte) by (bit_vector)
        requires
            k < 8,
    ;
    assert(covered[i - 4] != (v.chunk_type + v.data)[i - 4]) by {
        assert(buf.subrange(4, end) =~= v.chunk_type + v.data);
    }
    lemma_be_u32_of_bytes(v.length);
    lemma_be_u32_of_bytes(v.crc);
    assert(flipped.subrange(0, 4) =~= u32_be_bytes(v.length));
    assert(flipped.subrange(end, end + 4) =~= u32_be_bytes(v.crc));
    assert(flipped.subrange(4, 8) + flipped.subrange(8, end) =~= covered);
}

} // verus!
