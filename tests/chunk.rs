use chunk_codec::chunk::{Chunk, ChunkError};
use chunk_codec::chunk_type::ChunkType;
use std::convert::TryFrom;
use std::str::FromStr;

const MESSAGE: &str = "This is where your secret message will be!";

fn wire(length: u32, tag: &[u8], data: &[u8], crc: u32) -> Vec<u8> {
    length
        .to_be_bytes()
        .iter()
        .chain(tag.iter())
        .chain(data.iter())
        .chain(crc.to_be_bytes().iter())
        .copied()
        .collect()
}

fn testing_chunk() -> Chunk {
    let chunk_data = wire(42, "RuSt".as_bytes(), MESSAGE.as_bytes(), 2882656334);
    Chunk::try_from(chunk_data.as_ref()).unwrap()
}

fn reference_crc(bytes: &[u8]) -> u32 {
    crc::Crc::<u32>::new(&crc::CRC_32_ISO_HDLC).checksum(bytes)
}

#[test]
fn test_new_chunk() {
    let chunk_type = ChunkType::from_str("RuSt").unwrap();
    let data = "This is where your secret message will be!"
        .as_bytes()
        .to_vec();
    let chunk = Chunk::new(chunk_type, data);
    assert_eq!(chunk.length(), 42);
    assert_eq!(chunk.crc(), 2882656334);
}

#[test]
fn test_chunk_length() {
    let chunk = testing_chunk();
    assert_eq!(chunk.length(), 42);
}

#[test]
fn test_chunk_type() {
    let chunk = testing_chunk();
    assert_eq!(chunk.chunk_type().to_string(), String::from("RuSt"));
}

#[test]
fn test_chunk_string() {
    let chunk = testing_chunk();
    let chunk_string = chunk.data_as_string().unwrap();
    let expected_chunk_string = String::from("This is where your secret message will be!");
    assert_eq!(chunk_string, expected_chunk_string);
}

#[test]
fn test_chunk_crc() {
    let chunk = testing_chunk();
    assert_eq!(chunk.crc(), 2882656334);
}

#[test]
fn test_valid_chunk_from_bytes() {
    let data_length: u32 = 42;
    let chunk_type = "RuSt".as_bytes();
    let message_bytes = "This is where your secret message will be!".as_bytes();
    let crc: u32 = 2882656334;

    let chunk_data: Vec<u8> = data_length
        .to_be_bytes()
        .iter()
        .chain(chunk_type.iter())
        .chain(message_bytes.iter())
        .chain(crc.to_be_bytes().iter())
        .copied()
        .collect();

    let chunk = Chunk::try_from(chunk_data.as_ref()).unwrap();

    let chunk_string = chunk.data_as_string().unwrap();
    let expected_chunk_string = String::from("This is where your secret message will be!");

    assert_eq!(chunk.length(), 42);
    assert_eq!(chunk.chunk_type().to_string(), String::from("RuSt"));
    assert_eq!(chunk_string, expected_chunk_string);
    assert_eq!(chunk.crc(), 2882656334);
}

#[test]
fn test_invalid_chunk_from_bytes() {
    let data_length: u32 = 42;
    let chunk_type = "RuSt".as_bytes();
    let message_bytes = "This is where your secret message will be!".as_bytes();
    let crc: u32 = 2882656333;

    let chunk_data: Vec<u8> = data_length
        .to_be_bytes()
        .iter()
        .chain(chunk_type.iter())
        .chain(message_bytes.iter())
        .chain(crc.to_be_bytes().iter())
        .copied()
        .collect();

    let chunk = Chunk::try_from(chunk_data.as_ref());

    assert!(chunk.is_err());
}

#[test]
pub fn test_chunk_trait_impls() {
    let data_length: u32 = 42;
    let chunk_type = "RuSt".as_bytes();
    let message_bytes = "This is where your secret message will be!".as_bytes();
    let crc: u32 = 2882656334;

    let chunk_data: Vec<u8> = data_length
        .to_be_bytes()
        .iter()
        .chain(chunk_type.iter())
        .chain(message_bytes.iter())
        .chain(crc.to_be_bytes().iter())
        .copied()
        .collect();

    let chunk: Chunk = TryFrom::try_from(chunk_data.as_ref()).unwrap();

    let _chunk_string = format!("{:?}", chunk.as_bytes());
}

#[test]
fn concrete_vector_with_mixed_case_tag() {
    let tag = [84u8, 101, 83, 116];
    let payload = MESSAGE.as_bytes().to_vec();
    let chunk = Chunk::new(ChunkType::from_bytes(tag), payload.clone());
    let mut covered = tag.to_vec();
    covered.extend_from_slice(&payload);
    assert_eq!(chunk.length(), 42);
    assert_eq!(chunk.crc(), reference_crc(&covered));
    let buf = wire(42, &tag, &payload, chunk.crc());
    let parsed = Chunk::parse(&buf).unwrap();
    assert_eq!(parsed.as_bytes(), buf);
    assert_eq!(chunk.as_bytes(), buf);
}

#[test]
fn round_trip_keeps_every_field() {
    for payload in [Vec::new(), vec![0u8], MESSAGE.as_bytes().to_vec(), vec![0xffu8; 300]] {
        let chunk = Chunk::new(ChunkType::from_bytes(*b"abCD"), payload.clone());
        let back = Chunk::parse(&chunk.as_bytes()).unwrap();
        assert_eq!(back.length(), chunk.length());
        assert_eq!(back.length() as usize, payload.len());
        assert_eq!(back.chunk_type(), chunk.chunk_type());
        assert_eq!(back.data(), &payload[..]);
        assert_eq!(back.crc(), chunk.crc());
    }
}

#[test]
fn empty_payload_serializes_to_twelve_bytes() {
    let chunk = Chunk::new(ChunkType::from_bytes(*b"IEND"), Vec::new());
    let bytes = chunk.as_bytes();
    assert_eq!(bytes.len(), 12);
    assert_eq!(&bytes[0..4], &[0, 0, 0, 0]);
    assert_eq!(&bytes[4..8], b"IEND");
    // The CRC-32 of "IEND", as every PNG file ends with it.
    assert_eq!(chunk.crc(), 0xAE426082);
    assert_eq!(&bytes[8..12], &[0xAE, 0x42, 0x60, 0x82]);
}

#[test]
fn every_single_bit_flip_is_a_checksum_mismatch() {
    let buf = wire(42, b"RuSt", MESSAGE.as_bytes(), 2882656334);
    for i in 4..(8 + 42) {
        for k in 0..8 {
            let mut flipped = buf.clone();
            flipped[i] ^= 1u8 << k;
            assert_eq!(Chunk::parse(&flipped).err(), Some(ChunkError::ChecksumMismatch));
        }
    }
}

#[test]
fn every_strict_prefix_is_truncated() {
    let buf = wire(42, b"RuSt", MESSAGE.as_bytes(), 2882656334);
    for n in 0..buf.len() {
        assert_eq!(Chunk::parse(&buf[..n]).err(), Some(ChunkError::TruncatedInput));
    }
}

#[test]
fn trailing_bytes_are_ignored_and_not_reserialized() {
    let buf = wire(42, b"RuSt", MESSAGE.as_bytes(), 2882656334);
    let mut longer = buf.clone();
    longer.extend_from_slice(&[1, 2, 3, 4, 5, 6, 7]);
    let chunk = Chunk::parse(&longer).unwrap();
    assert_eq!(chunk.as_bytes(), buf);
}

#[test]
fn declared_length_beyond_buffer_is_truncated() {
    let buf = wire(1000, b"RuSt", MESSAGE.as_bytes(), 2882656334);
    assert_eq!(Chunk::parse(&buf).err(), Some(ChunkError::TruncatedInput));
}

#[test]
fn wrong_stored_checksum_is_mismatch() {
    let buf = wire(42, b"RuSt", MESSAGE.as_bytes(), 2882656333);
    assert_eq!(Chunk::parse(&buf).err(), Some(ChunkError::ChecksumMismatch));
}

#[test]
fn non_utf8_payload_has_no_text() {
    let chunk = Chunk::new(ChunkType::from_bytes(*b"RuSt"), vec![0x66, 0xff, 0x6f]);
    assert!(chunk.data_as_string().is_err());
    let chunk = Chunk::new(ChunkType::from_bytes(*b"RuSt"), "h\u{e9}".as_bytes().to_vec());
    assert_eq!(chunk.data_as_string().unwrap(), "h\u{e9}");
}

#[test]
fn try_new_accepts_payload_that_fits() {
    let chunk = Chunk::try_new(ChunkType::from_bytes(*b"RuSt"), MESSAGE.as_bytes().to_vec()).unwrap();
    assert_eq!(chunk.length(), 42);
    assert_eq!(chunk.crc(), 2882656334);
}
