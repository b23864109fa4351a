use pngme::{Chunk, ChunkType, PngError};

fn record(data_length: u32, chunk_type: &[u8], message_bytes: &[u8], crc: u32) -> Vec<u8> {
    data_length
        .to_be_bytes()
        .iter()
        .chain(chunk_type.iter())
        .chain(message_bytes.iter())
        .chain(crc.to_be_bytes().iter())
        .copied()
        .collect()
}

fn testing_chunk() -> Chunk {
    let data_length: u32 = 42;
    let chunk_type = "RuSt".as_bytes();
    let message_bytes = "This is where your secret message will be!".as_bytes();
    let crc: u32 = 2882656334;

    let chunk_data = record(data_length, chunk_type, message_bytes, crc);
    Chunk::decode(chunk_data.as_ref()).unwrap()
}

#[test]
fn test_chunk_length() {
    let chunk = testing_chunk();
    assert_eq!(chunk.length(), 42);
}

#[test]
fn test_chunk_type() {
    let chunk = testing_chunk();
    assert_eq!(chunk.chunk_type().to_string(), String::from("RuSt"));
}

#[test]
fn test_chunk_string() {
    let chunk = testing_chunk();
    let chunk_string = chunk.data_as_string().unwrap();
    let expected_chunk_string = String::from("This is where your secret message will be!");
    assert_eq!(chunk_string, expected_chunk_string);
}

#[test]
fn test_chunk_crc() {
    let chunk = testing_chunk();
    assert_eq!(chunk.crc(), 2882656334);
}

#[test]
fn test_valid_chunk_from_bytes() {
    let data_length: u32 = 42;
    let chunk_type = "RuSt".as_bytes();
    let message_bytes = "This is where your secret message will be!".as_bytes();
    let crc: u32 = 2882656334;

    let chunk_data = record(data_length, chunk_type, message_bytes, crc);

    let chunk = Chunk::decode(chunk_data.as_ref()).unwrap();

    let chunk_string = chunk.data_as_string().unwrap();
    let expected_chunk_string = String::from("This is where your secret message will be!");

    assert_eq!(chunk.length(), 42);
    assert_eq!(chunk.chunk_type().to_string(), String::from("RuSt"));
    assert_eq!(chunk_string, expected_chunk_string);
    assert_eq!(chunk.crc(), 2882656334);
}

#[test]
fn test_invalid_chunk_from_bytes() {
    let data_length: u32 = 42;
    let chunk_type = "RuSt".as_bytes();
    let message_bytes = "This is where your secret message will be!".as_bytes();
    let crc: u32 = 2882656333;

    let chunk_data = record(data_length, chunk_type, message_bytes, crc);

    let chunk = Chunk::decode(chunk_data.as_ref());

    assert!(chunk.is_err());
}

#[test]
pub fn test_chunk_trait_impls() {
    let data_length: u32 = 42;
    let chunk_type = "RuSt".as_bytes();
    let message_bytes = "This is where your secret message will be!".as_bytes();
    let crc: u32 = 2882656334;

    let chunk_data = record(data_length, chunk_type, message_bytes, crc);

    let chunk: Chunk = Chunk::decode(chunk_data.as_ref()).unwrap();

    let _chunk_string = format!("{:?}", chunk);
}

fn valid_record() -> Vec<u8> {
    record(
        42,
        "RuSt".as_bytes(),
        "This is where your secret message will be!".as_bytes(),
        2882656334,
    )
}

#[test]
fn wrong_crc_is_a_mismatch() {
    let bytes = record(
        42,
        "RuSt".as_bytes(),
        "This is where your secret message will be!".as_bytes(),
        2882656333,
    );
    assert_eq!(Chunk::decode(&bytes).unwrap_err(), PngError::CrcMismatch);
}

#[test]
fn decoded_fields_of_valid_record() {
    let bytes = valid_record();
    let chunk = Chunk::decode(&bytes).unwrap();
    assert_eq!(*chunk.chunk_type(), ChunkType::from_str("RuSt").unwrap());
    assert_eq!(chunk.data(), "This is where your secret message will be!".as_bytes());
    assert_eq!(chunk.as_bytes(), "This is where your secret message will be!".as_bytes().to_vec());
}

#[test]
fn encode_reproduces_the_record() {
    let bytes = valid_record();
    let chunk = Chunk::decode(&bytes).unwrap();
    assert_eq!(chunk.encode(), bytes);
}

#[test]
fn round_trip_keeps_every_field() {
    let chunk = testing_chunk();
    let again = Chunk::decode(&chunk.encode()).unwrap();
    assert_eq!(again.length(), chunk.length());
    assert_eq!(again.chunk_type(), chunk.chunk_type());
    assert_eq!(again.data(), chunk.data());
    assert_eq!(again.crc(), chunk.crc());
    assert_eq!(again, chunk);
}

#[test]
fn chunks_with_different_payloads_differ() {
    let bytes = record(3, b"teXt", b"abc", crc::crc32::checksum_ieee(b"teXtabc"));
    let other = record(3, b"teXt", b"abd", crc::crc32::checksum_ieee(b"teXtabd"));
    assert_ne!(Chunk::decode(&bytes).unwrap(), Chunk::decode(&other).unwrap());
}

#[test]
fn secret_message_scenario() {
    let message = "This is where your secret message will be!";
    let good = record(42, b"RuSt", message.as_bytes(), 2882656334);
    let chunk = Chunk::decode(&good).unwrap();
    assert_eq!(chunk.length(), 42);
    assert_eq!(chunk.data_as_string().unwrap(), message);
    let bad = record(42, b"RuSt", message.as_bytes(), 2882656333);
    assert_eq!(Chunk::decode(&bad), Err(PngError::CrcMismatch));
}

#[test]
fn trailing_bytes_are_ignored() {
    let mut bytes = valid_record();
    bytes.extend_from_slice(&[1, 2, 3, 4, 5]);
    let chunk = Chunk::decode(&bytes).unwrap();
    assert_eq!(chunk.length(), 42);
    assert_eq!(chunk.encode(), valid_record());
}

#[test]
fn every_truncation_is_too_short() {
    let bytes = valid_record();
    for n in 0..bytes.len() {
        assert_eq!(Chunk::decode(&bytes[..n]).unwrap_err(), PngError::TooShort, "cut at {}", n);
    }
}

#[test]
fn every_single_bit_flip_in_tag_or_payload_is_caught() {
    let bytes = valid_record();
    for i in 4..(8 + 42) {
        for k in 0..8 {
            let mut flipped = bytes.clone();
            flipped[i] ^= 1u8 << k;
            assert_eq!(
                Chunk::decode(&flipped).unwrap_err(),
                PngError::CrcMismatch,
                "byte {} bit {}",
                i,
                k
            );
        }
    }
}

#[test]
fn huge_declared_length_is_too_short() {
    let bytes = record(u32::MAX, "RuSt".as_bytes(), b"abc", 0);
    assert_eq!(Chunk::decode(&bytes).unwrap_err(), PngError::TooShort);
}

#[test]
fn empty_payload_record() {
    // IEND: the IEEE CRC-32 of "IEND" is 0xAE426082
    let bytes = record(0, "IEND".as_bytes(), &[], 0xAE42_6082);
    let chunk = Chunk::decode(&bytes).unwrap();
    assert_eq!(chunk.length(), 0);
    assert_eq!(chunk.data(), &[] as &[u8]);
    assert_eq!(chunk.data_as_string().unwrap(), "");
    assert_eq!(chunk.encode(), bytes);
}

#[test]
fn binary_payload_is_not_utf8() {
    let payload: [u8; 3] = [0xff, 0xfe, 0x00];
    let mut body = b"biNy".to_vec();
    body.extend_from_slice(&payload);
    let crc = crc::crc32::checksum_ieee(&body);
    let bytes = record(3, b"biNy", &payload, crc);
    let chunk = Chunk::decode(&bytes).unwrap();
    assert_eq!(chunk.data(), &payload);
    assert_eq!(chunk.data_as_string(), Err(PngError::NotUtf8));
}

#[test]
fn non_letter_tag_still_decodes() {
    let mut body = vec![0u8, 1, 2, 3];
    body.extend_from_slice(b"xy");
    let crc = crc::crc32::checksum_ieee(&body);
    let bytes = record(2, &[0, 1, 2, 3], b"xy", crc);
    let chunk = Chunk::decode(&bytes).unwrap();
    assert_eq!(chunk.chunk_type().bytes(), [0, 1, 2, 3]);
    assert!(!chunk.chunk_type().is_valid());
}
