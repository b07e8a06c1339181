use pngme::Chunk;
use pngme::ChunkError;
use pngme::ChunkType;

const MESSAGE: &str = "This is where your secret message will be!";

fn wire(length: u32, type_bytes: &[u8], data: &[u8], crc: u32) -> Vec<u8> {
    let mut buf = Vec::new();
    buf.extend_from_slice(&length.to_be_bytes());
    buf.extend_from_slice(type_bytes);
    buf.extend_from_slice(data);
    buf.extend_from_slice(&crc.to_be_bytes());
    buf
}

#[test]
fn round_trip_preserves_all_fields() {
    let chunk_type = ChunkType::from_str("RuSt").unwrap();
    let chunk = Chunk::new(chunk_type, MESSAGE.as_bytes().to_vec());
    let bytes = chunk.as_bytes();
    assert_eq!(bytes.len(), 54);

    let decoded = Chunk::try_from(bytes.as_ref()).unwrap();
    assert_eq!(decoded.length(), chunk.length());
    assert_eq!(decoded.chunk_type().bytes(), chunk.chunk_type().bytes());
    assert_eq!(decoded.data(), chunk.data());
    assert_eq!(decoded.crc(), chunk.crc());
}

#[test]
fn round_trip_empty_payload() {
    let chunk_type = ChunkType::from_str("ruSt").unwrap();
    let chunk = Chunk::new(chunk_type, Vec::new());
    let bytes = chunk.as_bytes();
    assert_eq!(bytes.len(), 12);

    let decoded = Chunk::try_from(bytes.as_ref()).unwrap();
    assert_eq!(decoded.length(), 0);
    assert_eq!(decoded.data(), &[] as &[u8]);
}

#[test]
fn checksum_is_deterministic() {
    let first = Chunk::new(
        ChunkType::from_str("RuSt").unwrap(),
        MESSAGE.as_bytes().to_vec(),
    );
    let second = Chunk::new(
        ChunkType::from_str("RuSt").unwrap(),
        MESSAGE.as_bytes().to_vec(),
    );
    assert_eq!(first.crc(), second.crc());
    assert_eq!(first.crc(), 2882656334);
}

#[test]
fn flipping_any_bit_of_the_checksum_field_is_detected() {
    let chunk = Chunk::new(
        ChunkType::from_str("RuSt").unwrap(),
        MESSAGE.as_bytes().to_vec(),
    );
    let bytes = chunk.as_bytes();
    let crc_offset = bytes.len() - 4;
    for byte in 0..4usize {
        for bit in 0..8u32 {
            let mut tampered = bytes.clone();
            tampered[crc_offset + byte] ^= 1u8 << bit;
            let mut expected_field = [0u8; 4];
            expected_field.copy_from_slice(&tampered[crc_offset..]);
            let expected = u32::from_be_bytes(expected_field);
            let result = Chunk::try_from(tampered.as_ref());
            assert_eq!(
                result.unwrap_err(),
                ChunkError::CrcMismatch { expected, calculated: 2882656334 }
            );
        }
    }
}

#[test]
fn declared_length_beyond_buffer_is_rejected() {
    let buf = wire(255, "RuSt".as_bytes(), MESSAGE.as_bytes(), 2882656334);
    let result = Chunk::try_from(buf.as_ref());
    assert_eq!(result.unwrap_err(), ChunkError::IncorrectLength(255));
}

#[test]
fn buffer_too_short_for_length_field() {
    let buf: Vec<u8> = vec![0, 0, 0];
    let result = Chunk::try_from(buf.as_ref());
    assert_eq!(result.unwrap_err(), ChunkError::BufferTooShort);
}

#[test]
fn buffer_too_short_for_type_field() {
    let buf: Vec<u8> = vec![0, 0, 0, 0, 82, 117];
    let result = Chunk::try_from(buf.as_ref());
    assert_eq!(result.unwrap_err(), ChunkError::BufferTooShort);
}

#[test]
fn declared_length_beyond_the_accepted_bound_is_rejected() {
    let buf = wire(0x80000000, "RuSt".as_bytes(), &[], 0);
    let result = Chunk::try_from(buf.as_ref());
    assert_eq!(result.unwrap_err(), ChunkError::LengthTooLarge(2147483648));
}

#[test]
fn declared_length_at_the_bound_passes_the_size_check() {
    // The decoder's length bound is inclusive: a declared length equal to the
    // bound is not "too large", it merely exceeds this short buffer. The
    // encoding path never checks the bound at all; only decoding does.
    let buf = wire(0x7fffffff, "RuSt".as_bytes(), &[], 0);
    let result = Chunk::try_from(buf.as_ref());
    assert_eq!(result.unwrap_err(), ChunkError::IncorrectLength(0x7fffffff));
}

#[test]
fn trailing_bytes_after_the_checksum_field_are_rejected() {
    let chunk = Chunk::new(
        ChunkType::from_str("RuSt").unwrap(),
        MESSAGE.as_bytes().to_vec(),
    );
    let mut bytes = chunk.as_bytes();
    bytes.push(0);
    let result = Chunk::try_from(bytes.as_ref());
    assert_eq!(result.unwrap_err(), ChunkError::InvalidChecksumField);
}

#[test]
fn payload_that_is_not_utf8_is_reported() {
    let chunk = Chunk::new(ChunkType::from_str("RuSt").unwrap(), vec![0xff, 0xfe]);
    let result = chunk.data_as_string();
    assert_eq!(result.unwrap_err(), ChunkError::Utf8Decode);
}

#[test]
fn validation_reports_non_alphabetic() {
    let err = ChunkType::from_str("Ru1t").unwrap_err();
    assert!(err.non_alphabetic);
    assert!(!err.non_ascii);
    assert!(!err.wrong_length);
}

#[test]
fn validation_reports_wrong_length() {
    let err = ChunkType::from_str("Ru").unwrap_err();
    assert!(err.wrong_length);
    assert_eq!(err.actual_length, 2);
    assert!(!err.non_ascii);
    assert!(!err.non_alphabetic);
}

#[test]
fn validation_reports_every_violated_condition_together() {
    let err = ChunkType::from_str("Ru1").unwrap_err();
    assert!(err.wrong_length);
    assert!(err.non_alphabetic);
    assert!(!err.non_ascii);

    let err = ChunkType::from_str("Ru1t¢").unwrap_err();
    assert!(err.non_ascii);
    assert!(err.wrong_length);
    assert!(err.non_alphabetic);
}

#[test]
fn property_bits_follow_the_case_of_each_byte() {
    let t = ChunkType::from_str("RuSt").unwrap();
    assert!(t.is_critical());
    assert!(!t.is_public());
    assert!(t.is_reserved_bit_valid());
    assert!(t.is_safe_to_copy());

    let t = ChunkType::from_str("Rust").unwrap();
    assert!(!t.is_reserved_bit_valid());
}

#[test]
fn raw_bytes_are_taken_without_validation() {
    let t = ChunkType::from_raw_bytes([0, 1, 2, 3]);
    assert_eq!(t.bytes(), [0, 1, 2, 3]);
    assert_eq!(ChunkType::length(), 4);
}

#[test]
fn end_to_end_encode_serialize_decode() {
    let chunk_type = ChunkType::from_str("RuSt").unwrap();
    let chunk = Chunk::new(chunk_type, MESSAGE.as_bytes().to_vec());
    assert_eq!(chunk.crc(), 2882656334);

    let bytes = chunk.as_bytes();
    assert_eq!(bytes.len(), 54);

    let decoded = Chunk::try_from(bytes.as_ref()).unwrap();
    assert_eq!(decoded.length(), 42);
    assert_eq!(decoded.chunk_type().to_string(), "RuSt");
    assert_eq!(decoded.data_as_string().unwrap(), MESSAGE);

    let mut off_by_one = bytes.clone();
    let n = off_by_one.len();
    off_by_one[n - 4..].copy_from_slice(&2882656333u32.to_be_bytes());
    let result = Chunk::try_from(off_by_one.as_ref());
    assert_eq!(
        result.unwrap_err(),
        ChunkError::CrcMismatch { expected: 2882656333, calculated: 2882656334 }
    );
}

#[test]
fn display_renders_length_type_and_checksum() {
    let chunk = Chunk::new(
        ChunkType::from_str("RuSt").unwrap(),
        MESSAGE.as_bytes().to_vec(),
    );
    assert_eq!(
        chunk.to_string(),
        "Chunk length: 42\nChunk type: RuSt\nCRC: 2882656334\n"
    );
}
