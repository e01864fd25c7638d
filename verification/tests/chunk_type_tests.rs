use pngme::chunk_type::ChunkType;
use pngme::chunk_type::ChunkTypeError;

#[test]
pub fn test_chunk_type_from_bytes() {
    let expected = [82, 117, 83, 116];
    let actual = ChunkType::try_from([82, 117, 83, 116]).unwrap();

    assert_eq!(expected, actual.bytes());
}

#[test]
pub fn test_chunk_type_from_str() {
    let expected = ChunkType::try_from([82, 117, 83, 116]).unwrap();
    let actual = ChunkType::from_str("RuSt").unwrap();
    assert_eq!(expected, actual);
}

#[test]
pub fn test_chunk_type_is_critical() {
    let chunk = ChunkType::from_str("RuSt").unwrap();
    assert!(chunk.is_critical());
}

#[test]
pub fn test_chunk_type_is_not_critical() {
    let chunk = ChunkType::from_str("ruSt").unwrap();
    assert!(!chunk.is_critical());
}

#[test]
pub fn test_chunk_type_is_public() {
    let chunk = ChunkType::from_str("RUSt").unwrap();
    assert!(chunk.is_public());
}

#[test]
pub fn test_chunk_type_is_not_public() {
    let chunk = ChunkType::from_str("RuSt").unwrap();
    assert!(!chunk.is_public());
}

#[test]
pub fn test_chunk_type_is_reserved_bit_valid() {
    let chunk = ChunkType::from_str("RuSt").unwrap();
    assert!(chunk.is_reserved_bit_valid());
}

#[test]
pub fn test_chunk_type_is_reserved_bit_invalid() {
    let chunk = ChunkType::from_str("Rust").unwrap();
    assert!(!chunk.is_reserved_bit_valid());
}

#[test]
pub fn test_chunk_type_is_safe_to_copy() {
    let chunk = ChunkType::from_str("RuSt").unwrap();
    assert!(chunk.is_safe_to_copy());
}

#[test]
pub fn test_chunk_type_is_unsafe_to_copy() {
    let chunk = ChunkType::from_str("RuST").unwrap();
    assert!(!chunk.is_safe_to_copy());
}

#[test]
pub fn test_valid_chunk_is_valid() {
    let chunk = ChunkType::from_str("RuSt").unwrap();
    assert!(chunk.is_valid());
}

#[test]
pub fn test_invalid_chunk_is_valid() {
    let chunk = ChunkType::from_str("Rust").unwrap();
    assert!(!chunk.is_valid());

    let chunk = ChunkType::from_str("Ru1t");
    assert!(chunk.is_err());
}

#[test]
pub fn test_chunk_type_string() {
    let chunk = ChunkType::from_str("RuSt").unwrap();
    assert_eq!(&chunk.to_text().unwrap(), "RuSt");
}

#[test]
pub fn test_flags_from_raw_bytes() {
    let tag = ChunkType::from_raw_bytes([82, 117, 83, 116]);
    assert!(tag.is_critical());
    assert!(!tag.is_public());
    assert!(tag.is_reserved_bit_valid());
    assert!(tag.is_safe_to_copy());

    let tag = ChunkType::from_raw_bytes([82, 117, 115, 116]);
    assert!(!tag.is_reserved_bit_valid());
}

#[test]
pub fn test_from_str_error_kinds() {
    assert_eq!(
        ChunkType::from_str("Rus"),
        Err(ChunkTypeError::ByteLengthError(3))
    );
    assert_eq!(
        ChunkType::from_str("RuSty"),
        Err(ChunkTypeError::ByteLengthError(5))
    );
    assert_eq!(
        ChunkType::from_str("Ru1t"),
        Err(ChunkTypeError::InvalidCharacter)
    );
    assert_eq!(
        ChunkType::from_str("Ru t"),
        Err(ChunkTypeError::InvalidCharacter)
    );
}

#[test]
pub fn test_raw_bytes_accept_anything_but_may_have_no_text() {
    let tag = ChunkType::from_raw_bytes([0xff, 0x00, 0x01, 0x02]);
    assert_eq!(tag.bytes(), [0xff, 0x00, 0x01, 0x02]);
    assert!(tag.to_text().is_none());
    assert!(!tag.is_valid());
}

#[test]
pub fn test_chunk_type_trait_impls() {
    let chunk_type_1: ChunkType = ChunkType::try_from([82, 117, 83, 116]).unwrap();
    let chunk_type_2: ChunkType = ChunkType::from_str("RuSt").unwrap();
    let _chunk_string = format!("{}", chunk_type_1.to_text().unwrap());
    let _are_chunks_equal = chunk_type_1 == chunk_type_2;
}
