use pngme::chunk::Chunk;
use pngme::chunk_type::ChunkType;
use pngme::png::Png;
use pngme::png::PngError;

const SIGNATURE: [u8; 8] = [0x89, 0x50, 0x4e, 0x47, 0x0d, 0x0a, 0x1a, 0x0a];

fn chunk_of(type_text: &str, message: &str) -> Chunk {
    let ct = ChunkType::from_str(type_text).unwrap();
    Chunk::new(ct, message.as_bytes().to_vec())
}

fn testing_png_bytes() -> Vec<u8> {
    let mut bytes = SIGNATURE.to_vec();
    bytes.extend_from_slice(&chunk_of("FrSt", "I am the first chunk").as_bytes());
    bytes.extend_from_slice(&chunk_of("miDl", "I am another chunk").as_bytes());
    bytes.extend_from_slice(&chunk_of("LASt", "I am the last chunk").as_bytes());
    bytes
}

#[test]
fn test_parse_then_encode_is_byte_exact() {
    let bytes = testing_png_bytes();
    let png = Png::try_from(bytes.as_ref()).unwrap();
    assert_eq!(png.as_bytes(), bytes);
}

#[test]
fn test_reparse_of_encoding_gives_same_container() {
    let bytes = testing_png_bytes();
    let png = Png::try_from(bytes.as_ref()).unwrap();
    let reparsed = Png::try_from(png.as_bytes().as_ref()).unwrap();
    assert_eq!(reparsed.as_bytes(), png.as_bytes());
    assert_eq!(reparsed.chunks().len(), 3);
    for (a, b) in reparsed.chunks().iter().zip(png.chunks().iter()) {
        assert_eq!(a.chunk_type().bytes(), b.chunk_type().bytes());
        assert_eq!(a.data(), b.data());
        assert_eq!(a.crc(), b.crc());
    }
}

#[test]
fn test_bad_signature_is_rejected() {
    let mut bytes = testing_png_bytes();
    bytes[0] = 0x88;
    assert!(matches!(
        Png::try_from(bytes.as_ref()),
        Err(PngError::BadSignature)
    ));
    assert!(matches!(
        Png::try_from(&SIGNATURE[..7]),
        Err(PngError::BadSignature)
    ));
}

#[test]
fn test_corrupt_chunk_aborts_whole_parse() {
    let mut bytes = testing_png_bytes();
    let last = bytes.len() - 1;
    bytes[last] ^= 0x10;
    assert!(Png::try_from(bytes.as_ref()).is_err());
}

#[test]
fn test_find_by_type_on_empty_container() {
    let png = Png::new();
    assert!(png.chunk_by_type("IHDR").is_none());
    assert!(png.chunk_by_type("RuSt").is_none());
    assert!(png.chunk_by_type("").is_none());
    assert!(png.chunk_by_type("a longer text").is_none());
}

#[test]
fn test_find_by_type_on_parsed_empty_container() {
    let png = Png::try_from(SIGNATURE.as_ref()).unwrap();
    assert_eq!(png.chunks().len(), 0);
    assert!(png.chunk_by_type("FrSt").is_none());
}

#[test]
fn test_find_by_type_returns_first_match() {
    let bytes = testing_png_bytes();
    let png = Png::try_from(bytes.as_ref()).unwrap();
    let found = png.chunk_by_type("miDl").unwrap();
    assert_eq!(found.data_as_string().unwrap(), "I am another chunk");
    assert!(png.chunk_by_type("none").is_none());
}

#[test]
fn test_append_then_remove_restores_sequence() {
    let bytes = testing_png_bytes();
    let mut png = Png::try_from(bytes.as_ref()).unwrap();
    let appended = chunk_of("teSt", "Message I want to hide");
    let appended_crc = appended.crc();
    png.append_chunk(appended);
    assert_eq!(png.chunks().len(), 4);
    assert!(png.chunk_by_type("teSt").is_some());

    let removed = png.remove_chunk("teSt").unwrap();
    assert_eq!(removed.chunk_type().to_text().unwrap(), "teSt");
    assert_eq!(removed.data_as_string().unwrap(), "Message I want to hide");
    assert_eq!(removed.crc(), appended_crc);
    assert_eq!(png.as_bytes(), bytes);
}

#[test]
fn test_remove_missing_type_fails_and_changes_nothing() {
    let bytes = testing_png_bytes();
    let mut png = Png::try_from(bytes.as_ref()).unwrap();
    assert!(matches!(
        png.remove_chunk("noNe"),
        Err(PngError::ChunkNotFound)
    ));
    assert_eq!(png.as_bytes(), bytes);
}

#[test]
fn test_duplicate_types_may_coexist_and_remove_takes_first() {
    let mut png = Png::new();
    png.append_chunk(chunk_of("duPe", "one"));
    png.append_chunk(chunk_of("duPe", "two"));
    assert_eq!(png.chunks().len(), 2);
    let removed = png.remove_chunk("duPe").unwrap();
    assert_eq!(removed.data_as_string().unwrap(), "one");
    let left = png.chunk_by_type("duPe").unwrap();
    assert_eq!(left.data_as_string().unwrap(), "two");
}

#[test]
fn test_declared_length_too_large_in_container() {
    let mut bytes = SIGNATURE.to_vec();
    bytes.extend_from_slice(&[0x80, 0, 0, 0]);
    bytes.extend_from_slice("RuSt".as_bytes());
    match Png::try_from(bytes.as_ref()) {
        Err(PngError::BadChunk(e)) => {
            assert!(matches!(e, pngme::chunk::ChunkDecodingError::LengthTooLarge));
        }
        other => panic!("expected a chunk error, got {:?}", other),
    }
}

#[test]
fn test_truncated_container() {
    let bytes = testing_png_bytes();
    let cut = &bytes[..bytes.len() - 1];
    match Png::try_from(cut) {
        Err(PngError::BadChunk(e)) => {
            assert!(matches!(e, pngme::chunk::ChunkDecodingError::TruncatedInput));
        }
        other => panic!("expected a chunk error, got {:?}", other),
    }
}
