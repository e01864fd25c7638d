use pngme::chunk::Chunk;
use pngme::chunk_type::ChunkType;
use pngme::chunk_type::ChunkTypeError;
use pngme::commands::CommandOutput;
use pngme::commands::Commands;
use pngme::commands::DecodeArgs;
use pngme::commands::EncodeArgs;
use pngme::commands::PrintArgs;
use pngme::commands::RemoveArgs;
use pngme::commands::decode;
use pngme::commands::encode;
use pngme::commands::print;
use pngme::commands::remove;
use pngme::commands::run;
use pngme::png::Png;
use pngme::png::PngError;

const SIGNATURE: [u8; 8] = [0x89, 0x50, 0x4e, 0x47, 0x0d, 0x0a, 0x1a, 0x0a];

fn base_png_bytes() -> Vec<u8> {
    let mut bytes = SIGNATURE.to_vec();
    let first = Chunk::new(
        ChunkType::from_str("FrSt").unwrap(),
        "I am the first chunk".as_bytes().to_vec(),
    );
    bytes.extend_from_slice(&first.as_bytes());
    bytes
}

#[test]
fn test_encode_command_appends_chunk() {
    let input = base_png_bytes();
    let args = EncodeArgs {
        input_file_path: String::from("/a/b/c"),
        chunk_type: String::from("RuSt"),
        message: String::from("Secret decoder ring"),
        output_file_path: None,
    };
    let out = encode(&args, &input).unwrap();
    let png = Png::try_from(out.as_ref()).unwrap();
    assert_eq!(png.chunks().len(), 2);
    let hidden = png.chunk_by_type("RuSt").unwrap();
    assert_eq!(hidden.data_as_string().unwrap(), "Secret decoder ring");
}

#[test]
fn test_encode_command_rejects_bad_type_text() {
    let input = base_png_bytes();
    let args = EncodeArgs {
        input_file_path: String::from("/a/b/c"),
        chunk_type: String::from("Rus"),
        message: String::from("msg"),
        output_file_path: None,
    };
    assert!(matches!(
        encode(&args, &input),
        Err(PngError::InvalidChunkType(ChunkTypeError::ByteLengthError(3)))
    ));
    let args = EncodeArgs {
        input_file_path: String::from("/a/b/c"),
        chunk_type: String::from("Ru1t"),
        message: String::from("msg"),
        output_file_path: None,
    };
    assert!(matches!(
        encode(&args, &input),
        Err(PngError::InvalidChunkType(ChunkTypeError::InvalidCharacter))
    ));
}

#[test]
fn test_decode_command_finds_message() {
    let input = base_png_bytes();
    let args = EncodeArgs {
        input_file_path: String::from("/a/b/c"),
        chunk_type: String::from("RuSt"),
        message: String::from("Secret decoder ring"),
        output_file_path: None,
    };
    let out = encode(&args, &input).unwrap();

    let args = DecodeArgs {
        input_file_path: String::from("/a/b/c"),
        chunk_type: String::from("RuSt"),
    };
    let line = decode(&args, &out).unwrap().unwrap();
    assert_eq!(line, "RuSt\tSecret decoder ring");

    let args = DecodeArgs {
        input_file_path: String::from("/a/b/c"),
        chunk_type: String::from("noPe"),
    };
    assert_eq!(decode(&args, &out).unwrap(), None);
}

#[test]
fn test_decode_command_rejects_non_utf8_payload() {
    let mut input = base_png_bytes();
    let binary = Chunk::new(ChunkType::from_str("biNy").unwrap(), vec![0xff, 0xfe]);
    input.extend_from_slice(&binary.as_bytes());
    let args = DecodeArgs {
        input_file_path: String::from("/a/b/c"),
        chunk_type: String::from("biNy"),
    };
    assert!(matches!(
        decode(&args, &input),
        Err(PngError::NonUtf8Payload)
    ));
}

#[test]
fn test_remove_command_round_trip() {
    let input = base_png_bytes();
    let enc_args = EncodeArgs {
        input_file_path: String::from("/a/b/c"),
        chunk_type: String::from("teSt"),
        message: String::from("gone soon"),
        output_file_path: None,
    };
    let with_chunk = encode(&enc_args, &input).unwrap();

    let args = RemoveArgs {
        input_file_path: String::from("/a/b/c"),
        chunk_type: String::from("teSt"),
    };
    let (bytes, line) = remove(&args, &with_chunk).unwrap().unwrap();
    assert_eq!(line, "teSt\tgone soon");
    assert_eq!(bytes, input);

    let again = remove(&args, &bytes).unwrap();
    assert_eq!(again, None);
}

#[test]
fn test_print_command_lists_all_chunks() {
    let input = base_png_bytes();
    let args = EncodeArgs {
        input_file_path: String::from("/a/b/c"),
        chunk_type: String::from("RuSt"),
        message: String::from("Secret decoder ring"),
        output_file_path: None,
    };
    let out = encode(&args, &input).unwrap();
    let lines = print(
        &PrintArgs { input_file_path: String::from("/a/b/c") },
        &out,
    )
    .unwrap();
    assert_eq!(lines.len(), 2);
    assert_eq!(lines[0], "FrSt\tI am the first chunk");
    assert_eq!(lines[1], "RuSt\tSecret decoder ring");
}

#[test]
fn test_print_command_on_bad_signature() {
    let mut input = base_png_bytes();
    input[1] = 0;
    assert!(matches!(
        print(&PrintArgs { input_file_path: String::from("/a/b/c") }, &input),
        Err(PngError::BadSignature)
    ));
}

#[test]
fn test_run_dispatches_each_command() {
    let input = base_png_bytes();
    let command = Commands::Encode(EncodeArgs {
        input_file_path: String::from("/a/b/c"),
        chunk_type: String::from("RuSt"),
        message: String::from("Secret decoder ring"),
        output_file_path: None,
    });
    let encoded = match run(command, &input) {
        Ok(CommandOutput::Encoded(bytes)) => bytes,
        other => panic!("unexpected outcome {:?}", other),
    };

    let command = Commands::Decode(DecodeArgs {
        input_file_path: String::from("/a/b/c"),
        chunk_type: String::from("RuSt"),
    });
    match run(command, &encoded) {
        Ok(CommandOutput::Decoded(Some(line))) => {
            assert_eq!(line, "RuSt\tSecret decoder ring");
        }
        other => panic!("unexpected outcome {:?}", other),
    }

    let command = Commands::Print(PrintArgs { input_file_path: String::from("/a/b/c") });
    match run(command, &encoded) {
        Ok(CommandOutput::Printed(lines)) => assert_eq!(lines.len(), 2),
        other => panic!("unexpected outcome {:?}", other),
    }

    let command = Commands::Remove(RemoveArgs {
        input_file_path: String::from("/a/b/c"),
        chunk_type: String::from("RuSt"),
    });
    match run(command, &encoded) {
        Ok(CommandOutput::Removed(Some((bytes, line)))) => {
            assert_eq!(line, "RuSt\tSecret decoder ring");
            assert_eq!(bytes, input);
        }
        other => panic!("unexpected outcome {:?}", other),
    }
}
