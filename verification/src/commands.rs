//! The operations behind the command-line commands, as pure functions from
//! the input buffer to the output buffer or the text to show. Reading and
//! writing files, and parsing the command line itself, stay with the caller.

use vstd::prelude::*;
use vstd::string::StrSliceExecFns;
use vstd::string::StringExecFns;
use vstd::utf8::decode_utf8;
use vstd::utf8::encode_utf8;
use vstd::utf8::valid_utf8;

use crate::chunk::Chunk;
use crate::chunk::ChunkModel;
use crate::chunk::MAXIMUM_LENGTH;
use crate::chunk::crc32_of;
use crate::chunk_type::ChunkType;
use crate::chunk_type::ChunkTypeError;
use crate::chunk_type::all_alphabetic;
use crate::png::Png;
use crate::png::PngError;
use crate::png::png_encoding;
use crate::png::spec_find_first;
use crate::png::spec_parse_png;

verus! {

/// Arguments for hiding a message: where to read, the chunk type to add,
/// the message, and where to write (the input path when absent).
#[derive(Debug)]
pub struct EncodeArgs {
    pub input_file_path: String,
    pub chunk_type: String,
    pub message: String,
    pub output_file_path: Option<String>,
}

/// Arguments for reading a message back: where to read and which type.
#[derive(Debug)]
pub struct DecodeArgs {
    pub input_file_path: String,
    pub chunk_type: String,
}

/// Arguments for removing a chunk: where to read and which type.
#[derive(Debug)]
pub struct RemoveArgs {
    pub input_file_path: String,
    pub chunk_type: String,
}

/// Arguments for listing every chunk of a file.
#[derive(Debug)]
pub struct PrintArgs {
    pub input_file_path: String,
}

/// One of the four commands, with its arguments.
#[derive(Debug)]
pub enum Commands {
    Encode(EncodeArgs),
    Decode(DecodeArgs),
    Remove(RemoveArgs),
    Print(PrintArgs),
}

/// The whole command line: one command.
#[derive(Debug)]
pub struct Cli {
    pub command: Commands,
}

/// What a command hands back to the shell: bytes to write, text to show,
/// or both.
#[derive(Debug)]
pub enum CommandOutput {
    /// The re-encoded file with the new chunk appended.
    Encoded(Vec<u8>),
    /// The display line of the chunk found, or nothing.
    Decoded(Option<String>),
    /// The re-encoded file and the removed chunk's display line, or nothing
    /// when no chunk matched.
    Removed(Option<(Vec<u8>, String)>),
    /// One display line per chunk, in stored order.
    Printed(Vec<String>),
}

/// The line shown for a chunk: its type text, a tab, and its payload text.
pub open spec fn display_line(type_text: Seq<char>, message: Seq<char>) -> Seq<char> {
    type_text + seq!['\t'] + message
}

/// Both the type tag and the payload of the chunk have a textual form.
pub open spec fn displayable(c: ChunkModel) -> bool {
    valid_utf8(c.type_bytes) && valid_utf8(c.data)
}

/// What encoding yields: the input re-serialized with one chunk of the given
/// type and message appended, or the error that stops it. The buffer must
/// parse, then the type text must be four ASCII letters.
pub open spec fn spec_encode_op(input: Seq<u8>, type_text: Seq<char>, message: Seq<char>) -> Result<
    Seq<u8>,
    PngError,
> {
    match spec_parse_png(input) {
        Err(e) => Err(e),
        Ok(cs) => {
            let tb = encode_utf8(type_text);
            if tb.len() != 4 {
                Err(PngError::InvalidChunkType(ChunkTypeError::ByteLengthError(tb.len() as usize)))
            } else if !all_alphabetic(tb) {
                Err(PngError::InvalidChunkType(ChunkTypeError::InvalidCharacter))
            } else {
                let data = encode_utf8(message);
                Ok(
                    png_encoding(
                        cs.push(
                            ChunkModel { type_bytes: tb, data, crc: crc32_of(tb + data) },
                        ),
                    ),
                )
            }
        },
    }
}

/// What decoding yields: the display line of the first chunk of the given
/// type, nothing when none matches, or the error that stops it.
pub open spec fn spec_decode_op(input: Seq<u8>, type_text: Seq<char>) -> Result<
    Option<Seq<char>>,
    PngError,
> {
    match spec_parse_png(input) {
        Err(e) => Err(e),
        Ok(cs) => match spec_find_first(cs, encode_utf8(type_text)) {
            None => Ok(None),
            Some(i) => if valid_utf8(cs[i].data) {
                Ok(Some(display_line(type_text, decode_utf8(cs[i].data))))
            } else {
                Err(PngError::NonUtf8Payload)
            },
        },
    }
}

/// What removal yields: the input re-serialized without the first chunk of
/// the given type together with that chunk's display line, nothing when none
/// matches, or the error that stops it.
pub open spec fn spec_remove_op(input: Seq<u8>, type_text: Seq<char>) -> Result<
    Option<(Seq<u8>, Seq<char>)>,
    PngError,
> {
    match spec_parse_png(input) {
        Err(e) => Err(e),
        Ok(cs) => match spec_find_first(cs, encode_utf8(type_text)) {
            None => Ok(None),
            Some(i) => if valid_utf8(cs[i].data) {
                Ok(Some((png_encoding(cs.remove(i)), display_line(type_text, decode_utf8(cs[i].data)))))
            } else {
                Err(PngError::NonUtf8Payload)
            },
        },
    }
}

/// What listing yields: one display line per chunk, in stored order, or the
/// error that stops it; a chunk without a textual form stops the listing.
pub open spec fn spec_print_op(input: Seq<u8>) -> Result<Seq<Seq<char>>, PngError> {
    match spec_parse_png(input) {
        Err(e) => Err(e),
        Ok(cs) => if forall|i: int| 0 <= i < cs.len() ==> displayable(#[trigger] cs[i]) {
            Ok(
                Seq::new(
                    cs.len(),
                    |i: int| display_line(decode_utf8(cs[i].type_bytes), decode_utf8(cs[i].data)),
                ),
            )
        } else {
            Err(PngError::NonUtf8Payload)
        },
    }
}

/// Builds the display line of a chunk from its type text and payload text.
fn build_line(type_text: String, message: &String) -> (r: String)
    ensures
        r@ == display_line(type_text@, message@),
{
    let mut line = type_text;
    line.append("\t");
    line.append(message.as_str());
    proof {
        reveal_strlit("\t");
        assert("\t"@ =~= seq!['\t']);
    }
    line
}

/// Parses the input, appends one fresh chunk built from the type text and
/// the message bytes, and re-serializes the whole file.
pub fn encode(args: &EncodeArgs, input: &[u8]) -> (r: Result<Vec<u8>, PngError>)
    requires
        encode_utf8(args.message@).len() <= MAXIMUM_LENGTH,
    ensures
        match r {
            Ok(out) => spec_encode_op(input@, args.chunk_type@, args.message@) == Ok::<
                Seq<u8>,
                PngError,
            >(out@),
            Err(e) => spec_encode_op(input@, args.chunk_type@, args.message@) == Err::<
                Seq<u8>,
                PngError,
            >(e),
        },
{
    let mut png = match Png::try_from(input) {
        Ok(p) => p,
        Err(e) => {
            return Err(e);
        },
    };
    let ct = match ChunkType::from_str(args.chunk_type.as_str()) {
        Ok(ct) => ct,
        Err(te) => {
            return Err(PngError::InvalidChunkType(te));
        },
    };
    let data = args.message.as_str().as_bytes_vec();
    let chunk = Chunk::new(ct, data);
    png.append_chunk(chunk);
    Ok(png.as_bytes())
}

/// Parses the input and looks up the first chunk of the given type,
/// rendering it as type text, a tab, and the payload text.
pub fn decode(args: &DecodeArgs, input: &[u8]) -> (r: Result<Option<String>, PngError>)
    ensures
        match r {
            Ok(Some(line)) => spec_decode_op(input@, args.chunk_type@) == Ok::<
                Option<Seq<char>>,
                PngError,
            >(Some(line@)),
            Ok(None) => spec_decode_op(input@, args.chunk_type@) == Ok::<
                Option<Seq<char>>,
                PngError,
            >(None),
            Err(e) => spec_decode_op(input@, args.chunk_type@) == Err::<
                Option<Seq<char>>,
                PngError,
            >(e),
        },
{
    let png = match Png::try_from(input) {
        Ok(p) => p,
        Err(e) => {
            return Err(e);
        },
    };
    match png.chunk_by_type(args.chunk_type.as_str()) {
        None => Ok(None),
        Some(c) => match c.data_as_string() {
            None => Err(PngError::NonUtf8Payload),
            Some(msg) => Ok(Some(build_line(args.chunk_type.clone(), &msg))),
        },
    }
}

/// Parses the input and removes the first chunk of the given type, handing
/// back the re-serialized file and the removed chunk's display line; when no
/// chunk matches, nothing is removed and nothing is handed back.
pub fn remove(args: &RemoveArgs, input: &[u8]) -> (r: Result<
    Option<(Vec<u8>, String)>,
    PngError,
>)
    ensures
        match r {
            Ok(Some((out, line))) => spec_remove_op(input@, args.chunk_type@) == Ok::<
                Option<(Seq<u8>, Seq<char>)>,
                PngError,
            >(Some((out@, line@))),
            Ok(None) => spec_remove_op(input@, args.chunk_type@) == Ok::<
                Option<(Seq<u8>, Seq<char>)>,
                PngError,
            >(None),
            Err(e) => spec_remove_op(input@, args.chunk_type@) == Err::<
                Option<(Seq<u8>, Seq<char>)>,
                PngError,
            >(e),
        },
{
    let mut png = match Png::try_from(input) {
        Ok(p) => p,
        Err(e) => {
            return Err(e);
        },
    };
    match png.remove_chunk(args.chunk_type.as_str()) {
        Err(_) => Ok(None),
        Ok(chunk) => match chunk.data_as_string() {
            None => Err(PngError::NonUtf8Payload),
            Some(msg) => {
                let out = png.as_bytes();
                Ok(Some((out, build_line(args.chunk_type.clone(), &msg))))
            },
        },
    }
}

/// Parses the input and renders every chunk as one display line, in stored
/// order.
pub fn print(_args: &PrintArgs, input: &[u8]) -> (r: Result<Vec<String>, PngError>)
    ensures
        match r {
            Ok(lines) => spec_print_op(input@) == Ok::<Seq<Seq<char>>, PngError>(
                lines.deep_view(),
            ),
            Err(e) => spec_print_op(input@) == Err::<Seq<Seq<char>>, PngError>(e),
        },
{
    let png = match Png::try_from(input) {
        Ok(p) => p,
        Err(e) => {
            return Err(e);
        },
    };
    let chunk_vec = png.chunks();
    let n = chunk_vec.len();
    let mut lines: Vec<String> = Vec::new();
    let mut i: usize = 0;
    while i < n
        invariant
            n == chunk_vec@.len(),
            i <= n,
            chunk_vec@.len() == png@.len(),
            forall|j: int| 0 <= j < n ==> (#[trigger] chunk_vec@[j])@ == png@[j],
            spec_parse_png(input@) == Ok::<Seq<ChunkModel>, PngError>(png@),
            lines@.len() == i,
            forall|j: int| 0 <= j < i ==> displayable(#[trigger] png@[j]),
            forall|j: int|
                0 <= j < i ==> (#[trigger] lines@[j])@ == display_line(
                    decode_utf8(png@[j].type_bytes),
                    decode_utf8(png@[j].data),
                ),
        decreases n - i,
    {
        let c = &chunk_vec[i];
        let ct = c.chunk_type();
        match ct.to_text() {
            None => {
                return Err(PngError::NonUtf8Payload);
            },
            Some(type_text) => match c.data_as_string() {
                None => {
                    return Err(PngError::NonUtf8Payload);
                },
                Some(msg) => {
                    let line = build_line(type_text, &msg);
                    lines.push(line);
                },
            },
        }
        i = i + 1;
    }
    proof {
        assert(lines.deep_view() =~= Seq::new(
            png@.len(),
            |j: int| display_line(decode_utf8(png@[j].type_bytes), decode_utf8(png@[j].data)),
        ));
    }
    Ok(lines)
}

/// Dispatches one command over the input buffer, handing back what the
/// shell must write or show.
pub fn run(command: Commands, input: &[u8]) -> (r: Result<CommandOutput, PngError>)
    requires
        command matches Commands::Encode(a) ==> encode_utf8(a.message@).len() <= MAXIMUM_LENGTH,
    ensures
        match command {
            Commands::Encode(a) => match r {
                Ok(CommandOutput::Encoded(out)) => spec_encode_op(input@, a.chunk_type@, a.message@)
                    == Ok::<Seq<u8>, PngError>(out@),
                Ok(_) => false,
                Err(e) => spec_encode_op(input@, a.chunk_type@, a.message@) == Err::<
                    Seq<u8>,
                    PngError,
                >(e),
            },
            Commands::Decode(a) => match r {
                Ok(CommandOutput::Decoded(Some(line))) => spec_decode_op(input@, a.chunk_type@)
                    == Ok::<Option<Seq<char>>, PngError>(Some(line@)),
                Ok(CommandOutput::Decoded(None)) => spec_decode_op(input@, a.chunk_type@) == Ok::<
                    Option<Seq<char>>,
                    PngError,
                >(None),
                Ok(_) => false,
                Err(e) => spec_decode_op(input@, a.chunk_type@) == Err::<
                    Option<Seq<char>>,
                    PngError,
                >(e),
            },
            Commands::Remove(a) => match r {
                Ok(CommandOutput::Removed(Some((out, line)))) => spec_remove_op(
                    input@,
                    a.chunk_type@,
                ) == Ok::<Option<(Seq<u8>, Seq<char>)>, PngError>(Some((out@, line@))),
                Ok(CommandOutput::Removed(None)) => spec_remove_op(input@, a.chunk_type@) == Ok::<
                    Option<(Seq<u8>, Seq<char>)>,
                    PngError,
                >(None),
                Ok(_) => false,
                Err(e) => spec_remove_op(input@, a.chunk_type@) == Err::<
                    Option<(Seq<u8>, Seq<char>)>,
                    PngError,
                >(e),
            },
            Commands::Print(_) => match r {
                Ok(CommandOutput::Printed(lines)) => spec_print_op(input@) == Ok::<
                    Seq<Seq<char>>,
                    PngError,
                >(lines.deep_view()),
                Ok(_) => false,
                Err(e) => spec_print_op(input@) == Err::<Seq<Seq<char>>, PngError>(e),
            },
        },
{
    match command {
        Commands::Encode(args) => match encode(&args, input) {
            Ok(out) => Ok(CommandOutput::Encoded(out)),
            Err(e) => Err(e),
        },
        Commands::Decode(args) => match decode(&args, input) {
            Ok(found) => Ok(CommandOutput::Decoded(found)),
            Err(e) => Err(e),
        },
        Commands::Remove(args) => match remove(&args, input) {
            Ok(removed) => Ok(CommandOutput::Removed(removed)),
            Err(e) => Err(e),
        },
        Commands::Print(args) => match print(&args, input) {
            Ok(lines) => Ok(CommandOutput::Printed(lines)),
            Err(e) => Err(e),
        },
    }
}

} // verus!
