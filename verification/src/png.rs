//! The container: a fixed 8-byte signature followed by an ordered sequence
//! of chunks, parsed from a raw byte buffer and re-serialized byte-exactly.

use vstd::prelude::*;
use vstd::string::StringSliceAdditionalSpecFns;

use crate::chunk::Chunk;
use crate::chunk::ChunkDecodingError;
use crate::chunk::ChunkModel;
use crate::chunk::MAXIMUM_LENGTH;
use crate::chunk::chunk_encoding;
use crate::chunk::chunk_wf;
use crate::chunk::spec_decode_chunk;
use crate::chunk_type::ChunkTypeError;
use crate::chunk_type::lemma_chunk_type_len;
use crate::frame::be32_value;

verus! {

/// Why a container operation failed.
#[derive(Debug, Clone, Copy, PartialEq, Eq, Structural)]
pub enum PngError {
    /// The first 8 bytes of a parsed buffer are not the PNG signature.
    BadSignature,
    /// Some chunk of the buffer failed to decode.
    BadChunk(ChunkDecodingError),
    /// A textual chunk type given to an operation is not a valid type code.
    InvalidChunkType(ChunkTypeError),
    /// Removal by type matched no chunk; the container is unchanged.
    ChunkNotFound,
    /// A textual form was asked of bytes that are not valid UTF-8.
    NonUtf8Payload,
}

/// The fixed 8-byte signature that opens every container.
pub open spec fn png_signature() -> Seq<u8> {
    seq![0x89u8, 0x50u8, 0x4eu8, 0x47u8, 0x0du8, 0x0au8, 0x1au8, 0x0au8]
}

/// The signature as a byte array, for building and checking buffers.
pub fn signature_bytes() -> (r: [u8; 8])
    ensures
        r@ == png_signature(),
{
    let r = [0x89u8, 0x50u8, 0x4eu8, 0x47u8, 0x0du8, 0x0au8, 0x1au8, 0x0au8];
    proof {
        assert(r@ =~= png_signature());
    }
    r
}

/// The models of a sequence of chunks, in order.
pub open spec fn models(chunks: Seq<Chunk>) -> Seq<ChunkModel> {
    Seq::new(chunks.len(), |i: int| chunks[i]@)
}

/// The concatenated frames of a sequence of chunks, in order.
pub open spec fn chunks_encoding(chunks: Seq<ChunkModel>) -> Seq<u8>
    decreases chunks.len(),
{
    if chunks.len() == 0 {
        Seq::empty()
    } else {
        chunk_encoding(chunks[0]) + chunks_encoding(chunks.drop_first())
    }
}

/// The full encoding of a container: signature, then every chunk's frame.
pub open spec fn png_encoding(chunks: Seq<ChunkModel>) -> Seq<u8> {
    png_signature() + chunks_encoding(chunks)
}

/// What parsing a byte stream as consecutive chunk frames yields: the chunks
/// in order, or the error of the first frame that fails. The stream must be
/// consumed exactly.
pub open spec fn spec_parse_chunks(bytes: Seq<u8>) -> Result<Seq<ChunkModel>, ChunkDecodingError>
    decreases bytes.len(),
{
    if bytes.len() == 0 {
        Ok(Seq::empty())
    } else if bytes.len() < 4 {
        Err(ChunkDecodingError::TruncatedInput)
    } else {
        let n = be32_value(bytes.subrange(0, 4)) as int;
        if n > MAXIMUM_LENGTH {
            Err(ChunkDecodingError::LengthTooLarge)
        } else if bytes.len() < 12 + n {
            Err(ChunkDecodingError::TruncatedInput)
        } else {
            match spec_decode_chunk(bytes) {
                Err(e) => Err(e),
                Ok(c) => match spec_parse_chunks(bytes.skip(12 + n)) {
                    Err(e) => Err(e),
                    Ok(rest) => Ok(seq![c] + rest),
                },
            }
        }
    }
}

/// What parsing a whole buffer yields: the signature must open it, and the
/// remainder must parse as consecutive chunk frames.
pub open spec fn spec_parse_png(bytes: Seq<u8>) -> Result<Seq<ChunkModel>, PngError> {
    if bytes.len() < 8 || bytes.subrange(0, 8) != png_signature() {
        Err(PngError::BadSignature)
    } else {
        match spec_parse_chunks(bytes.skip(8)) {
            Ok(cs) => Ok(cs),
            Err(e) => Err(PngError::BadChunk(e)),
        }
    }
}

/// The position of the first chunk whose type tag is `t`, if any.
pub open spec fn spec_find_first(chunks: Seq<ChunkModel>, t: Seq<u8>) -> Option<int>
    decreases chunks.len(),
{
    if chunks.len() == 0 {
        None
    } else if chunks[0].type_bytes == t {
        Some(0)
    } else {
        match spec_find_first(chunks.drop_first(), t) {
            Some(i) => Some(i + 1),
            None => None,
        }
    }
}

/// `spec_find_first` returns the position of the first match: a match with
/// none before it, or nothing when no chunk matches.
pub proof fn lemma_find_first_char(chunks: Seq<ChunkModel>, t: Seq<u8>)
    ensures
        match spec_find_first(chunks, t) {
            Some(i) => 0 <= i < chunks.len() && chunks[i].type_bytes == t && forall|j: int|
                0 <= j < i ==> (#[trigger] chunks[j]).type_bytes != t,
            None => forall|j: int|
                0 <= j < chunks.len() ==> (#[trigger] chunks[j]).type_bytes != t,
        },
    decreases chunks.len(),
{
    if chunks.len() == 0 {
    } else if chunks[0].type_bytes == t {
    } else {
        lemma_find_first_char(chunks.drop_first(), t);
        match spec_find_first(chunks.drop_first(), t) {
            Some(i) => {
                assert(chunks.drop_first()[i] == chunks[i + 1]);
                assert forall|j: int| 0 <= j < i + 1 implies (#[trigger] chunks[j]).type_bytes
                    != t by {
                    if j > 0 {
                        assert(chunks[j] == chunks.drop_first()[j - 1]);
                    }
                }
            },
            None => {
                assert forall|j: int| 0 <= j < chunks.len() implies (#[trigger] chunks[j]).type_bytes
                    != t by {
                    if j > 0 {
                        assert(chunks[j] == chunks.drop_first()[j - 1]);
                    }
                }
            },
        }
    }
}

/// Find-by-type on an empty container comes back empty for every type text;
/// it is no error.
pub proof fn lemma_find_in_empty(t: Seq<u8>)
    ensures
        spec_find_first(Seq::<ChunkModel>::empty(), t) is None,
{
}

/// Appending a chunk whose type is not yet present and then removing by that
/// type hands the appended chunk back and restores the original sequence.
pub proof fn lemma_append_then_remove(chunks: Seq<ChunkModel>, k: ChunkModel, t: Seq<u8>)
    requires
        k.type_bytes == t,
        forall|i: int| 0 <= i < chunks.len() ==> (#[trigger] chunks[i]).type_bytes != t,
    ensures
        spec_find_first(chunks.push(k), t) == Some(chunks.len() as int),
        chunks.push(k)[chunks.len() as int] == k,
        chunks.push(k).remove(chunks.len() as int) == chunks,
{
    lemma_find_first_char(chunks.push(k), t);
    match spec_find_first(chunks.push(k), t) {
        Some(i) => {
            if i < chunks.len() {
                assert(chunks.push(k)[i] == chunks[i]);
            }
        },
        None => {
            assert(chunks.push(k)[chunks.len() as int].type_bytes == t);
        },
    }
    assert(chunks.push(k).remove(chunks.len() as int) =~= chunks);
}

/// Removing a type that no chunk carries finds nothing, so the container is
/// left unchanged.
pub proof fn lemma_remove_absent(chunks: Seq<ChunkModel>, t: Seq<u8>)
    requires
        forall|i: int| 0 <= i < chunks.len() ==> (#[trigger] chunks[i]).type_bytes != t,
    ensures
        spec_find_first(chunks, t) is None,
{
    lemma_find_first_char(chunks, t);
    if spec_find_first(chunks, t) is Some {
        let i = spec_find_first(chunks, t)->Some_0;
        assert(chunks[i].type_bytes != t);
    }
}

/// One step of `spec_parse_chunks` on a non-empty stream: the head frame's
/// outcome, then the rest of the stream.
pub proof fn lemma_parse_chunks_step(bytes: Seq<u8>)
    requires
        bytes.len() > 0,
    ensures
        match spec_decode_chunk(bytes) {
            Err(e) => spec_parse_chunks(bytes) == Err::<Seq<ChunkModel>, ChunkDecodingError>(e),
            Ok(c) => spec_parse_chunks(bytes) == (match spec_parse_chunks(
                bytes.skip(12 + c.data.len() as int),
            ) {
                Err(e) => Err::<Seq<ChunkModel>, ChunkDecodingError>(e),
                Ok(rest) => Ok::<Seq<ChunkModel>, ChunkDecodingError>(seq![c] + rest),
            }),
        },
{
}

/// Decoding a well-formed chunk's frame, with anything after it, yields the
/// chunk back.
pub proof fn lemma_decode_of_encoding(c: ChunkModel, rest: Seq<u8>)
    requires
        chunk_wf(c),
    ensures
        spec_decode_chunk(chunk_encoding(c) + rest) == Ok::<ChunkModel, ChunkDecodingError>(c),
        be32_value((chunk_encoding(c) + rest).subrange(0, 4)) == c.data.len(),
        (chunk_encoding(c) + rest).len() == 12 + c.data.len() + rest.len(),
{
    let bytes = chunk_encoding(c) + rest;
    let l = c.data.len() as u32;
    assert(bytes.subrange(0, 4) =~= crate::frame::be32_bytes(l));
    crate::frame::lemma_be32_roundtrip(l);
    let n = be32_value(bytes.subrange(0, 4)) as int;
    assert(n == c.data.len());
    assert(bytes.len() >= 12 + n);
    assert(bytes.subrange(4, 8) =~= c.type_bytes);
    assert(bytes.subrange(8, 8 + n) =~= c.data);
    assert(bytes.subrange(8 + n, 12 + n) =~= crate::frame::be32_bytes(c.crc));
    crate::frame::lemma_be32_roundtrip(c.crc);
}

/// Parsing the concatenated frames of well-formed chunks yields the chunks.
#[verifier::rlimit(100)]
#[verifier::spinoff_prover]
pub proof fn lemma_parse_chunks_of_encoding(chunks: Seq<ChunkModel>)
    requires
        forall|i: int| 0 <= i < chunks.len() ==> chunk_wf(#[trigger] chunks[i]),
    ensures
        spec_parse_chunks(chunks_encoding(chunks)) == Ok::<Seq<ChunkModel>, ChunkDecodingError>(
            chunks,
        ),
    decreases chunks.len(),
{
    if chunks.len() == 0 {
        assert(chunks =~= Seq::<ChunkModel>::empty());
    } else {
        let c = chunks[0];
        let tail = chunks.drop_first();
        let bytes = chunks_encoding(chunks);
        assert(bytes == chunk_encoding(c) + chunks_encoding(tail));
        lemma_decode_of_encoding(c, chunks_encoding(tail));
        let n = be32_value(bytes.subrange(0, 4)) as int;
        assert(n == c.data.len());
        assert(bytes.len() == 12 + n + chunks_encoding(tail).len());
        assert(chunk_encoding(c).len() == 12 + c.data.len());
        assert(bytes.skip(12 + n) =~= chunks_encoding(tail));
        assert(forall|i: int| 0 <= i < tail.len() ==> chunk_wf(#[trigger] tail[i]));
        lemma_parse_chunks_of_encoding(tail);
        assert(spec_parse_chunks(chunks_encoding(tail)) == Ok::<
            Seq<ChunkModel>,
            ChunkDecodingError,
        >(tail));
        assert(seq![c] + tail =~= chunks);
        assert(n <= MAXIMUM_LENGTH);
        assert(spec_parse_chunks(bytes) == Ok::<Seq<ChunkModel>, ChunkDecodingError>(
            seq![c] + tail,
        ));
    }
}

/// Round trip: parsing the encoding of any sequence of well-formed chunks
/// yields that sequence again. Together with the contracts of `try_from` and
/// `as_bytes`, any container produced by `parse` re-parses from its own
/// encoding to the same container.
pub proof fn lemma_encode_then_parse(chunks: Seq<ChunkModel>)
    requires
        forall|i: int| 0 <= i < chunks.len() ==> chunk_wf(#[trigger] chunks[i]),
    ensures
        spec_parse_png(png_encoding(chunks)) == Ok::<Seq<ChunkModel>, PngError>(chunks),
{
    let bytes = png_encoding(chunks);
    assert(bytes.subrange(0, 8) =~= png_signature());
    assert(bytes.skip(8) =~= chunks_encoding(chunks));
    lemma_parse_chunks_of_encoding(chunks);
}

/// Round trip at the container level: a well-formed container re-parses from
/// its own encoding to the same chunk sequence. With the contracts of
/// `Png::try_from` and `Png::as_bytes`, a container produced by parsing,
/// appending, or removing re-parses from its own bytes to itself.
pub proof fn lemma_container_round_trip(p: &Png)
    requires
        p.wf(),
    ensures
        spec_parse_png(png_encoding(p@)) == Ok::<Seq<ChunkModel>, PngError>(p@),
{
    Png::lemma_wf_models(p);
    lemma_encode_then_parse(p@);
}

/// A frame sequence extended by one chunk encodes to the frames so far, then
/// the new chunk's frame.
pub proof fn lemma_chunks_encoding_push(chunks: Seq<ChunkModel>, c: ChunkModel)
    ensures
        chunks_encoding(chunks.push(c)) == chunks_encoding(chunks) + chunk_encoding(c),
    decreases chunks.len(),
{
    if chunks.len() == 0 {
        assert(chunks.push(c)[0] == c);
        assert(chunks.push(c).drop_first() =~= Seq::<ChunkModel>::empty());
        assert(chunks_encoding(chunks.push(c)) == chunk_encoding(c) + chunks_encoding(
            Seq::<ChunkModel>::empty(),
        ));
        assert(chunk_encoding(c) + Seq::<u8>::empty() =~= Seq::<u8>::empty() + chunk_encoding(c));
        assert(chunks_encoding(chunks.push(c)) =~= chunks_encoding(chunks) + chunk_encoding(c));
    } else {
        assert(chunks.push(c)[0] == chunks[0]);
        assert(chunks.push(c).drop_first() =~= chunks.drop_first().push(c));
        lemma_chunks_encoding_push(chunks.drop_first(), c);
        assert(chunks_encoding(chunks.push(c)) == chunk_encoding(chunks[0]) + (chunks_encoding(
            chunks.drop_first(),
        ) + chunk_encoding(c)));
        assert(chunks_encoding(chunks) + chunk_encoding(c) =~= chunk_encoding(chunks[0])
            + (chunks_encoding(chunks.drop_first()) + chunk_encoding(c)));
    }
}

/// Prefix chunks already parsed, then whatever the rest of the stream gives.
pub open spec fn parse_with_prefix(
    prefix: Seq<ChunkModel>,
    rest: Result<Seq<ChunkModel>, ChunkDecodingError>,
) -> Result<Seq<ChunkModel>, ChunkDecodingError> {
    match rest {
        Ok(cs) => Ok(prefix + cs),
        Err(e) => Err(e),
    }
}

/// The container: the fixed signature and an ordered chunk sequence. Its
/// view is the sequence of chunk models, in insertion order.
#[derive(Debug)]
pub struct Png {
    chunks: Vec<Chunk>,
}

impl View for Png {
    type V = Seq<ChunkModel>;

    closed spec fn view(&self) -> Seq<ChunkModel> {
        models(self.chunks@)
    }
}

impl Png {
    /// Every held chunk is well formed.
    pub closed spec fn wf(&self) -> bool {
        forall|i: int| 0 <= i < self.chunks@.len() ==> (#[trigger] self.chunks@[i]).wf()
    }

    /// A well-formed container holds only well-formed chunk models.
    pub broadcast proof fn lemma_wf_models(p: &Png)
        ensures
            #[trigger] p.wf() ==> forall|i: int| 0 <= i < p@.len() ==> chunk_wf(#[trigger] p@[i]),
    {
        if p.wf() {
            assert forall|i: int| 0 <= i < p@.len() implies chunk_wf(#[trigger] p@[i]) by {
                assert(p.chunks@[i].wf());
                Chunk::lemma_wf_model(&p.chunks@[i]);
            }
        }
    }

    /// A container with the fixed signature and no chunks.
    pub fn new() -> (r: Png)
        ensures
            r@ == Seq::<ChunkModel>::empty(),
            r.wf(),
    {
        let r = Png { chunks: Vec::new() };
        proof {
            assert(r@ =~= Seq::<ChunkModel>::empty());
        }
        r
    }

    /// Parses a whole buffer: the signature must open it, and every chunk
    /// frame after it must decode; any failure aborts the whole parse.
    pub fn try_from(value: &[u8]) -> (r: Result<Png, PngError>)
        ensures
            match r {
                Ok(p) => spec_parse_png(value@) == Ok::<Seq<ChunkModel>, PngError>(p@) && p.wf(),
                Err(e) => spec_parse_png(value@) == Err::<Seq<ChunkModel>, PngError>(e),
            },
    {
        if value.len() < 8 {
            return Err(PngError::BadSignature);
        }
        let sig = signature_bytes();
        let mut j: usize = 0;
        while j < 8
            invariant
                j <= 8,
                value@.len() >= 8,
                sig@ == png_signature(),
                forall|k: int| 0 <= k < j ==> value@[k] == png_signature()[k],
            decreases 8 - j,
        {
            if value[j] != sig[j] {
                proof {
                    assert(value@.subrange(0, 8)[j as int] != png_signature()[j as int]);
                }
                return Err(PngError::BadSignature);
            }
            j = j + 1;
        }
        proof {
            assert(value@.subrange(0, 8) =~= png_signature());
        }
        let mut chunks: Vec<Chunk> = Vec::new();
        let mut pos: usize = 8;
        while pos < value.len()
            invariant
                8 <= pos <= value@.len() <= usize::MAX,
                value@.subrange(0, 8) == png_signature(),
                forall|i: int| 0 <= i < chunks@.len() ==> (#[trigger] chunks@[i]).wf(),
                spec_parse_chunks(value@.skip(8)) == parse_with_prefix(
                    models(chunks@),
                    spec_parse_chunks(value@.skip(pos as int)),
                ),
            decreases value@.len() - pos,
        {
            let rest = &value[pos..value.len()];
            proof {
                assert(rest@ == value@.subrange(pos as int, value@.len() as int));
                assert(rest@ =~= value@.skip(pos as int));
                lemma_parse_chunks_step(value@.skip(pos as int));
            }
            match Chunk::try_from(rest) {
                Err(e) => {
                    return Err(PngError::BadChunk(e));
                },
                Ok(c) => {
                    let n = c.length();
                    let consumed = 12 + n as usize;
                    proof {
                        assert(12 + c@.data.len() <= rest@.len());
                        assert(value@.skip(pos as int).skip(consumed as int) =~= value@.skip(
                            pos as int + consumed as int,
                        ));
                    }
                    let ghost old_models = models(chunks@);
                    chunks.push(c);
                    proof {
                        assert(models(chunks@) =~= old_models.push(c@));
                        let r_rest = spec_parse_chunks(
                            value@.skip(pos as int + consumed as int),
                        );
                        match r_rest {
                            Ok(cs) => {
                                assert(old_models + (seq![c@] + cs) =~= models(chunks@) + cs);
                            },
                            Err(_) => {},
                        }
                    }
                    pos = pos + consumed;
                },
            }
        }
        proof {
            assert(value@.skip(pos as int) =~= Seq::<u8>::empty());
            assert(models(chunks@) + Seq::<ChunkModel>::empty() =~= models(chunks@));
        }
        Ok(Png { chunks })
    }

    /// The chunks, in insertion order, read-only.
    pub fn chunks(&self) -> (r: &Vec<Chunk>)
        ensures
            r@.len() == self@.len(),
            forall|i: int| 0 <= i < r@.len() ==> (#[trigger] r@[i])@ == self@[i],
            self.wf() ==> forall|i: int| 0 <= i < r@.len() ==> (#[trigger] r@[i]).wf(),
    {
        &self.chunks
    }

    /// The first chunk, in stored order, whose type tag's textual form equals
    /// `chunk_type`; nothing when no chunk matches, which is no error.
    pub fn chunk_by_type(&self, chunk_type: &str) -> (r: Option<&Chunk>)
        ensures
            match r {
                Some(c) => spec_find_first(self@, chunk_type.spec_bytes()) matches Some(i) && c@
                    == self@[i] && (self.wf() ==> c.wf()),
                None => spec_find_first(self@, chunk_type.spec_bytes()) is None,
            },
    {
        let ghost t = chunk_type.spec_bytes();
        proof {
            lemma_find_first_char(self@, t);
        }
        let n = self.chunks.len();
        let mut i: usize = 0;
        while i < n
            invariant
                n == self.chunks@.len(),
                i <= n,
                t == chunk_type.spec_bytes(),
                forall|j: int| 0 <= j < i ==> (#[trigger] self@[j]).type_bytes != t,
            decreases n - i,
        {
            if type_matches(&self.chunks[i], chunk_type) {
                proof {
                    assert(self@[i as int].type_bytes == t);
                    lemma_find_first_char(self@, t);
                }
                return Some(&self.chunks[i]);
            }
            proof {
                assert(self@[i as int].type_bytes != t);
            }
            i = i + 1;
        }
        proof {
            lemma_find_first_char(self@, t);
        }
        None
    }

    /// Adds the chunk at the end; chunks of the same type may coexist.
    pub fn append_chunk(&mut self, chunk: Chunk)
        requires
            old(self).wf(),
            chunk.wf(),
        ensures
            final(self)@ == old(self)@.push(chunk@),
            final(self).wf(),
    {
        let ghost before = self@;
        self.chunks.push(chunk);
        proof {
            assert(self@ =~= before.push(chunk@));
        }
    }

    /// Removes and returns the first chunk matching `chunk_type` in stored
    /// order; when none matches, fails and leaves the container unchanged.
    pub fn remove_chunk(&mut self, chunk_type: &str) -> (r: Result<Chunk, PngError>)
        requires
            old(self).wf(),
        ensures
            match spec_find_first(old(self)@, chunk_type.spec_bytes()) {
                Some(i) => r matches Ok(c) && c@ == old(self)@[i] && c.wf() && final(self)@ == old(
                    self,
                )@.remove(i),
                None => r == Err::<Chunk, PngError>(PngError::ChunkNotFound) && final(self)@ == old(
                    self,
                )@,
            },
            final(self).wf(),
    {
        let ghost t = chunk_type.spec_bytes();
        proof {
            lemma_find_first_char(self@, t);
        }
        let n = self.chunks.len();
        let mut i: usize = 0;
        while i < n
            invariant
                n == self.chunks@.len(),
                i <= n,
                t == chunk_type.spec_bytes(),
                old(self) == self,
                self.wf(),
                forall|j: int| 0 <= j < i ==> (#[trigger] self@[j]).type_bytes != t,
            decreases n - i,
        {
            if type_matches(&self.chunks[i], chunk_type) {
                proof {
                    assert(self@[i as int].type_bytes == t);
                    lemma_find_first_char(self@, t);
                    assert(spec_find_first(self@, t) == Some(i as int));
                }
                let ghost before = self@;
                let ghost before_chunks = self.chunks@;
                let c = self.chunks.remove(i);
                proof {
                    assert(c == before_chunks[i as int]);
                    assert(c.wf());
                    assert(self@ =~= before.remove(i as int));
                    assert forall|j: int|
                        0 <= j < self.chunks@.len() implies (#[trigger] self.chunks@[j]).wf() by {
                        if j < i {
                            assert(self.chunks@[j] == before_chunks[j]);
                        } else {
                            assert(self.chunks@[j] == before_chunks[j + 1]);
                        }
                    }
                }
                return Ok(c);
            }
            proof {
                assert(self@[i as int].type_bytes != t);
            }
            i = i + 1;
        }
        proof {
            lemma_find_first_char(self@, t);
        }
        Err(PngError::ChunkNotFound)
    }

    /// The whole container's bytes: the signature, then each chunk's frame,
    /// in stored order.
    pub fn as_bytes(&self) -> (r: Vec<u8>)
        requires
            self.wf(),
        ensures
            r@ == png_encoding(self@),
    {
        let sig = signature_bytes();
        let mut out: Vec<u8> = Vec::new();
        out.extend_from_slice(sig.as_slice());
        proof {
            assert(self@.take(0) =~= Seq::<ChunkModel>::empty());
            assert(out@ =~= png_signature() + chunks_encoding(self@.take(0)));
        }
        let n = self.chunks.len();
        let mut i: usize = 0;
        while i < n
            invariant
                n == self.chunks@.len(),
                i <= n,
                self.wf(),
                out@ == png_signature() + chunks_encoding(self@.take(i as int)),
            decreases n - i,
        {
            let frame = self.chunks[i].as_bytes();
            out.extend_from_slice(frame.as_slice());
            proof {
                lemma_chunks_encoding_push(self@.take(i as int), self@[i as int]);
                assert(self@.take(i as int).push(self@[i as int]) =~= self@.take(i as int + 1));
            }
            i = i + 1;
        }
        proof {
            assert(self@.take(n as int) =~= self@);
        }
        out
    }
}

/// The chunk's type tag equals the bytes of the given text.
fn type_matches(chunk: &Chunk, text: &str) -> (r: bool)
    ensures
        r == (chunk@.type_bytes == text.spec_bytes()),
{
    let b = text.as_bytes();
    let ct = chunk.chunk_type();
    let tag = ct.bytes();
    proof {
        lemma_chunk_type_len(*ct);
    }
    if b.len() != 4 {
        return false;
    }
    let eq = tag[0] == b[0] && tag[1] == b[1] && tag[2] == b[2] && tag[3] == b[3];
    proof {
        if eq {
            assert(chunk@.type_bytes =~= text.spec_bytes());
        } else {
            assert(chunk@.type_bytes != text.spec_bytes());
        }
    }
    eq
}

} // verus!
