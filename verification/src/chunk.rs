//! One chunk: a length-prefixed, type-tagged, CRC-checked binary record.
//!
//! The frame is `length` (4 bytes big-endian) ++ type tag (4 bytes) ++
//! payload (`length` bytes) ++ CRC-32 (4 bytes big-endian), where the
//! checksum covers the tag and the payload.

use vstd::prelude::*;
use vstd::slice::slice_to_vec;
use vstd::utf8::decode_utf8;
use vstd::utf8::valid_utf8;

use crate::chunk_type::ChunkType;
use crate::frame::be32_bytes;
use crate::frame::be32_value;
use crate::frame::u32_from_be;
use crate::frame::u32_to_be;
use crate::text::string_from_utf8;

verus! {

/// The largest payload length a chunk frame may declare: 2^31 - 1.
pub const MAXIMUM_LENGTH: u32 = 0x7fff_ffff;

/// Why decoding a chunk from bytes failed.
#[derive(Debug, Clone, Copy, PartialEq, Eq, Structural)]
pub enum ChunkDecodingError {
    /// The declared payload length exceeds 2^31 - 1.
    LengthTooLarge,
    /// Fewer bytes remain than the frame declares, at some read step.
    TruncatedInput,
    /// The checksum recomputed over tag ++ payload disagrees with the
    /// embedded one.
    ChecksumMismatch,
}

/// The CRC-32 checksum (ISO-HDLC variant, as the PNG format requires) of a
/// byte sequence. Its value is fixed by the bytes alone; nothing further is
/// assumed of it here.
pub uninterp spec fn crc32_of(bytes: Seq<u8>) -> u32;

/// Relies on crc::Crc::<u32>::checksum with the CRC_32_ISO_HDLC algorithm:
/// a table-driven computation whose result depends on the input bytes alone.
#[verifier::external_body]
fn crc32(bytes: &Vec<u8>) -> (r: u32)
    ensures
        r == crc32_of(bytes@),
{
    crc::Crc::<u32>::new(&crc::CRC_32_ISO_HDLC).checksum(bytes.as_slice())
}

/// The mathematical content of a chunk: type tag, payload, stored checksum.
pub ghost struct ChunkModel {
    pub type_bytes: Seq<u8>,
    pub data: Seq<u8>,
    pub crc: u32,
}

/// The tag holds four bytes, the payload fits the declared-length field, and
/// the checksum is the CRC-32 of tag ++ payload.
pub open spec fn chunk_wf(c: ChunkModel) -> bool {
    &&& c.type_bytes.len() == 4
    &&& c.data.len() <= MAXIMUM_LENGTH
    &&& c.crc == crc32_of(c.type_bytes + c.data)
}

/// The binary frame of a chunk: length, tag, payload, checksum.
pub open spec fn chunk_encoding(c: ChunkModel) -> Seq<u8> {
    be32_bytes(c.data.len() as u32) + c.type_bytes + c.data + be32_bytes(c.crc)
}

/// What decoding the leading bytes of `bytes` as one chunk frame yields:
/// the first chunk, or the error the frame forces. Trailing bytes beyond
/// the frame are ignored.
pub open spec fn spec_decode_chunk(bytes: Seq<u8>) -> Result<ChunkModel, ChunkDecodingError> {
    if bytes.len() < 4 {
        Err(ChunkDecodingError::TruncatedInput)
    } else {
        let n = be32_value(bytes.subrange(0, 4)) as int;
        if n > MAXIMUM_LENGTH {
            Err(ChunkDecodingError::LengthTooLarge)
        } else if bytes.len() < 12 + n {
            Err(ChunkDecodingError::TruncatedInput)
        } else {
            let t = bytes.subrange(4, 8);
            let d = bytes.subrange(8, 8 + n);
            let given = be32_value(bytes.subrange(8 + n, 12 + n));
            if given != crc32_of(t + d) {
                Err(ChunkDecodingError::ChecksumMismatch)
            } else {
                Ok(ChunkModel { type_bytes: t, data: d, crc: given })
            }
        }
    }
}

/// Checksum integrity at the checksum field: writing any wrong value into
/// the trailing checksum of a well-formed chunk's frame makes decoding fail
/// with a checksum mismatch. (That a change to the tag or the payload also
/// changes the recomputed CRC-32 is a property of the checksum function
/// itself, which this library calls and does not model.)
pub proof fn lemma_corrupt_checksum_rejected(c: ChunkModel, crc2: u32)
    requires
        chunk_wf(c),
        crc2 != c.crc,
    ensures
        spec_decode_chunk(
            chunk_encoding(ChunkModel { type_bytes: c.type_bytes, data: c.data, crc: crc2 }),
        ) == Err::<ChunkModel, ChunkDecodingError>(ChunkDecodingError::ChecksumMismatch),
{
    let k = ChunkModel { type_bytes: c.type_bytes, data: c.data, crc: crc2 };
    let bytes = chunk_encoding(k);
    let l = c.data.len() as u32;
    assert(bytes.subrange(0, 4) =~= be32_bytes(l));
    crate::frame::lemma_be32_roundtrip(l);
    let n = be32_value(bytes.subrange(0, 4)) as int;
    assert(n == c.data.len());
    assert(bytes.len() == 12 + n);
    assert(bytes.subrange(4, 8) =~= c.type_bytes);
    assert(bytes.subrange(8, 8 + n) =~= c.data);
    assert(bytes.subrange(8 + n, 12 + n) =~= be32_bytes(crc2));
    crate::frame::lemma_be32_roundtrip(crc2);
    assert(crc32_of(c.type_bytes + c.data) == c.crc);
}

/// A chunk, immutable once built: either fresh from a tag and a payload
/// (checksum computed) or decoded from bytes (checksum verified).
#[derive(Debug)]
pub struct Chunk {
    length: u32,
    chunk_type: ChunkType,
    chunk_data: Vec<u8>,
    crc: u32,
}

impl View for Chunk {
    type V = ChunkModel;

    closed spec fn view(&self) -> ChunkModel {
        ChunkModel { type_bytes: self.chunk_type@, data: self.chunk_data@, crc: self.crc }
    }
}

impl Chunk {
    /// The stored length counts the payload bytes and the model is well
    /// formed; every constructor establishes this.
    pub closed spec fn wf(&self) -> bool {
        &&& self.length == self.chunk_data@.len()
        &&& chunk_wf(self@)
    }

    /// Well-formedness of the chunk is well-formedness of its model.
    pub broadcast proof fn lemma_wf_model(c: &Chunk)
        ensures
            #[trigger] c.wf() ==> chunk_wf(c@),
    {
    }

    /// Builds a fresh chunk from a tag and a payload, computing the checksum
    /// over tag ++ payload.
    pub fn new(chunk_type: ChunkType, data: Vec<u8>) -> (r: Chunk)
        requires
            data@.len() <= MAXIMUM_LENGTH,
        ensures
            r.wf(),
            r@ == (ChunkModel {
                type_bytes: chunk_type@,
                data: data@,
                crc: crc32_of(chunk_type@ + data@),
            }),
    {
        let tag = chunk_type.bytes();
        let mut buf: Vec<u8> = Vec::new();
        buf.extend_from_slice(tag.as_slice());
        buf.extend_from_slice(data.as_slice());
        proof {
            assert(buf@ =~= chunk_type@ + data@);
        }
        let crc = crc32(&buf);
        let length = data.len() as u32;
        Chunk { length, chunk_type, chunk_data: data, crc }
    }

    /// Decodes one chunk from the leading bytes of `value`: 4-byte big-endian
    /// length, 4-byte tag, the payload, and a 4-byte big-endian checksum that
    /// must match the one recomputed over tag ++ payload.
    pub fn try_from(value: &[u8]) -> (r: Result<Chunk, ChunkDecodingError>)
        ensures
            match r {
                Ok(c) => spec_decode_chunk(value@) == Ok::<ChunkModel, ChunkDecodingError>(c@)
                    && c.wf(),
                Err(e) => spec_decode_chunk(value@) == Err::<ChunkModel, ChunkDecodingError>(e),
            },
    {
        if value.len() < 4 {
            return Err(ChunkDecodingError::TruncatedInput);
        }
        let n = u32_from_be(value[0], value[1], value[2], value[3]);
        proof {
            assert(seq![value@[0], value@[1], value@[2], value@[3]] =~= value@.subrange(0, 4));
        }
        if n > MAXIMUM_LENGTH {
            return Err(ChunkDecodingError::LengthTooLarge);
        }
        let n_usize = n as usize;
        if value.len() < 12 || value.len() - 12 < n_usize {
            return Err(ChunkDecodingError::TruncatedInput);
        }
        let chunk_type = ChunkType::from_raw_bytes([value[4], value[5], value[6], value[7]]);
        proof {
            assert(chunk_type@ =~= value@.subrange(4, 8));
        }
        let mut data: Vec<u8> = Vec::new();
        let mut i: usize = 0;
        while i < n_usize
            invariant
                i <= n_usize,
                n_usize + 12 <= value@.len(),
                value@.len() <= usize::MAX,
                data@ =~= value@.subrange(8, 8 + i as int),
            decreases n_usize - i,
        {
            data.push(value[8 + i]);
            i = i + 1;
        }
        proof {
            assert(data@ =~= value@.subrange(8, 8 + n as int));
        }
        let given = u32_from_be(
            value[8 + n_usize],
            value[9 + n_usize],
            value[10 + n_usize],
            value[11 + n_usize],
        );
        proof {
            assert(seq![
                value@[8 + n as int],
                value@[9 + n as int],
                value@[10 + n as int],
                value@[11 + n as int],
            ] =~= value@.subrange(8 + n as int, 12 + n as int));
        }
        let tag = chunk_type.bytes();
        let mut buf: Vec<u8> = Vec::new();
        buf.extend_from_slice(tag.as_slice());
        buf.extend_from_slice(data.as_slice());
        proof {
            assert(buf@ =~= chunk_type@ + data@);
        }
        let computed = crc32(&buf);
        if given != computed {
            return Err(ChunkDecodingError::ChecksumMismatch);
        }
        Ok(Chunk { length: n, chunk_type, chunk_data: data, crc: given })
    }

    /// The frame of this chunk: length, tag, payload, checksum. Its size is
    /// exactly 12 + length bytes.
    pub fn as_bytes(&self) -> (r: Vec<u8>)
        requires
            self.wf(),
        ensures
            r@ == chunk_encoding(self@),
    {
        let len_bytes = u32_to_be(self.length);
        let crc_bytes = u32_to_be(self.crc);
        let mut out: Vec<u8> = Vec::new();
        out.extend_from_slice(len_bytes.as_slice());
        out.extend_from_slice(self.chunk_type.bytes().as_slice());
        out.extend_from_slice(self.chunk_data.as_slice());
        out.extend_from_slice(crc_bytes.as_slice());
        proof {
            assert(out@ =~= chunk_encoding(self@));
        }
        out
    }

    /// The count of payload bytes.
    pub fn length(&self) -> (r: u32)
        requires
            self.wf(),
        ensures
            r == self@.data.len(),
    {
        self.length
    }

    /// The chunk's type tag.
    pub fn chunk_type(&self) -> (r: &ChunkType)
        ensures
            r@ == self@.type_bytes,
    {
        &self.chunk_type
    }

    /// The opaque payload bytes.
    pub fn data(&self) -> (r: &[u8])
        ensures
            r@ == self@.data,
    {
        self.chunk_data.as_slice()
    }

    /// The stored 32-bit checksum.
    pub fn crc(&self) -> (r: u32)
        ensures
            r == self@.crc,
    {
        self.crc
    }

    /// The payload read as text, when it is valid UTF-8; `None` signals a
    /// payload that has no textual form.
    pub fn data_as_string(&self) -> (r: Option<String>)
        ensures
            match r {
                Some(s) => valid_utf8(self@.data) && s@ == decode_utf8(self@.data),
                None => !valid_utf8(self@.data),
            },
    {
        let v = slice_to_vec(self.chunk_data.as_slice());
        string_from_utf8(v)
    }
}

} // verus!
