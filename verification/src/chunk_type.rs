//! The 4-byte chunk type code and its validity rules.
//!
//! A type code built from text must be exactly four ASCII letters. One built
//! from an already-framed 4-byte array is accepted as it stands, because a
//! foreign or corrupt tag must not abort decoding by itself; at that layer
//! the checksum, not the character set, guards integrity.

use vstd::prelude::*;
use vstd::slice::slice_to_vec;
use vstd::string::StringSliceAdditionalSpecFns;
use vstd::utf8::decode_utf8;
use vstd::utf8::valid_utf8;

use crate::text::string_from_utf8;

verus! {

/// Why constructing a chunk type code from text failed.
#[derive(Debug, Clone, Copy, PartialEq, Eq, Structural)]
pub enum ChunkTypeError {
    /// The text did not hold exactly 4 bytes; carries the length it held.
    ByteLengthError(usize),
    /// Some byte of the text is not an ASCII letter.
    InvalidCharacter,
}

/// The byte is an ASCII letter, `A`-`Z` or `a`-`z`.
pub open spec fn is_alphabetic_byte(b: u8) -> bool {
    (65 <= b <= 90) || (97 <= b <= 122)
}

/// Every byte of the sequence is an ASCII letter.
pub open spec fn all_alphabetic(s: Seq<u8>) -> bool {
    forall|i: int| 0 <= i < s.len() ==> is_alphabetic_byte(#[trigger] s[i])
}

fn byte_is_alphabetic(b: u8) -> (r: bool)
    ensures
        r == is_alphabetic_byte(b),
{
    (65 <= b && b <= 90) || (97 <= b && b <= 122)
}

/// A chunk's 4-byte type tag. Its view is the sequence of the four bytes.
#[derive(Debug, Clone, Copy, PartialEq, Eq)]
pub struct ChunkType {
    raw_bytes: [u8; 4],
}

impl View for ChunkType {
    type V = Seq<u8>;

    closed spec fn view(&self) -> Seq<u8> {
        self.raw_bytes@
    }
}

/// A type tag always holds exactly four bytes.
pub broadcast proof fn lemma_chunk_type_len(ct: ChunkType)
    ensures
        (#[trigger] ct@).len() == 4,
{
}

impl ChunkType {
    /// Builds a type code from an already-framed 4-byte array, with no
    /// character-set validation.
    pub fn from_raw_bytes(value: [u8; 4]) -> (r: ChunkType)
        ensures
            r@ == value@,
    {
        ChunkType { raw_bytes: value }
    }

    /// Builds a type code from a 4-byte array; this never fails, but keeps
    /// the fallible shape so callers can treat both constructions alike.
    pub fn try_from(value: [u8; 4]) -> (r: Result<ChunkType, ChunkTypeError>)
        ensures
            r matches Ok(ct) && ct@ == value@,
    {
        Ok(ChunkType { raw_bytes: value })
    }

    /// Builds a type code from text: the input must be exactly 4 bytes, all
    /// ASCII alphabetic.
    pub fn from_str(s: &str) -> (r: Result<ChunkType, ChunkTypeError>)
        ensures
            s.spec_bytes().len() != 4 ==> r == Err::<ChunkType, ChunkTypeError>(
                ChunkTypeError::ByteLengthError(s.spec_bytes().len() as usize),
            ),
            s.spec_bytes().len() == 4 && !all_alphabetic(s.spec_bytes()) ==> r == Err::<
                ChunkType,
                ChunkTypeError,
            >(ChunkTypeError::InvalidCharacter),
            s.spec_bytes().len() == 4 && all_alphabetic(s.spec_bytes()) ==> (r matches Ok(ct)
                && ct@ == s.spec_bytes()),
    {
        let bytes = s.as_bytes();
        if bytes.len() != 4 {
            return Err(ChunkTypeError::ByteLengthError(bytes.len()));
        }
        let b0 = bytes[0];
        let b1 = bytes[1];
        let b2 = bytes[2];
        let b3 = bytes[3];
        let valid = byte_is_alphabetic(b0) && byte_is_alphabetic(b1) && byte_is_alphabetic(b2)
            && byte_is_alphabetic(b3);
        if !valid {
            proof {
                assert(!all_alphabetic(s.spec_bytes()));
            }
            return Err(ChunkTypeError::InvalidCharacter);
        }
        let ct = ChunkType { raw_bytes: [b0, b1, b2, b3] };
        proof {
            assert forall|i: int| 0 <= i < s.spec_bytes().len() implies is_alphabetic_byte(
                #[trigger] s.spec_bytes()[i],
            ) by {
                assert(i == 0 || i == 1 || i == 2 || i == 3);
            }
            assert(ct@ =~= s.spec_bytes());
        }
        Ok(ct)
    }

    /// The four raw bytes of the type tag.
    pub fn bytes(&self) -> (r: [u8; 4])
        ensures
            r@ == self@,
    {
        self.raw_bytes
    }

    /// The textual form of the tag, when its bytes are valid UTF-8. Only a
    /// tag built from raw bytes can fail here.
    pub fn to_text(&self) -> (r: Option<String>)
        ensures
            match r {
                Some(s) => valid_utf8(self@) && s@ == decode_utf8(self@),
                None => !valid_utf8(self@),
            },
    {
        let v = slice_to_vec(self.raw_bytes.as_slice());
        string_from_utf8(v)
    }

    /// The tag is four ASCII letters and its reserved bit is clear.
    pub fn is_valid(&self) -> (r: bool)
        ensures
            r == (all_alphabetic(self@) && self@[2] & 0x20 == 0),
    {
        let alpha = byte_is_alphabetic(self.raw_bytes[0]) && byte_is_alphabetic(self.raw_bytes[1])
            && byte_is_alphabetic(self.raw_bytes[2]) && byte_is_alphabetic(self.raw_bytes[3]);
        proof {
            if alpha {
                assert forall|i: int| 0 <= i < self@.len() implies is_alphabetic_byte(
                    #[trigger] self@[i],
                ) by {
                    assert(i == 0 || i == 1 || i == 2 || i == 3);
                }
            }
        }
        alpha && self.is_reserved_bit_valid()
    }

    /// Bit 5 of the first byte is clear: the chunk is critical, not ancillary.
    pub fn is_critical(&self) -> (r: bool)
        ensures
            r == (self@[0] & 0x20 == 0),
    {
        self.raw_bytes[0] & 0x20 == 0
    }

    /// Bit 5 of the second byte is clear: the chunk is public, not private.
    pub fn is_public(&self) -> (r: bool)
        ensures
            r == (self@[1] & 0x20 == 0),
    {
        self.raw_bytes[1] & 0x20 == 0
    }

    /// Bit 5 of the third byte is clear, as the format requires of every
    /// conforming tag.
    pub fn is_reserved_bit_valid(&self) -> (r: bool)
        ensures
            r == (self@[2] & 0x20 == 0),
    {
        self.raw_bytes[2] & 0x20 == 0
    }

    /// Bit 5 of the fourth byte is set: the chunk is safe to copy.
    pub fn is_safe_to_copy(&self) -> (r: bool)
        ensures
            r == (self@[3] & 0x20 != 0),
    {
        self.raw_bytes[3] & 0x20 != 0
    }
}

} // verus!
