//! A library for reading and editing the chunk structure of PNG files.
//!
//! A PNG file is an 8-byte signature followed by a sequence of chunks, each
//! a length-prefixed, type-tagged, CRC-checked binary record. This crate
//! models that structure: it validates 4-byte chunk type codes, encodes and
//! decodes single chunks with checksum verification, and parses and
//! re-serializes whole files byte-exactly, so chunks can be listed, found,
//! appended, and removed without touching the rest of the file.

pub mod chunk;
pub mod chunk_type;
pub mod commands;
pub mod frame;
pub mod png;
pub mod text;
