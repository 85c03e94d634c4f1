use vstd::prelude::*;

verus! {

/// The field of a chunk record that the input ended in the middle of.
#[derive(Clone, Copy, Debug, PartialEq, Eq)]
pub enum ChunkField {
    Length,
    ChunkType,
    Data,
    Checksum,
}

/// Which end of the chunk sequence broke the ordering rule.
#[derive(Clone, Copy, Debug, PartialEq, Eq)]
pub enum ChunkEnd {
    /// The sequence is empty or does not start with `IHDR`.
    First,
    /// The sequence does not end with `IEND`.
    Last,
}

/// A required string field of a character record.
#[derive(Clone, Copy, Debug, PartialEq, Eq)]
pub enum CardField {
    Name,
    Personality,
    Description,
}

/// Every way in which decoding a character card can fail.
#[derive(Clone, Copy, Debug, PartialEq, Eq)]
pub enum CardError {
    /// The first eight bytes are missing or are not the PNG magic.
    InvalidSignature,
    /// The buffer ended inside the given field of a chunk record.
    TruncatedInput(ChunkField),
    /// The first chunk is not `IHDR`, or the last is not `IEND`.
    ChunkOrderError(ChunkEnd),
    /// The stored CRC-32 of the chunk with this type tag is wrong.
    ChecksumMismatch([u8; 4]),
    /// No `tEXt` chunk is present.
    MissingPayload,
    /// The first `tEXt` chunk's keyword is not `chara`.
    KeywordMismatch,
    /// The payload body is not standard base64.
    Base64DecodeError,
    /// The decoded payload is not UTF-8.
    Utf8DecodeError,
    /// The decoded text is not a JSON document.
    MalformedJson,
    /// The field is missing or does not hold a string.
    SchemaError(CardField),
}

} // verus!
