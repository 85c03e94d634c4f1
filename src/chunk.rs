use vstd::prelude::*;

use crate::error::{ChunkEnd, ChunkField, CardError};

verus! {

/// A chunk record: its four-byte type tag and its data.
#[derive(Clone, Debug, PartialEq, Eq)]
pub struct Chunk {
    pub chunk_type: [u8; 4],
    pub chunk_data: Vec<u8>,
}

/// The mathematical content of a chunk.
pub ghost struct ChunkView {
    pub kind: Seq<u8>,
    pub data: Seq<u8>,
}

impl View for Chunk {
    type V = ChunkView;

    open spec fn view(&self) -> ChunkView {
        ChunkView { kind: self.chunk_type@, data: self.chunk_data@ }
    }
}

pub open spec fn chunks_view(cs: Seq<Chunk>) -> Seq<ChunkView> {
    cs.map_values(|c: Chunk| c@)
}

/// The eight bytes every PNG file starts with.
pub open spec fn png_magic() -> Seq<u8> {
    seq![0x89u8, 0x50u8, 0x4Eu8, 0x47u8, 0x0Du8, 0x0Au8, 0x1Au8, 0x0Au8]
}

pub open spec fn ihdr_kind() -> Seq<u8> {
    seq![0x49u8, 0x48u8, 0x44u8, 0x52u8]
}

pub open spec fn iend_kind() -> Seq<u8> {
    seq![0x49u8, 0x45u8, 0x4Eu8, 0x44u8]
}

/// The big-endian unsigned integer held in `b[i..i + 4]`.
pub open spec fn be_u32_at(b: Seq<u8>, i: int) -> int {
    b[i] as int * 0x1000000 + b[i + 1] as int * 0x10000 + b[i + 2] as int * 0x100 + b[i + 3] as int
}

pub open spec fn tag_at(b: Seq<u8>, i: int) -> [u8; 4] {
    [b[i], b[i + 1], b[i + 2], b[i + 3]]
}

/// The CRC-32 (zlib/PNG polynomial) of a byte sequence.
pub uninterp spec fn crc32_of(bytes: Seq<u8>) -> u32;

/// Relies on `crc32fast::hash`: the standard CRC-32 of the bytes, which depends on them alone.
#[verifier::external_body]
fn crc32(bytes: &[u8]) -> (r: u32)
    ensures
        r == crc32_of(bytes@),
{
    crc32fast::hash(bytes)
}

/// The chunk records of `b` from offset `pos` to its end, or the first fault
/// met on the way: a record cut short, or a stored checksum that is not the
/// CRC-32 of the record's type tag followed by its data.
pub open spec fn chunks_from(b: Seq<u8>, pos: int) -> Result<Seq<ChunkView>, CardError>
    decreases b.len() - pos,
{
    if pos < 0 || pos >= b.len() {
        Ok(Seq::empty())
    } else if b.len() - pos < 4 {
        Err(CardError::TruncatedInput(ChunkField::Length))
    } else if b.len() - pos < 8 {
        Err(CardError::TruncatedInput(ChunkField::ChunkType))
    } else {
        let len = be_u32_at(b, pos);
        let end = pos + 8 + len;
        if b.len() < end {
            Err(CardError::TruncatedInput(ChunkField::Data))
        } else if b.len() < end + 4 {
            Err(CardError::TruncatedInput(ChunkField::Checksum))
        } else if be_u32_at(b, end) != crc32_of(b.subrange(pos + 4, end)) as int {
            Err(CardError::ChecksumMismatch(tag_at(b, pos + 4)))
        } else {
            let c = ChunkView { kind: b.subrange(pos + 4, pos + 8), data: b.subrange(pos + 8, end) };
            match chunks_from(b, end + 4) {
                Ok(rest) => Ok(seq![c] + rest),
                Err(e) => Err(e),
            }
        }
    }
}

/// What reading a whole PNG buffer gives: the signature check, then the chunk records.
pub open spec fn read_result(b: Seq<u8>) -> Result<Seq<ChunkView>, CardError> {
    if b.len() < 8 || b.subrange(0, 8) != png_magic() {
        Err(CardError::InvalidSignature)
    } else {
        chunks_from(b, 8)
    }
}

pub open spec fn prepend_chunks(
    done: Seq<ChunkView>,
    r: Result<Seq<ChunkView>, CardError>,
) -> Result<Seq<ChunkView>, CardError> {
    match r {
        Ok(rest) => Ok(done + rest),
        Err(e) => Err(e),
    }
}

/// The ordering rule: a non-empty sequence that starts with `IHDR` and ends with `IEND`.
pub open spec fn order_result(cs: Seq<ChunkView>) -> Result<(), CardError> {
    if cs.len() == 0 || cs[0].kind != ihdr_kind() {
        Err(CardError::ChunkOrderError(ChunkEnd::First))
    } else if cs.last().kind != iend_kind() {
        Err(CardError::ChunkOrderError(ChunkEnd::Last))
    } else {
        Ok(())
    }
}

fn read_be_u32(b: &[u8], i: usize) -> (r: u32)
    requires
        i + 4 <= b@.len(),
    ensures
        r as int == be_u32_at(b@, i as int),
{
    (b[i] as u32) * 0x1000000 + (b[i + 1] as u32) * 0x10000 + (b[i + 2] as u32) * 0x100 + (b[
        i + 3
    ] as u32)
}

fn is_signature(b: &[u8]) -> (r: bool)
    requires
        b@.len() >= 8,
    ensures
        r == (b@.subrange(0, 8) == png_magic()),
{
    let r = b[0] == 0x89 && b[1] == 0x50 && b[2] == 0x4E && b[3] == 0x47 && b[4] == 0x0D && b[5]
        == 0x0A && b[6] == 0x1A && b[7] == 0x0A;
    assert(r ==> b@.subrange(0, 8) =~= png_magic());
    assert(b@.subrange(0, 8) == png_magic() ==> r) by {
        if b@.subrange(0, 8) == png_magic() {
            assert(b@.subrange(0, 8)[0] == b@[0]);
        }
    }
    r
}

/// Whether a tag holds the four given bytes.
fn tag_is(t: &[u8; 4], a: u8, b: u8, c: u8, d: u8) -> (r: bool)
    ensures
        r == (t@ == seq![a, b, c, d]),
{
    let r = t[0] == a && t[1] == b && t[2] == c && t[3] == d;
    assert(r ==> t@ =~= seq![a, b, c, d]);
    assert(t@ == seq![a, b, c, d] ==> r) by {
        if t@ == seq![a, b, c, d] {
            assert(t@[0] == a && t@[1] == b && t@[2] == c && t@[3] == d);
        }
    }
    r
}

/// Checks the PNG signature and reads every chunk record that follows it,
/// verifying each record's CRC-32 as it goes.
pub fn read_chunks(data: &[u8]) -> (r: Result<Vec<Chunk>, CardError>)
    ensures
        match r {
            Ok(cs) => read_result(data@) == Ok::<Seq<ChunkView>, CardError>(chunks_view(cs@)),
            Err(e) => read_result(data@) == Err::<Seq<ChunkView>, CardError>(e),
        },
{
    if data.len() < 8 || !is_signature(data) {
        return Err(CardError::InvalidSignature);
    }
    let mut chunks: Vec<Chunk> = Vec::new();
    let mut pos: usize = 8;
    while pos < data.len()
        invariant
            8 <= pos <= data@.len(),
            read_result(data@) == prepend_chunks(chunks_view(chunks@), chunks_from(data@, pos as int)),
        decreases data@.len() - pos,
    {
        let ghost before = chunks_view(chunks@);
        let remaining: usize = data.len() - pos;
        if remaining < 4 {
            return Err(CardError::TruncatedInput(ChunkField::Length));
        }
        if remaining < 8 {
            return Err(CardError::TruncatedInput(ChunkField::ChunkType));
        }
        let len: u32 = read_be_u32(data, pos);
        if ((remaining - 8) as u64) < len as u64 {
            return Err(CardError::TruncatedInput(ChunkField::Data));
        }
        let end: usize = pos + 8 + len as usize;
        if data.len() - end < 4 {
            return Err(CardError::TruncatedInput(ChunkField::Checksum));
        }
        let stored: u32 = read_be_u32(data, end);
        let computed: u32 = crc32(&data[pos + 4..end]);
        let tag: [u8; 4] = [data[pos + 4], data[pos + 5], data[pos + 6], data[pos + 7]];
        if stored != computed {
            return Err(CardError::ChecksumMismatch(tag));
        }
        let chunk = Chunk { chunk_type: tag, chunk_data: vstd::slice::slice_to_vec(&data[pos + 8..end]) };
        assert(chunk@.kind =~= data@.subrange(pos + 4, pos + 8));
        assert(chunks_from(data@, pos as int) == prepend_chunks(
            seq![chunk@],
            chunks_from(data@, end + 4),
        ));
        chunks.push(chunk);
        assert(chunks_view(chunks@) =~= before + seq![chunk@]);
        proof {
            match chunks_from(data@, end + 4) {
                Ok(rest) => {
                    assert(before + (seq![chunk@] + rest) =~= (before + seq![chunk@]) + rest);
                },
                Err(_) => {},
            }
        }
        pos = end + 4;
    }
    assert(chunks_view(chunks@) + Seq::<ChunkView>::empty() =~= chunks_view(chunks@));
    Ok(chunks)
}

/// Checks the ordering rule: the chunks start with `IHDR` and end with `IEND`.
pub fn check_vaild(vec_chunks: &Vec<Chunk>) -> (r: Result<(), CardError>)
    ensures
        r == order_result(chunks_view(vec_chunks@)),
{
    let n = vec_chunks.len();
    if n == 0 || !tag_is(&vec_chunks[0].chunk_type, 0x49, 0x48, 0x44, 0x52) {
        return Err(CardError::ChunkOrderError(ChunkEnd::First));
    }
    if !tag_is(&vec_chunks[n - 1].chunk_type, 0x49, 0x45, 0x4E, 0x44) {
        return Err(CardError::ChunkOrderError(ChunkEnd::Last));
    }
    Ok(())
}

} // verus!
