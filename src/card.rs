use vstd::prelude::*;

use crate::character::{
    character_result, classified, classify, decode_character, escaped_crlf_at, unescape_crlf,
    CharacterView, ClassifiedFields, ClassifiedView,
};
use crate::chunk::{
    be_u32_at, check_vaild, chunks_from, crc32_of, ihdr_kind, iend_kind, order_result,
    read_chunks, read_result, tag_at, ChunkView,
};
use crate::error::{CardError, ChunkEnd};
use crate::payload::{
    body_of, chara_keyword, first_null_from, keyword_of, parsing_text, payload_result,
    text_payload,
};

verus! {

/// What decoding a whole PNG buffer gives: its chunks, checked for order,
/// the payload of the first `tEXt` chunk, the record it describes, and that
/// record classified.
pub open spec fn card_result(b: Seq<u8>) -> Result<ClassifiedView, CardError> {
    match read_result(b) {
        Err(e) => Err(e),
        Ok(cs) => match order_result(cs) {
            Err(e) => Err(e),
            Ok(_) => match text_payload(cs) {
                Err(e) => Err(e),
                Ok(text) => match character_result(text) {
                    Err(e) => Err(e),
                    Ok(c) => Ok(classified(c)),
                },
            },
        },
    }
}

/// Decodes the character card embedded in a PNG buffer.
pub fn decode_card(data: &[u8]) -> (r: Result<ClassifiedFields, CardError>)
    ensures
        match r {
            Ok(f) => card_result(data@) == Ok::<ClassifiedView, CardError>(f@),
            Err(e) => card_result(data@) == Err::<ClassifiedView, CardError>(e),
        },
{
    let chunks = match read_chunks(data) {
        Ok(cs) => cs,
        Err(e) => {
            return Err(e);
        },
    };
    match check_vaild(&chunks) {
        Ok(()) => {},
        Err(e) => {
            return Err(e);
        },
    }
    let text = match parsing_text(chunks) {
        Ok(t) => t,
        Err(e) => {
            return Err(e);
        },
    };
    let character = match decode_character(text.as_str()) {
        Ok(c) => c,
        Err(e) => {
            return Err(e);
        },
    };
    Ok(classify(character))
}

/// A buffer shorter than the eight-byte signature is never a card: it is
/// rejected as having no valid signature.
pub proof fn lemma_short_buffer_rejected(b: Seq<u8>)
    requires
        b.len() < 8,
    ensures
        card_result(b) == Err::<ClassifiedView, CardError>(CardError::InvalidSignature),
{
}

/// Where the records read cleanly but the first is missing or is not `IHDR`,
/// decoding fails with an ordering error at the first end, whatever the
/// checksums were.
pub proof fn lemma_first_chunk_must_be_ihdr(b: Seq<u8>)
    requires
        read_result(b) is Ok,
        read_result(b)->Ok_0.len() == 0 || read_result(b)->Ok_0[0].kind != ihdr_kind(),
    ensures
        card_result(b) == Err::<ClassifiedView, CardError>(
            CardError::ChunkOrderError(ChunkEnd::First),
        ),
{
}

/// Where the records read cleanly but the last is not `IEND`, decoding fails
/// with an ordering error.
pub proof fn lemma_last_chunk_must_be_iend(b: Seq<u8>)
    requires
        read_result(b) is Ok,
        read_result(b)->Ok_0.len() > 0,
        read_result(b)->Ok_0.last().kind != iend_kind(),
    ensures
        card_result(b) matches Err(CardError::ChunkOrderError(_)),
{
}

/// The offset of the `k`-th chunk record that the walk meets from `pos` on.
pub open spec fn record_at(b: Seq<u8>, pos: int, k: nat) -> int
    decreases k,
{
    if k == 0 {
        pos
    } else {
        record_at(b, pos + 12 + be_u32_at(b, pos), (k - 1) as nat)
    }
}

/// Changing bytes of a record that reads cleanly, after its length field,
/// such that its stored checksum no longer is the CRC-32 of its type and
/// data, makes the walk fail there with a checksum error naming the type it
/// then holds; the records before it are left as they were.
pub proof fn lemma_record_corruption_detected(b: Seq<u8>, b2: Seq<u8>, pos: int, k: nat)
    requires
        0 <= pos,
        chunks_from(b, pos) is Ok,
        k < chunks_from(b, pos)->Ok_0.len(),
        b2.len() == b.len(),
        ({
            let p = record_at(b, pos, k);
            let end = p + 8 + be_u32_at(b, p);
            &&& forall|i: int| 0 <= i < p + 4 ==> b2[i] == b[i]
            &&& forall|i: int| end + 4 <= i < b.len() ==> b2[i] == b[i]
            &&& be_u32_at(b2, end) != crc32_of(b2.subrange(p + 4, end)) as int
        }),
    ensures
        chunks_from(b2, pos) == Err::<Seq<ChunkView>, CardError>(
            CardError::ChecksumMismatch(tag_at(b2, record_at(b, pos, k) + 4)),
        ),
    decreases k,
{
    let len = be_u32_at(b, pos);
    let end = pos + 8 + len;
    lemma_record_in_bounds(b, pos, k);
    assert(b2[pos] == b[pos] && b2[pos + 1] == b[pos + 1] && b2[pos + 2] == b[pos + 2] && b2[pos
        + 3] == b[pos + 3]);
    assert(be_u32_at(b2, pos) == len);
    if k > 0 {
        lemma_record_in_bounds(b, end + 4, (k - 1) as nat);
        assert(b2.subrange(pos + 4, end) =~= b.subrange(pos + 4, end));
        assert(be_u32_at(b2, end) == be_u32_at(b, end));
        lemma_record_corruption_detected(b, b2, end + 4, (k - 1) as nat);
    }
}

/// A bytewise difference inside four bytes changes the big-endian integer they hold.
proof fn lemma_be_u32_differs(b: Seq<u8>, b2: Seq<u8>, i: int, j: int)
    requires
        0 <= i,
        i + 4 <= b.len(),
        b2.len() == b.len(),
        i <= j < i + 4,
        b2[j] != b[j],
        forall|m: int| i <= m < i + 4 && m != j ==> b2[m] == b[m],
    ensures
        be_u32_at(b2, i) != be_u32_at(b, i),
{
}

/// Changing one byte of the stored checksum of a record of a buffer that
/// reads cleanly makes reading fail with a checksum error naming that
/// record's type.
pub proof fn lemma_checksum_byte_change_detected(b: Seq<u8>, k: nat, j: int, x: u8)
    requires
        read_result(b) is Ok,
        k < read_result(b)->Ok_0.len(),
        ({
            let p = record_at(b, 8, k);
            let end = p + 8 + be_u32_at(b, p);
            end <= j < end + 4
        }),
        x != b[j],
    ensures
        read_result(b.update(j, x)) == Err::<Seq<ChunkView>, CardError>(
            CardError::ChecksumMismatch(tag_at(b, record_at(b, 8, k) + 4)),
        ),
{
    let b2 = b.update(j, x);
    let p = record_at(b, 8, k);
    let end = p + 8 + be_u32_at(b, p);
    lemma_record_in_bounds(b, 8, k);
    assert(b2.subrange(0, 8) =~= b.subrange(0, 8));
    lemma_be_u32_differs(b, b2, end, j);
    assert(b2.subrange(p + 4, end) =~= b.subrange(p + 4, end));
    assert(be_u32_at(b, end) == crc32_of(b.subrange(p + 4, end)) as int) by {
        lemma_record_checksum_holds(b, 8, k);
    }
    lemma_record_corruption_detected(b, b2, 8, k);
    assert(tag_at(b2, p + 4) =~= tag_at(b, p + 4));
}

/// The `k`-th record met from `pos` lies after `pos`, and whole within the buffer.
proof fn lemma_record_in_bounds(b: Seq<u8>, pos: int, k: nat)
    requires
        0 <= pos,
        chunks_from(b, pos) is Ok,
        k < chunks_from(b, pos)->Ok_0.len(),
    ensures
        pos <= record_at(b, pos, k),
        record_at(b, pos, k) + 12 + be_u32_at(b, record_at(b, pos, k)) <= b.len(),
        8 <= b.len() - record_at(b, pos, k),
    decreases k,
{
    if k > 0 {
        lemma_record_in_bounds(b, pos + 12 + be_u32_at(b, pos), (k - 1) as nat);
    }
}

/// The stored checksum of each record met in a clean read is the CRC-32 of
/// its type and data.
proof fn lemma_record_checksum_holds(b: Seq<u8>, pos: int, k: nat)
    requires
        0 <= pos,
        chunks_from(b, pos) is Ok,
        k < chunks_from(b, pos)->Ok_0.len(),
    ensures
        ({
            let p = record_at(b, pos, k);
            let end = p + 8 + be_u32_at(b, p);
            be_u32_at(b, end) == crc32_of(b.subrange(p + 4, end)) as int
        }),
    decreases k,
{
    if k > 0 {
        lemma_record_checksum_holds(b, pos + 12 + be_u32_at(b, pos), (k - 1) as nat);
    }
}

/// Text-chunk data whose keyword is not `chara` is refused as such, whatever
/// its body holds.
pub proof fn lemma_foreign_keyword_rejected(keyword: Seq<u8>, body: Seq<u8>)
    requires
        forall|i: int| 0 <= i < keyword.len() ==> keyword[i] != 0,
        keyword != chara_keyword(),
    ensures
        payload_result(keyword + seq![0u8] + body) == Err::<Seq<char>, CardError>(
            CardError::KeywordMismatch,
        ),
{
    lemma_keyword_split(keyword, body);
}

/// Data made of a keyword without null bytes, a null byte and a body splits
/// back into that keyword and that body.
pub proof fn lemma_keyword_split(keyword: Seq<u8>, body: Seq<u8>)
    requires
        forall|i: int| 0 <= i < keyword.len() ==> keyword[i] != 0,
    ensures
        keyword_of(keyword + seq![0u8] + body) == keyword,
        body_of(keyword + seq![0u8] + body) == body,
{
    let d = keyword + seq![0u8] + body;
    lemma_first_null_after(d, keyword.len() as int, 0);
    assert(d.subrange(0, keyword.len() as int) =~= keyword);
    assert(d.subrange(keyword.len() as int + 1, d.len() as int) =~= body);
}

proof fn lemma_first_null_after(d: Seq<u8>, k: int, i: int)
    requires
        0 <= i <= k < d.len(),
        d[k] == 0,
        forall|m: int| 0 <= m < k ==> d[m] != 0,
    ensures
        first_null_from(d, i) == k,
    decreases k - i,
{
    if i < k {
        lemma_first_null_after(d, k, i + 1);
    }
}

/// Decoding depends on the bytes alone: two decodings of one buffer give
/// identical fields, or the same error.
pub proof fn lemma_decoding_repeatable(
    b: Seq<u8>,
    first: Result<ClassifiedView, CardError>,
    second: Result<ClassifiedView, CardError>,
)
    requires
        first == card_result(b),
        second == card_result(b),
    ensures
        first == second,
{
}

/// An ASCII-only name routes the description to the English slot and leaves
/// the Korean one empty; any other name does the reverse.
pub proof fn lemma_description_routing(c: CharacterView)
    ensures
        vstd::utf8::is_ascii_chars(c.name) ==> {
            &&& !classified(c).is_korean
            &&& classified(c).english_description == unescape_crlf(c.description)
            &&& classified(c).korean_description.len() == 0
        },
        !vstd::utf8::is_ascii_chars(c.name) ==> {
            &&& classified(c).is_korean
            &&& classified(c).korean_description == unescape_crlf(c.description)
            &&& classified(c).english_description.len() == 0
        },
{
}

/// A written-out `\r\n` at the front becomes one newline.
pub proof fn lemma_escape_replaced(s: Seq<char>)
    ensures
        unescape_crlf(seq!['\\', 'r', '\\', 'n'] + s) == seq!['\n'] + unescape_crlf(s),
{
    let t = seq!['\\', 'r', '\\', 'n'] + s;
    assert(escaped_crlf_at(t, 0));
    assert(t.subrange(4, t.len() as int) =~= s);
}

/// Text without any written-out `\r\n` is left unchanged.
pub proof fn lemma_no_escape_unchanged(s: Seq<char>)
    requires
        forall|i: int| !escaped_crlf_at(s, i),
    ensures
        unescape_crlf(s) == s,
    decreases s.len(),
{
    if s.len() > 0 {
        let rest = s.subrange(1, s.len() as int);
        assert(!escaped_crlf_at(s, 0));
        assert forall|i: int| !escaped_crlf_at(rest, i) by {
            if escaped_crlf_at(rest, i) {
                assert(escaped_crlf_at(s, i + 1));
            }
        }
        lemma_no_escape_unchanged(rest);
        assert(seq![s[0]] + rest =~= s);
    }
}

} // verus!
