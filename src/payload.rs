use vstd::prelude::*;
use vstd::utf8::{decode_utf8, valid_utf8};

use base64::Engine;

use crate::chunk::{chunks_view, Chunk, ChunkView};
use crate::error::CardError;

verus! {

/// The error of base64 decoding, carried through opaque.
#[verifier::external_type_specification]
#[verifier::external_body]
pub struct ExDecodeError(base64::DecodeError);

/// The error of `String::from_utf8`, carried through opaque.
#[verifier::external_type_specification]
#[verifier::external_body]
pub struct ExFromUtf8Error(std::string::FromUtf8Error);

/// The bytes that standard base64 text (RFC 4648 alphabet, with padding)
/// decodes to, or `None` where the text is not such base64.
pub uninterp spec fn base64_decoded(text: Seq<u8>) -> Option<Seq<u8>>;

/// Relies on `base64::engine::general_purpose::STANDARD.decode`: the decoded
/// bytes, or an error, as a function of the input alone.
#[verifier::external_body]
fn decode_base64(text: &[u8]) -> (r: Result<Vec<u8>, base64::DecodeError>)
    ensures
        match r {
            Ok(v) => base64_decoded(text@) == Some(v@),
            Err(_) => base64_decoded(text@) is None,
        },
{
    base64::engine::general_purpose::STANDARD.decode(text)
}

/// Relies on `String::from_utf8`: it succeeds exactly on valid UTF-8, and the
/// string then holds the characters that the bytes encode.
#[verifier::external_body]
fn utf8_string(bytes: Vec<u8>) -> (r: Result<String, std::string::FromUtf8Error>)
    ensures
        match r {
            Ok(s) => valid_utf8(bytes@) && s@ == decode_utf8(bytes@),
            Err(_) => !valid_utf8(bytes@),
        },
{
    String::from_utf8(bytes)
}

/// The tag `tEXt`.
pub open spec fn text_kind() -> Seq<u8> {
    seq![0x74u8, 0x45u8, 0x58u8, 0x74u8]
}

/// The keyword `chara`.
pub open spec fn chara_keyword() -> Seq<u8> {
    seq![0x63u8, 0x68u8, 0x61u8, 0x72u8, 0x61u8]
}

/// The index of the first null byte of `d` at or after `i`, or `d.len()` if there is none.
pub open spec fn first_null_from(d: Seq<u8>, i: int) -> int
    decreases d.len() - i,
{
    if i < 0 || i >= d.len() {
        d.len() as int
    } else if d[i] == 0 {
        i
    } else {
        first_null_from(d, i + 1)
    }
}

/// The keyword of text-chunk data: everything before the first null byte.
pub open spec fn keyword_of(d: Seq<u8>) -> Seq<u8> {
    d.subrange(0, first_null_from(d, 0))
}

/// The body of text-chunk data: everything after the first null byte (nothing if there is none).
pub open spec fn body_of(d: Seq<u8>) -> Seq<u8> {
    let k = first_null_from(d, 0);
    if k < d.len() {
        d.subrange(k + 1, d.len() as int)
    } else {
        Seq::empty()
    }
}

/// What the data of a `tEXt` chunk decodes to: the keyword must be `chara`,
/// the body standard base64, and the decoded bytes UTF-8.
pub open spec fn payload_result(d: Seq<u8>) -> Result<Seq<char>, CardError> {
    if keyword_of(d) != chara_keyword() {
        Err(CardError::KeywordMismatch)
    } else {
        match base64_decoded(body_of(d)) {
            None => Err(CardError::Base64DecodeError),
            Some(raw) => if valid_utf8(raw) {
                Ok(decode_utf8(raw))
            } else {
                Err(CardError::Utf8DecodeError)
            },
        }
    }
}

/// The payload of the first `tEXt` chunk at or after index `i`.
pub open spec fn text_payload_from(cs: Seq<ChunkView>, i: int) -> Result<Seq<char>, CardError>
    decreases cs.len() - i,
{
    if i < 0 || i >= cs.len() {
        Err(CardError::MissingPayload)
    } else if cs[i].kind == text_kind() {
        payload_result(cs[i].data)
    } else {
        text_payload_from(cs, i + 1)
    }
}

/// The payload of the first `tEXt` chunk of a sequence.
pub open spec fn text_payload(cs: Seq<ChunkView>) -> Result<Seq<char>, CardError> {
    text_payload_from(cs, 0)
}

/// Whether an executable string result carries the given modelled result.
pub open spec fn string_result_is(r: Result<String, CardError>, m: Result<Seq<char>, CardError>) -> bool {
    match r {
        Ok(s) => m == Ok::<Seq<char>, CardError>(s@),
        Err(e) => m == Err::<Seq<char>, CardError>(e),
    }
}

fn keyword_end(d: &Vec<u8>) -> (k: usize)
    ensures
        k <= d@.len(),
        k as int == first_null_from(d@, 0),
{
    let mut i: usize = 0;
    while i < d.len() && d[i] != 0
        invariant
            i <= d@.len(),
            first_null_from(d@, 0) == first_null_from(d@, i as int),
        decreases d@.len() - i,
    {
        i = i + 1;
    }
    i
}

fn is_chara(k: &[u8]) -> (r: bool)
    ensures
        r == (k@ == chara_keyword()),
{
    let r = k.len() == 5 && k[0] == 0x63 && k[1] == 0x68 && k[2] == 0x61 && k[3] == 0x72 && k[4]
        == 0x61;
    assert(r ==> k@ =~= chara_keyword());
    assert(k@ == chara_keyword() ==> r) by {
        if k@ == chara_keyword() {
            assert(k@[0] == 0x63 && k@[1] == 0x68 && k@[2] == 0x61 && k@[3] == 0x72 && k@[4]
                == 0x61);
        }
    }
    r
}

/// Decodes the data of a `tEXt` chunk: keyword `chara`, a null byte, then
/// base64 of UTF-8 text.
pub fn parsing_data(data: Chunk) -> (r: Result<String, CardError>)
    ensures
        string_result_is(r, payload_result(data.chunk_data@)),
{
    let d = &data.chunk_data;
    let k = keyword_end(d);
    if !is_chara(&d.as_slice()[0..k]) {
        return Err(CardError::KeywordMismatch);
    }
    let body: &[u8] = if k < d.len() {
        &d.as_slice()[k + 1..d.len()]
    } else {
        &d.as_slice()[0..0]
    };
    assert(body@ =~= body_of(d@));
    let raw = match decode_base64(body) {
        Ok(v) => v,
        Err(_) => {
            return Err(CardError::Base64DecodeError);
        },
    };
    match utf8_string(raw) {
        Ok(s) => Ok(s),
        Err(_) => Err(CardError::Utf8DecodeError),
    }
}

/// Finds the first `tEXt` chunk and decodes its payload.
pub fn parsing_text(vec_chunks: Vec<Chunk>) -> (r: Result<String, CardError>)
    ensures
        string_result_is(r, text_payload(chunks_view(vec_chunks@))),
{
    let ghost cs = chunks_view(vec_chunks@);
    let mut chunks = vec_chunks;
    let mut i: usize = 0;
    while i < chunks.len()
        invariant
            i <= chunks@.len(),
            chunks_view(chunks@) == cs,
            cs == chunks_view(vec_chunks@),
            text_payload(cs) == text_payload_from(cs, i as int),
        decreases chunks@.len() - i,
    {
        let t = &chunks[i].chunk_type;
        if t[0] == 0x74 && t[1] == 0x45 && t[2] == 0x58 && t[3] == 0x74 {
            assert(cs[i as int].kind =~= text_kind());
            let c = chunks.swap_remove(i);
            return parsing_data(c);
        }
        assert(cs[i as int].kind != text_kind()) by {
            if cs[i as int].kind == text_kind() {
                assert(cs[i as int].kind[0] == 0x74);
            }
        }
        i = i + 1;
    }
    Err(CardError::MissingPayload)
}

} // verus!
