use base64::Engine;
use png_parser::{
    check_vaild, decode_card, decode_character, parsing_data, parsing_text, parsing_text_for_cat,
    read_chunks, unescape_newlines, CardError, CardField, Character, ChunkEnd, ChunkField, Chunk,
};

const MAGIC: [u8; 8] = [0x89, b'P', b'N', b'G', 0x0D, 0x0A, 0x1A, 0x0A];

fn record(kind: &[u8; 4], data: &[u8]) -> Vec<u8> {
    let mut out = Vec::new();
    out.extend_from_slice(&(data.len() as u32).to_be_bytes());
    out.extend_from_slice(kind);
    out.extend_from_slice(data);
    let mut covered = kind.to_vec();
    covered.extend_from_slice(data);
    out.extend_from_slice(&crc32fast::hash(&covered).to_be_bytes());
    out
}

fn text_data(keyword: &str, json: &str) -> Vec<u8> {
    let mut d = keyword.as_bytes().to_vec();
    d.push(0);
    d.extend_from_slice(base64::engine::general_purpose::STANDARD.encode(json).as_bytes());
    d
}

fn png(records: &[Vec<u8>]) -> Vec<u8> {
    let mut out = MAGIC.to_vec();
    for r in records {
        out.extend_from_slice(r);
    }
    out
}

fn card_with(json: &str) -> Vec<u8> {
    png(&[
        record(b"IHDR", &[]),
        record(b"tEXt", &text_data("chara", json)),
        record(b"IEND", &[]),
    ])
}

const YUZU: &str = r#"{"name":"Yuzu","personality":"kind","description":"A cat.\\r\\nLikes milk."}"#;

#[test]
fn scenario_yuzu_card() {
    let f = decode_card(&card_with(YUZU)).unwrap();
    assert_eq!(f.character_name, "Yuzu");
    assert_eq!(f.note, "kind");
    assert_eq!(f.english_description, "A cat.\nLikes milk.");
    assert_eq!(f.korean_description, "");
    assert!(!f.is_korean);
}

#[test]
fn korean_name_routes_to_korean_slot() {
    let json = r#"{"name":"유즈","personality":"수줍음","description":"고양이"}"#;
    let f = decode_card(&card_with(json)).unwrap();
    assert_eq!(f.character_name, "유즈");
    assert_eq!(f.note, "수줍음");
    assert_eq!(f.korean_description, "고양이");
    assert_eq!(f.english_description, "");
    assert!(f.is_korean);
}

#[test]
fn short_buffers_have_no_signature() {
    for n in 0..8 {
        assert_eq!(read_chunks(&MAGIC[..n]).err(), Some(CardError::InvalidSignature));
        assert_eq!(decode_card(&MAGIC[..n]).err(), Some(CardError::InvalidSignature));
    }
}

#[test]
fn wrong_magic_is_rejected() {
    let mut b = card_with(YUZU);
    b[1] = b'J';
    assert_eq!(decode_card(&b).err(), Some(CardError::InvalidSignature));
}

#[test]
fn chunks_are_read_in_order() {
    let b = png(&[record(b"IHDR", &[1, 2, 3]), record(b"IEND", &[])]);
    let cs = read_chunks(&b).unwrap();
    assert_eq!(cs.len(), 2);
    assert_eq!(cs[0].chunk_type, *b"IHDR");
    assert_eq!(cs[0].chunk_data, vec![1, 2, 3]);
    assert_eq!(cs[1].chunk_type, *b"IEND");
    assert!(cs[1].chunk_data.is_empty());
    assert_eq!(check_vaild(&cs), Ok(()));
}

#[test]
fn truncated_fields_are_named() {
    let full = png(&[record(b"IHDR", &[9, 9]), record(b"IEND", &[])]);
    // The first record spans bytes 8..22: length 8..12, type 12..16, data 16..18, checksum 18..22.
    assert_eq!(read_chunks(&full[..10]).err(), Some(CardError::TruncatedInput(ChunkField::Length)));
    assert_eq!(read_chunks(&full[..14]).err(), Some(CardError::TruncatedInput(ChunkField::ChunkType)));
    assert_eq!(read_chunks(&full[..17]).err(), Some(CardError::TruncatedInput(ChunkField::Data)));
    assert_eq!(read_chunks(&full[..20]).err(), Some(CardError::TruncatedInput(ChunkField::Checksum)));
}

#[test]
fn huge_declared_length_is_truncation() {
    let mut b = MAGIC.to_vec();
    b.extend_from_slice(&[0xFF, 0xFF, 0xFF, 0xFF]);
    b.extend_from_slice(b"IHDR");
    b.extend_from_slice(&[0, 0, 0, 0]);
    assert_eq!(read_chunks(&b).err(), Some(CardError::TruncatedInput(ChunkField::Data)));
}

#[test]
fn flipped_data_byte_is_checksum_mismatch() {
    let b = card_with(YUZU);
    // The tEXt record starts after the 8-byte magic and the 12-byte IHDR record.
    let mut bad = b.clone();
    bad[20 + 8 + 3] ^= 0x01;
    assert_eq!(decode_card(&bad).err(), Some(CardError::ChecksumMismatch(*b"tEXt")));
}

#[test]
fn flipped_type_byte_is_checksum_mismatch() {
    let mut b = card_with(YUZU);
    b[12] ^= 0x20;
    assert_eq!(decode_card(&b).err(), Some(CardError::ChecksumMismatch(*b"iHDR")));
}

#[test]
fn flipped_checksum_byte_is_checksum_mismatch() {
    let mut b = card_with(YUZU);
    let last = b.len() - 1;
    b[last] ^= 0x80;
    assert_eq!(decode_card(&b).err(), Some(CardError::ChecksumMismatch(*b"IEND")));
}

#[test]
fn first_chunk_must_be_ihdr() {
    let b = png(&[
        record(b"tEXt", &text_data("chara", YUZU)),
        record(b"IHDR", &[]),
        record(b"IEND", &[]),
    ]);
    assert_eq!(decode_card(&b).err(), Some(CardError::ChunkOrderError(ChunkEnd::First)));
}

#[test]
fn last_chunk_must_be_iend() {
    let b = png(&[record(b"IHDR", &[]), record(b"tEXt", &text_data("chara", YUZU))]);
    assert_eq!(decode_card(&b).err(), Some(CardError::ChunkOrderError(ChunkEnd::Last)));
}

#[test]
fn no_chunks_breaks_ordering() {
    assert_eq!(decode_card(&MAGIC).err(), Some(CardError::ChunkOrderError(ChunkEnd::First)));
    assert_eq!(check_vaild(&Vec::new()), Err(CardError::ChunkOrderError(ChunkEnd::First)));
}

#[test]
fn foreign_keyword_is_rejected() {
    let good = Chunk { chunk_type: *b"tEXt", chunk_data: text_data("notchara", YUZU) };
    assert_eq!(parsing_data(good), Err(CardError::KeywordMismatch));
    let mut raw = b"notchara".to_vec();
    raw.push(0);
    raw.extend_from_slice(b"!!not base64!!");
    let bad = Chunk { chunk_type: *b"tEXt", chunk_data: raw };
    assert_eq!(parsing_data(bad), Err(CardError::KeywordMismatch));
}

#[test]
fn missing_text_chunk() {
    let b = png(&[record(b"IHDR", &[]), record(b"IEND", &[])]);
    assert_eq!(decode_card(&b).err(), Some(CardError::MissingPayload));
}

#[test]
fn first_text_chunk_is_taken() {
    let cs = vec![
        Chunk { chunk_type: *b"IHDR", chunk_data: vec![] },
        Chunk { chunk_type: *b"tEXt", chunk_data: text_data("chara", "first") },
        Chunk { chunk_type: *b"tEXt", chunk_data: text_data("chara", "second") },
    ];
    assert_eq!(parsing_text(cs), Ok("first".to_string()));
}

#[test]
fn bad_base64_body() {
    let mut d = b"chara".to_vec();
    d.push(0);
    d.extend_from_slice(b"@@@@");
    let c = Chunk { chunk_type: *b"tEXt", chunk_data: d };
    assert_eq!(parsing_data(c), Err(CardError::Base64DecodeError));
}

#[test]
fn bad_utf8_body() {
    let mut d = b"chara".to_vec();
    d.push(0);
    d.extend_from_slice(base64::engine::general_purpose::STANDARD.encode([0xFFu8, 0xFE]).as_bytes());
    let c = Chunk { chunk_type: *b"tEXt", chunk_data: d };
    assert_eq!(parsing_data(c), Err(CardError::Utf8DecodeError));
}

#[test]
fn payload_decodes_to_text() {
    let c = Chunk { chunk_type: *b"tEXt", chunk_data: text_data("chara", "héllo") };
    assert_eq!(parsing_data(c), Ok("héllo".to_string()));
}

#[test]
fn malformed_json() {
    assert_eq!(decode_card(&card_with("{not json")).err(), Some(CardError::MalformedJson));
}

#[test]
fn schema_errors_name_the_field() {
    assert_eq!(
        decode_character(r#"{"personality":"a","description":"b"}"#).err(),
        Some(CardError::SchemaError(CardField::Name))
    );
    assert_eq!(
        decode_character(r#"{"name":"a","personality":3,"description":"b"}"#).err(),
        Some(CardError::SchemaError(CardField::Personality))
    );
    assert_eq!(
        decode_character(r#"{"name":"a","personality":"b"}"#).err(),
        Some(CardError::SchemaError(CardField::Description))
    );
}

#[test]
fn extra_fields_are_ignored() {
    let c = decode_character(r#"{"name":"n","personality":"p","description":"d","tags":[1]}"#).unwrap();
    assert_eq!(
        c,
        Character { name: "n".to_string(), personality: "p".to_string(), description: "d".to_string() }
    );
}

#[test]
fn decoding_is_repeatable() {
    let b = card_with(YUZU);
    assert_eq!(decode_card(&b), decode_card(&b));
}

#[test]
fn written_crlf_becomes_newline() {
    assert_eq!(unescape_newlines("a\\r\\nb\\r\\n"), "a\nb\n");
    assert_eq!(unescape_newlines("\\r\\r\\n"), "\\r\n");
}

#[test]
fn text_without_escape_is_unchanged() {
    for s in ["", "plain", "a\\rb", "line\r\nreal", "\\n\\r", "유즈"] {
        assert_eq!(unescape_newlines(s), s);
    }
}

#[test]
fn personality_and_description_are_normalized() {
    let c = Character {
        name: "N".to_string(),
        personality: "x\\r\\ny".to_string(),
        description: "d\\r\\n".to_string(),
    };
    assert_eq!(
        parsing_text_for_cat(c),
        ("N".to_string(), "x\ny".to_string(), "d\n".to_string())
    );
}
