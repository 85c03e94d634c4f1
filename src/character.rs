use vstd::prelude::*;
use vstd::utf8::is_ascii_chars;

use crate::error::{CardError, CardField};

verus! {

/// The error of JSON parsing, carried through opaque.
#[verifier::external_type_specification]
#[verifier::external_body]
pub struct ExJsonError(serde_json::Error);

/// A decoded character record.
#[derive(Clone, Debug, PartialEq, Eq)]
pub struct Character {
    pub name: String,
    pub personality: String,
    pub description: String,
}

pub ghost struct CharacterView {
    pub name: Seq<char>,
    pub personality: Seq<char>,
    pub description: Seq<char>,
}

impl View for Character {
    type V = CharacterView;

    open spec fn view(&self) -> CharacterView {
        CharacterView { name: self.name@, personality: self.personality@, description: self.description@ }
    }
}

/// The fields shown for a character, with the description routed by the
/// language of the name.
#[derive(Clone, Debug, PartialEq, Eq)]
pub struct ClassifiedFields {
    pub character_name: String,
    pub note: String,
    pub korean_description: String,
    pub english_description: String,
    pub is_korean: bool,
}

pub ghost struct ClassifiedView {
    pub character_name: Seq<char>,
    pub note: Seq<char>,
    pub korean_description: Seq<char>,
    pub english_description: Seq<char>,
    pub is_korean: bool,
}

impl View for ClassifiedFields {
    type V = ClassifiedView;

    open spec fn view(&self) -> ClassifiedView {
        ClassifiedView {
            character_name: self.character_name@,
            note: self.note@,
            korean_description: self.korean_description@,
            english_description: self.english_description@,
            is_korean: self.is_korean,
        }
    }
}

/// Looking a key up in JSON text: `None` when the text is not a JSON
/// document; otherwise the string held under the key in the top-level
/// object, or `None` inside when there is no such string.
pub uninterp spec fn json_string_field(text: Seq<char>, key: Seq<char>) -> Option<Option<Seq<char>>>;

/// Relies on `serde_json::from_str` into a `serde_json::Value`, then
/// `Value::get` and `Value::as_str`: which string, if any, the parsed text
/// holds under the key depends on the text and the key alone.
#[verifier::external_body]
fn string_field(text: &str, key: &str) -> (r: Result<Option<String>, serde_json::Error>)
    ensures
        match r {
            Ok(Some(s)) => json_string_field(text@, key@) == Some(Some(s@)),
            Ok(None) => json_string_field(text@, key@) == Some(None::<Seq<char>>),
            Err(_) => json_string_field(text@, key@) is None,
        },
{
    let value: serde_json::Value = serde_json::from_str(text)?;
    Ok(value.get(key).and_then(serde_json::Value::as_str).map(String::from))
}

/// Relies on `String::push`: the character is appended.
#[verifier::external_body]
fn push_char(s: &mut String, c: char)
    ensures
        final(s)@ == old(s)@.push(c),
{
    s.push(c)
}

pub open spec fn field_key(f: CardField) -> Seq<char> {
    match f {
        CardField::Name => "name"@,
        CardField::Personality => "personality"@,
        CardField::Description => "description"@,
    }
}

/// The string that decoded text holds in a required field.
pub open spec fn field_result(text: Seq<char>, f: CardField) -> Result<Seq<char>, CardError> {
    match json_string_field(text, field_key(f)) {
        None => Err(CardError::MalformedJson),
        Some(None) => Err(CardError::SchemaError(f)),
        Some(Some(s)) => Ok(s),
    }
}

/// The character record that decoded text describes; the fields are checked
/// in the order name, personality, description.
pub open spec fn character_result(text: Seq<char>) -> Result<CharacterView, CardError> {
    match field_result(text, CardField::Name) {
        Err(e) => Err(e),
        Ok(name) => match field_result(text, CardField::Personality) {
            Err(e) => Err(e),
            Ok(personality) => match field_result(text, CardField::Description) {
                Err(e) => Err(e),
                Ok(description) => Ok(CharacterView { name, personality, description }),
            },
        },
    }
}

/// Whether `s` starts, at index `i`, with the four characters `\r\n` written out
/// (backslash, `r`, backslash, `n`).
pub open spec fn escaped_crlf_at(s: Seq<char>, i: int) -> bool {
    0 <= i && i + 4 <= s.len() && s[i] == '\\' && s[i + 1] == 'r' && s[i + 2] == '\\' && s[i + 3]
        == 'n'
}

/// `s` with every written-out `\r\n`, scanned from the left, replaced by a newline.
pub open spec fn unescape_crlf(s: Seq<char>) -> Seq<char>
    decreases s.len(),
{
    if s.len() == 0 {
        Seq::empty()
    } else if escaped_crlf_at(s, 0) {
        seq!['\n'] + unescape_crlf(s.subrange(4, s.len() as int))
    } else {
        seq![s[0]] + unescape_crlf(s.subrange(1, s.len() as int))
    }
}

/// How a character record is shown: an ASCII-only name is English, any other
/// is Korean, and the description goes to that language's slot alone.
pub open spec fn classified(c: CharacterView) -> ClassifiedView {
    let korean = !is_ascii_chars(c.name);
    let description = unescape_crlf(c.description);
    ClassifiedView {
        character_name: c.name,
        note: unescape_crlf(c.personality),
        korean_description: if korean {
            description
        } else {
            Seq::empty()
        },
        english_description: if korean {
            Seq::empty()
        } else {
            description
        },
        is_korean: korean,
    }
}

fn required_field(text: &str, f: CardField) -> (r: Result<String, CardError>)
    ensures
        match r {
            Ok(s) => field_result(text@, f) == Ok::<Seq<char>, CardError>(s@),
            Err(e) => field_result(text@, f) == Err::<Seq<char>, CardError>(e),
        },
{
    let key: &str = match f {
        CardField::Name => "name",
        CardField::Personality => "personality",
        CardField::Description => "description",
    };
    match string_field(text, key) {
        Ok(Some(s)) => Ok(s),
        Ok(None) => Err(CardError::SchemaError(f)),
        Err(_) => Err(CardError::MalformedJson),
    }
}

/// Reads the three required string fields of a character record from JSON text.
pub fn decode_character(text: &str) -> (r: Result<Character, CardError>)
    ensures
        match r {
            Ok(c) => character_result(text@) == Ok::<CharacterView, CardError>(c@),
            Err(e) => character_result(text@) == Err::<CharacterView, CardError>(e),
        },
{
    let name = match required_field(text, CardField::Name) {
        Ok(s) => s,
        Err(e) => {
            return Err(e);
        },
    };
    let personality = match required_field(text, CardField::Personality) {
        Ok(s) => s,
        Err(e) => {
            return Err(e);
        },
    };
    let description = match required_field(text, CardField::Description) {
        Ok(s) => s,
        Err(e) => {
            return Err(e);
        },
    };
    Ok(Character { name, personality, description })
}

fn chars_of(s: &str) -> (v: Vec<char>)
    ensures
        v@ == s@,
{
    let mut v: Vec<char> = Vec::new();
    for c in it: s.chars()
        invariant
            v@ == it.seq().take(it.index() as int),
    {
        v.push(c);
    }
    v
}

/// Replaces every written-out `\r\n` in `s` by a newline.
pub fn unescape_newlines(s: &str) -> (r: String)
    ensures
        r@ == unescape_crlf(s@),
{
    let v = chars_of(s);
    let n = v.len();
    let mut out = String::new();
    let mut i: usize = 0;
    assert(v@.subrange(0, n as int) =~= v@);
    assert(out@ + unescape_crlf(v@) =~= unescape_crlf(v@));
    while i < n
        invariant
            n == v@.len(),
            v@ == s@,
            i <= n,
            out@ + unescape_crlf(v@.subrange(i as int, n as int)) == unescape_crlf(v@),
        decreases n - i,
    {
        let ghost rest = v@.subrange(i as int, n as int);
        if n - i >= 4 && v[i] == '\\' && v[i + 1] == 'r' && v[i + 2] == '\\' && v[i + 3] == 'n' {
            assert(escaped_crlf_at(rest, 0));
            assert(rest.subrange(4, rest.len() as int) =~= v@.subrange(i + 4, n as int));
            let ghost before = out@;
            push_char(&mut out, '\n');
            assert(unescape_crlf(rest) == seq!['\n'] + unescape_crlf(v@.subrange(i + 4, n as int)));
            assert(out@ + unescape_crlf(v@.subrange(i + 4, n as int)) =~= before + unescape_crlf(
                rest,
            ));
            i = i + 4;
        } else {
            assert(!escaped_crlf_at(rest, 0));
            assert(rest.subrange(1, rest.len() as int) =~= v@.subrange(i + 1, n as int));
            let ghost before = out@;
            push_char(&mut out, v[i]);
            assert(unescape_crlf(rest) == seq![v@[i as int]] + unescape_crlf(
                v@.subrange(i + 1, n as int),
            ));
            assert(out@ + unescape_crlf(v@.subrange(i + 1, n as int)) =~= before + unescape_crlf(
                rest,
            ));
            i = i + 1;
        }
    }
    assert(v@.subrange(n as int, n as int) =~= Seq::<char>::empty());
    assert(out@ + Seq::<char>::empty() =~= out@);
    out
}

/// Splits a record into its name, its personality and its description, the
/// last two with every written-out `\r\n` replaced by a newline.
pub fn parsing_text_for_cat(text: Character) -> (r: (String, String, String))
    ensures
        r.0@ == text.name@,
        r.1@ == unescape_crlf(text.personality@),
        r.2@ == unescape_crlf(text.description@),
{
    let Character { name, personality, description } = text;
    let personality = unescape_newlines(personality.as_str());
    let description = unescape_newlines(description.as_str());
    (name, personality, description)
}

/// Routes a record's description by the language of its name.
pub fn classify(character: Character) -> (r: ClassifiedFields)
    ensures
        r@ == classified(character@),
{
    let (character_name, note, description) = parsing_text_for_cat(character);
    if character_name.is_ascii() {
        ClassifiedFields {
            character_name,
            note,
            korean_description: String::new(),
            english_description: description,
            is_korean: false,
        }
    } else {
        ClassifiedFields {
            character_name,
            note,
            korean_description: description,
            english_description: String::new(),
            is_korean: true,
        }
    }
}

} // verus!
