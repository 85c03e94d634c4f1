//! Reads a character card out of a PNG image: the chunk structure is checked,
//! the `tEXt` payload is decoded and the character record is classified by
//! the language of its name.
pub mod card;
pub mod character;
pub mod chunk;
pub mod error;
pub mod payload;

pub use card::decode_card;
pub use character::{
    classify, decode_character, parsing_text_for_cat, unescape_newlines, Character,
    ClassifiedFields,
};
pub use chunk::{check_vaild, read_chunks, Chunk};
pub use error::{CardError, CardField, ChunkEnd, ChunkField};
pub use payload::{parsing_data, parsing_text};
