//! A bidirectional transliteration codec between the fixed Wabun kana
//! alphabet and Morse-style pulse strings, with configurable display
//! glyphs for the dot and dash symbols.

pub mod alphabet;
pub mod glyphs;
pub mod codec;
pub mod error;
pub mod strings;
pub mod tokens;

pub use codec::MorseCode;
pub use error::MorseCodeError;

