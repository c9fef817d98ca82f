use vstd::prelude::*;
use vstd::string::StringExecFns;

verus! {

/// A failed encode or decode. Both kinds are input-validation failures that
/// abort the whole operation: no partial output is ever returned.
#[derive(Debug, PartialEq)]
pub enum MorseCodeError {
    /// Encoding met a character with no entry in the forward table.
    UnknownCharacter(char),
    /// Decoding met a token whose pulse-string has no entry in the reverse
    /// table; the raw token is carried as it appeared in the input.
    UnknownMorseCode(String),
}

impl MorseCodeError {
    /// A human-readable description of the failure.
    pub fn message(&self) -> (r: String)
        ensures
            match self {
                MorseCodeError::UnknownCharacter(c) => r@ == "Unknown character: "@.push(*c),
                MorseCodeError::UnknownMorseCode(t) => r@ == "Unknown Morse code: "@ + t@,
            },
    {
        match self {
            MorseCodeError::UnknownCharacter(c) => {
                let mut s = "Unknown character: ".to_owned();
                s.push(*c);
                s
            },
            MorseCodeError::UnknownMorseCode(t) => {
                let mut s = "Unknown Morse code: ".to_owned();
                s.append(t.as_str());
                s
            },
        }
    }
}

} // verus!
