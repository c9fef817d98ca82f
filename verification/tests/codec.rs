use wabun_morse::{MorseCode, MorseCodeError};

#[test]
fn test_unknown_morse() {
    let morse = MorseCode::new(None, None);
    let result: Result<Vec<char>, MorseCodeError> = morse.decode(&["...."]);
    assert_eq!(result, Ok(vec!['ヌ']));
}

#[test]
fn test_single_characters() {
    let morse = MorseCode::new(None, None);
    let input: Vec<char> = vec!['ア', 'イ', 'ウ'];
    let encoded: Result<Vec<String>, MorseCodeError> = morse.encode(&input);
    assert_eq!(encoded.unwrap(), vec!["--.--", ".-", "..-"]);

    let decoded: Result<Vec<char>, MorseCodeError> = morse.decode(&["--.--", ".-", "..-"]);
    assert_eq!(decoded.unwrap(), input);
}

#[test]
fn test_custom_symbols() {
    let morse = MorseCode::new(Some('*'), Some('/'));
    let input: Vec<char> = vec!['ア', 'イ', 'ウ'];
    let encoded: Result<Vec<String>, MorseCodeError> = morse.encode(&input);
    assert_eq!(encoded.unwrap(), vec!["//*//", "*/", "**/"]);

    let decoded: Result<Vec<char>, MorseCodeError> = morse.decode(&["//*//", "*/", "**/"]);
    assert_eq!(decoded.unwrap(), input);
}

#[test]
fn test_encode_from_string() {
    let morse = MorseCode::new(None, None);
    let result: Result<String, MorseCodeError> = morse.encode_from_string("アイウ");
    assert_eq!(result.unwrap(), "--.-- .- ..-");
}

#[test]
fn test_decode_to_string() {
    let morse = MorseCode::new(None, None);
    let result: Result<String, MorseCodeError> = morse.decode_to_string("--.-- .- ..-");
    assert_eq!(result.unwrap(), "アイウ");
}

#[test]
fn test_unknown_character_error() {
    let morse = MorseCode::new(None, None);
    assert_eq!(
        morse.encode(&['あ']),
        Err(MorseCodeError::UnknownCharacter('あ'))
    );
    assert_eq!(
        morse.encode_from_string("イあ"),
        Err(MorseCodeError::UnknownCharacter('あ'))
    );
}

#[test]
fn test_unknown_code_error() {
    let morse = MorseCode::new(None, None);
    assert_eq!(
        morse.decode(&["...---"]),
        Err(MorseCodeError::UnknownMorseCode("...---".to_string()))
    );
    assert_eq!(
        morse.decode_to_string(".- ...---"),
        Err(MorseCodeError::UnknownMorseCode("...---".to_string()))
    );
}

#[test]
fn test_custom_glyph_round_trip() {
    let morse = MorseCode::new(Some('*'), Some('~'));
    let encoded = morse.encode_from_string("イロハ").unwrap();
    assert_eq!(encoded, "*~ *~*~ ~***");
    assert_eq!(morse.decode_to_string(&encoded).unwrap(), "イロハ");
}

#[test]
fn test_defaults_literal_encode() {
    let morse = MorseCode::new(None, None);
    assert_eq!(morse.encode_from_string("イロハ").unwrap(), ".- .-.- -...");
    assert_eq!(morse.encode_from_string("ヘ").unwrap(), ".");
}

#[test]
fn test_defaults_literal_decode() {
    let morse = MorseCode::new(None, None);
    assert_eq!(morse.decode_to_string(".- .-.- -...").unwrap(), "イロハ");
    assert_eq!(morse.decode_to_string("....").unwrap(), "ヌ");
}

#[test]
fn test_irregular_whitespace() {
    let morse = MorseCode::new(None, None);
    assert_eq!(
        morse.decode_to_string("  .-\t\t.-.-\n -...  ").unwrap(),
        "イロハ"
    );
}

#[test]
fn test_full_alphabet_round_trip() {
    let all = "イロハニホヘトチリヌルヲワカヨタレソツネナラムウヰノオクヤマケフコエテアサキユメミシヱヒモセスン゛゜";
    let morse = MorseCode::new(None, None);
    let encoded = morse.encode_from_string(all).unwrap();
    assert_eq!(morse.decode_to_string(&encoded).unwrap(), all);

    let custom = MorseCode::new(Some('o'), Some('='));
    let encoded = custom.encode_from_string(all).unwrap();
    assert_eq!(custom.decode_to_string(&encoded).unwrap(), all);
}

#[test]
fn test_swapped_glyphs() {
    let morse = MorseCode::new(Some('-'), Some('.'));
    let encoded = morse.encode_from_string("イ").unwrap();
    assert_eq!(encoded, "-.");
    assert_eq!(morse.decode_to_string("-.").unwrap(), "イ");
}

#[test]
fn test_empty_input() {
    let morse = MorseCode::new(None, None);
    assert_eq!(morse.encode(&[]), Ok(vec![]));
    assert_eq!(morse.decode(&[]), Ok(vec![]));
    assert_eq!(morse.encode_from_string("").unwrap(), "");
    assert_eq!(morse.decode_to_string("").unwrap(), "");
    assert_eq!(morse.decode_to_string("   ").unwrap(), "");
}

#[test]
fn test_error_messages() {
    let e = MorseCodeError::UnknownCharacter('あ');
    assert_eq!(e.message(), "Unknown character: あ");
    let e = MorseCodeError::UnknownMorseCode("...---".to_string());
    assert_eq!(e.message(), "Unknown Morse code: ...---");
}

#[test]
fn test_per_character_round_trip() {
    let morse = MorseCode::new(None, None);
    for c in "イロハニホヘトチリヌルヲワカヨタレソツネナラムウヰノオクヤマケフコエテアサキユメミシヱヒモセスン゛゜".chars() {
        let tokens = morse.encode(&[c]).unwrap();
        let refs: Vec<&str> = tokens.iter().map(|t| t.as_str()).collect();
        assert_eq!(morse.decode(&refs).unwrap(), vec![c]);
    }
}
