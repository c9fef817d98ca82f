use vstd::prelude::*;

use crate::alphabet::{
    char_code, code_char, lemma_code_roundtrip, lemma_lookup_fwd_mem, lemma_table_entries,
    lookup_fwd_from, lookup_rev_from, table,
};
use crate::error::MorseCodeError;
use crate::glyphs::{lemma_unrender_render, render, unrender};
use crate::strings::{chars_to_string, str_chars};
use crate::tokens::{lemma_tokens_of_append, lemma_tokens_of_single, spec_is_wspace, tokenize, tokens_of};
use vstd::string::StrSliceExecFns;
use vstd::string::StringExecFns;

verus! {

/// What decoding one token yields: the token taken back to internal pulse
/// symbols, then looked up in the reverse table.
pub open spec fn token_char(t: Seq<char>, dot: char, dash: char) -> Option<char> {
    code_char(unrender(t, dot, dash))
}

/// What encoding one character yields: its canonical pulse-string displayed
/// with the configured glyphs.
pub open spec fn char_token(c: char, dot: char, dash: char) -> Option<Seq<char>> {
    match char_code(c) {
        Some(s) => Some(render(s, dot, dash)),
        None => None,
    }
}

/// The per-character encodings of `text`, joined with single spaces.
/// Meaningful when every character of `text` is in the alphabet.
pub open spec fn joined(text: Seq<char>, dot: char, dash: char) -> Seq<char>
    decreases text.len(),
{
    if text.len() == 0 {
        seq![]
    } else if text.len() == 1 {
        render(char_code(text[0]).unwrap(), dot, dash)
    } else {
        joined(text.drop_last(), dot, dash) + seq![' '] + render(
            char_code(text.last()).unwrap(),
            dot,
            dash,
        )
    }
}

/// The Wabun codec: an immutable bidirectional mapping between kana and
/// canonical pulse-strings, plus the two display glyphs substituted for
/// '.' and '-' when encoding and decoding.
pub struct MorseCode {
    entries: Vec<(char, Vec<char>)>,
    dot: char,
    dash: char,
}

impl MorseCode {
    #[verifier::type_invariant]
    spec fn wf(self) -> bool {
        &&& self.entries@.len() == table().len()
        &&& forall|i: int|
            0 <= i < table().len() ==> (#[trigger] self.entries@[i]).0 == table()[i].0
                && self.entries@[i].1@ == table()[i].1
    }

    /// The configured dot glyph.
    pub closed spec fn spec_dot(&self) -> char {
        self.dot
    }

    /// The configured dash glyph.
    pub closed spec fn spec_dash(&self) -> char {
        self.dash
    }

    /// Builds the codec's forward and reverse mapping from the fixed
    /// alphabet. A missing glyph defaults to the internal symbol itself.
    ///
    /// Distinctness of the two glyphs is not enforced, but decoding can
    /// only invert encoding when they differ (and, for whole strings, when
    /// neither is whitespace): see `lemma_round_trip_char` and
    /// `lemma_round_trip_string`.
    #[verifier::rlimit(100)]
    pub fn new(dot: Option<char>, dash: Option<char>) -> (r: Self)
        ensures
            r.spec_dot() == (match dot {
                Some(d) => d,
                None => '.',
            }),
            r.spec_dash() == (match dash {
                Some(d) => d,
                None => '-',
            }),
    {
        let mut entries: Vec<(char, Vec<char>)> = Vec::new();
        entries.push(('イ', vec!['.', '-']));
        entries.push(('ロ', vec!['.', '-', '.', '-']));
        entries.push(('ハ', vec!['-', '.', '.', '.']));
        entries.push(('ニ', vec!['-', '.', '-', '.']));
        entries.push(('ホ', vec!['-', '.', '.']));
        entries.push(('ヘ', vec!['.']));
        entries.push(('ト', vec!['.', '.', '-', '.', '.']));
        entries.push(('チ', vec!['.', '.', '-', '.']));
        entries.push(('リ', vec!['-', '-', '.']));
        entries.push(('ヌ', vec!['.', '.', '.', '.']));
        entries.push(('ル', vec!['-', '.', '-', '-', '.']));
        entries.push(('ヲ', vec!['.', '-', '-', '-']));
        entries.push(('ワ', vec!['-', '.', '-']));
        entries.push(('カ', vec!['.', '-', '.', '.']));
        entries.push(('ヨ', vec!['-', '-']));
        entries.push(('タ', vec!['-', '.']));
        entries.push(('レ', vec!['-', '-', '-']));
        entries.push(('ソ', vec!['-', '-', '-', '.']));
        entries.push(('ツ', vec!['.', '-', '-', '.']));
        entries.push(('ネ', vec!['-', '-', '.', '-']));
        entries.push(('ナ', vec!['.', '-', '.']));
        entries.push(('ラ', vec!['.', '.', '.']));
        entries.push(('ム', vec!['-']));
        entries.push(('ウ', vec!['.', '.', '-']));
        entries.push(('ヰ', vec!['.', '-', '.', '.', '-']));
        entries.push(('ノ', vec!['.', '.', '-', '-']));
        entries.push(('オ', vec!['.', '-', '.', '.', '.']));
        entries.push(('ク', vec!['.', '.', '.', '-']));
        entries.push(('ヤ', vec!['.', '-', '-']));
        entries.push(('マ', vec!['-', '.', '.', '-']));
        entries.push(('ケ', vec!['-', '.', '-', '-']));
        entries.push(('フ', vec!['-', '-', '.', '.']));
        entries.push(('コ', vec!['-', '-', '-', '-']));
        entries.push(('エ', vec!['-', '.', '-', '-', '-']));
        entries.push(('テ', vec!['.', '-', '.', '-', '-']));
        entries.push(('ア', vec!['-', '-', '.', '-', '-']));
        entries.push(('サ', vec!['-', '.', '-', '.', '-']));
        entries.push(('キ', vec!['-', '.', '-', '.', '.']));
        entries.push(('ユ', vec!['-', '.', '.', '-', '-']));
        entries.push(('メ', vec!['-', '.', '.', '.', '-']));
        entries.push(('ミ', vec!['.', '.', '-', '.', '-']));
        entries.push(('シ', vec!['-', '-', '.', '-', '.']));
        entries.push(('ヱ', vec!['.', '-', '-', '.', '.']));
        entries.push(('ヒ', vec!['-', '-', '.', '.', '-']));
        entries.push(('モ', vec!['-', '.', '.', '-', '.']));
        entries.push(('セ', vec!['.', '-', '-', '-', '.']));
        entries.push(('ス', vec!['-', '-', '-', '.', '-']));
        entries.push(('ン', vec!['.', '-', '.', '-', '.']));
        entries.push(('゛', vec!['.', '.']));
        entries.push(('゜', vec!['.', '.', '-', '-', '.']));
        proof {
            assert forall|i: int|
                0 <= i < table().len() implies (#[trigger] entries@[i]).0 == table()[i].0
                && entries@[i].1@ == table()[i].1 by {
                if i == 0 {
                    assert(entries@[0].1@ =~= table()[0].1);
                } else if i == 1 {
                    assert(entries@[1].1@ =~= table()[1].1);
                } else if i == 2 {
                    assert(entries@[2].1@ =~= table()[2].1);
                } else if i == 3 {
                    assert(entries@[3].1@ =~= table()[3].1);
                } else if i == 4 {
                    assert(entries@[4].1@ =~= table()[4].1);
                } else if i == 5 {
                    assert(entries@[5].1@ =~= table()[5].1);
                } else if i == 6 {
                    assert(entries@[6].1@ =~= table()[6].1);
                } else if i == 7 {
                    assert(entries@[7].1@ =~= table()[7].1);
                } else if i == 8 {
                    assert(entries@[8].1@ =~= table()[8].1);
                } else if i == 9 {
                    assert(entries@[9].1@ =~= table()[9].1);
                } else if i == 10 {
                    assert(entries@[10].1@ =~= table()[10].1);
                } else if i == 11 {
                    assert(entries@[11].1@ =~= table()[11].1);
                } else if i == 12 {
                    assert(entries@[12].1@ =~= table()[12].1);
                } else if i == 13 {
                    assert(entries@[13].1@ =~= table()[13].1);
                } else if i == 14 {
                    assert(entries@[14].1@ =~= table()[14].1);
                } else if i == 15 {
                    assert(entries@[15].1@ =~= table()[15].1);
                } else if i == 16 {
                    assert(entries@[16].1@ =~= table()[16].1);
                } else if i == 17 {
                    assert(entries@[17].1@ =~= table()[17].1);
                } else if i == 18 {
                    assert(entries@[18].1@ =~= table()[18].1);
                } else if i == 19 {
                    assert(entries@[19].1@ =~= table()[19].1);
                } else if i == 20 {
                    assert(entries@[20].1@ =~= table()[20].1);
                } else if i == 21 {
                    assert(entries@[21].1@ =~= table()[21].1);
                } else if i == 22 {
                    assert(entries@[22].1@ =~= table()[22].1);
                } else if i == 23 {
                    assert(entries@[23].1@ =~= table()[23].1);
                } else if i == 24 {
                    assert(entries@[24].1@ =~= table()[24].1);
                } else if i == 25 {
                    assert(entries@[25].1@ =~= table()[25].1);
                } else if i == 26 {
                    assert(entries@[26].1@ =~= table()[26].1);
                } else if i == 27 {
                    assert(entries@[27].1@ =~= table()[27].1);
                } else if i == 28 {
                    assert(entries@[28].1@ =~= table()[28].1);
                } else if i == 29 {
                    assert(entries@[29].1@ =~= table()[29].1);
                } else if i == 30 {
                    assert(entries@[30].1@ =~= table()[30].1);
                } else if i == 31 {
                    assert(entries@[31].1@ =~= table()[31].1);
                } else if i == 32 {
                    assert(entries@[32].1@ =~= table()[32].1);
                } else if i == 33 {
                    assert(entries@[33].1@ =~= table()[33].1);
                } else if i == 34 {
                    assert(entries@[34].1@ =~= table()[34].1);
                } else if i == 35 {
                    assert(entries@[35].1@ =~= table()[35].1);
                } else if i == 36 {
                    assert(entries@[36].1@ =~= table()[36].1);
                } else if i == 37 {
                    assert(entries@[37].1@ =~= table()[37].1);
                } else if i == 38 {
                    assert(entries@[38].1@ =~= table()[38].1);
                } else if i == 39 {
                    assert(entries@[39].1@ =~= table()[39].1);
                } else if i == 40 {
                    assert(entries@[40].1@ =~= table()[40].1);
                } else if i == 41 {
                    assert(entries@[41].1@ =~= table()[41].1);
                } else if i == 42 {
                    assert(entries@[42].1@ =~= table()[42].1);
                } else if i == 43 {
                    assert(entries@[43].1@ =~= table()[43].1);
                } else if i == 44 {
                    assert(entries@[44].1@ =~= table()[44].1);
                } else if i == 45 {
                    assert(entries@[45].1@ =~= table()[45].1);
                } else if i == 46 {
                    assert(entries@[46].1@ =~= table()[46].1);
                } else if i == 47 {
                    assert(entries@[47].1@ =~= table()[47].1);
                } else if i == 48 {
                    assert(entries@[48].1@ =~= table()[48].1);
                } else {
                    assert(entries@[49].1@ =~= table()[49].1);
                }
            }
        }
        MorseCode {
            entries,
            dot: match dot {
                Some(d) => d,
                None => '.',
            },
            dash: match dash {
                Some(d) => d,
                None => '-',
            },
        }
    }

    /// Encodes a sequence of characters, one rendered token per character.
    /// Fails on the first character with no entry in the forward table,
    /// returning no partial output.
    pub fn encode(&self, text: &[char]) -> (r: Result<Vec<String>, MorseCodeError>)
        ensures
            match r {
                Ok(v) => {
                    &&& v@.len() == text@.len()
                    &&& forall|i: int| #![trigger text@[i]]
                        0 <= i < text@.len() ==> char_token(
                            text@[i],
                            self.spec_dot(),
                            self.spec_dash(),
                        ) == Some((v@[i])@)
                },
                Err(e) => exists|i: int|
                    {
                        &&& 0 <= i < text@.len()
                        &&& char_code(#[trigger] text@[i]) is None
                        &&& forall|k: int| 0 <= k < i ==> char_code(#[trigger] text@[k]) is Some
                        &&& e == MorseCodeError::UnknownCharacter(text@[i])
                    },
            },
    {
        let n = text.len();
        let mut out: Vec<String> = Vec::new();
        let mut i: usize = 0;
        while i < n
            invariant
                n == text@.len(),
                0 <= i <= n,
                out@.len() == i,
                forall|k: int| #![trigger text@[k]]
                    0 <= k < i ==> char_token(
                        text@[k],
                        self.spec_dot(),
                        self.spec_dash(),
                    ) == Some((out@[k])@),
            decreases n - i,
        {
            let c = text[i];
            match self.encode_char(c) {
                Some(s) => {
                    out.push(s);
                },
                None => {
                    proof {
                        assert(forall|k: int|
                            0 <= k < i ==> char_code(#[trigger] text@[k]) is Some);
                    }
                    return Err(MorseCodeError::UnknownCharacter(c));
                },
            }
            i += 1;
        }
        Ok(out)
    }

    /// Decodes a sequence of tokens, one character per token. Fails on the
    /// first token whose pulse-string has no entry in the reverse table,
    /// echoing that raw token, and returns no partial output.
    pub fn decode(&self, morse: &[&str]) -> (r: Result<Vec<char>, MorseCodeError>)
        ensures
            match r {
                Ok(v) => {
                    &&& v@.len() == morse@.len()
                    &&& forall|i: int|
                        0 <= i < morse@.len() ==> token_char(
                            (#[trigger] morse@[i])@,
                            self.spec_dot(),
                            self.spec_dash(),
                        ) == Some(v@[i])
                },
                Err(e) => exists|i: int|
                    {
                        &&& 0 <= i < morse@.len()
                        &&& token_char(
                            (#[trigger] morse@[i])@,
                            self.spec_dot(),
                            self.spec_dash(),
                        ) is None
                        &&& forall|k: int|
                            0 <= k < i ==> token_char(
                                (#[trigger] morse@[k])@,
                                self.spec_dot(),
                                self.spec_dash(),
                            ) is Some
                        &&& e matches MorseCodeError::UnknownMorseCode(t) && t@ == morse@[i]@
                    },
            },
    {
        let n = morse.len();
        let mut out: Vec<char> = Vec::new();
        let mut i: usize = 0;
        while i < n
            invariant
                n == morse@.len(),
                0 <= i <= n,
                out@.len() == i,
                forall|k: int|
                    0 <= k < i ==> token_char(
                        (#[trigger] morse@[k])@,
                        self.spec_dot(),
                        self.spec_dash(),
                    ) == Some(out@[k]),
            decreases n - i,
        {
            let s: &str = morse[i];
            let tok = str_chars(s);
            match self.decode_token(&tok) {
                Some(c) => {
                    out.push(c);
                },
                None => {
                    return Err(MorseCodeError::UnknownMorseCode(s.to_owned()));
                },
            }
            i += 1;
        }
        Ok(out)
    }

    /// Encodes each character of `text` and joins the rendered tokens with
    /// single spaces.
    pub fn encode_from_string(&self, text: &str) -> (r: Result<String, MorseCodeError>)
        ensures
            match r {
                Ok(out) => {
                    &&& forall|i: int| 0 <= i < text@.len() ==> char_code(#[trigger] text@[i]) is Some
                    &&& out@ == joined(text@, self.spec_dot(), self.spec_dash())
                },
                Err(e) => exists|i: int|
                    {
                        &&& 0 <= i < text@.len()
                        &&& char_code(#[trigger] text@[i]) is None
                        &&& forall|k: int| 0 <= k < i ==> char_code(#[trigger] text@[k]) is Some
                        &&& e == MorseCodeError::UnknownCharacter(text@[i])
                    },
            },
    {
        let chars = str_chars(text);
        match self.encode(chars.as_slice()) {
            Ok(v) => {
                let mut out = String::new();
                let mut i: usize = 0;
                proof {
                    assert(out@ =~= joined(text@.take(0), self.spec_dot(), self.spec_dash()));
                }
                while i < v.len()
                    invariant
                        v@.len() == chars@.len(),
                        chars@ == text@,
                        0 <= i <= v@.len(),
                        forall|k: int| #![trigger text@[k]]
                            0 <= k < v@.len() ==> char_token(
                                text@[k],
                                self.spec_dot(),
                                self.spec_dash(),
                            ) == Some((v@[k])@),
                        out@ == joined(text@.take(i as int), self.spec_dot(), self.spec_dash()),
                    decreases v@.len() - i,
                {
                    if i > 0 {
                        out.append(" ");
                    }
                    out.append(v[i].as_str());
                    proof {
                        let dot = self.spec_dot();
                        let dash = self.spec_dash();
                        let t = text@.take(i as int + 1);
                        assert(char_code(text@[i as int]) is Some);
                        assert((v@[i as int])@ == render(char_code(text@[i as int]).unwrap(), dot, dash));
                        if i == 0 {
                            assert(t.len() == 1);
                            assert(t[0] == text@[0]);
                            assert(out@ =~= joined(t, dot, dash));
                        } else {
                            reveal_strlit(" ");
                            assert(" "@ =~= seq![' ']);
                            assert(t.drop_last() =~= text@.take(i as int));
                            assert(t.last() == text@[i as int]);
                            assert(out@ =~= joined(t, dot, dash));
                        }
                    }
                    i += 1;
                }
                proof {
                    assert(text@.take(text@.len() as int) =~= text@);
                }
                Ok(out)
            },
            Err(e) => Err(e),
        }
    }

    /// Splits `text` on runs of whitespace, decodes each token, and
    /// concatenates the decoded characters.
    pub fn decode_to_string(&self, text: &str) -> (r: Result<String, MorseCodeError>)
        ensures
            ({
                let toks = tokens_of(text@);
                match r {
                    Ok(out) => {
                        &&& out@.len() == toks.len()
                        &&& forall|i: int|
                            0 <= i < toks.len() ==> token_char(
                                #[trigger] toks[i],
                                self.spec_dot(),
                                self.spec_dash(),
                            ) == Some(out@[i])
                    },
                    Err(e) => exists|i: int|
                        {
                            &&& 0 <= i < toks.len()
                            &&& token_char(#[trigger] toks[i], self.spec_dot(), self.spec_dash())
                                is None
                            &&& forall|k: int|
                                0 <= k < i ==> token_char(
                                    #[trigger] toks[k],
                                    self.spec_dot(),
                                    self.spec_dash(),
                                ) is Some
                            &&& e matches MorseCodeError::UnknownMorseCode(t) && t@ == toks[i]
                        },
                }
            }),
    {
        let chars = str_chars(text);
        let toks = tokenize(&chars);
        let n = toks.len();
        let mut out = String::new();
        let mut i: usize = 0;
        while i < n
            invariant
                chars@ == text@,
                n == toks@.len(),
                toks@.len() == tokens_of(text@).len(),
                forall|k: int| 0 <= k < toks@.len() ==> (#[trigger] toks@[k])@ == tokens_of(text@)[k],
                0 <= i <= n,
                out@.len() == i,
                forall|k: int|
                    0 <= k < i ==> token_char(
                        #[trigger] tokens_of(text@)[k],
                        self.spec_dot(),
                        self.spec_dash(),
                    ) == Some(out@[k]),
            decreases n - i,
        {
            match self.decode_token(&toks[i]) {
                Some(c) => {
                    out.push(c);
                },
                None => {
                    let t = chars_to_string(&toks[i]);
                    return Err(MorseCodeError::UnknownMorseCode(t));
                },
            }
            i += 1;
        }
        Ok(out)
    }

    /// Displays a canonical pulse-string with the configured glyphs:
    /// '.' becomes the dot glyph, '-' the dash glyph, anything else is
    /// passed through unchanged.
    fn replace(&self, code: &Vec<char>) -> (r: String)
        ensures
            r@ == render(code@, self.spec_dot(), self.spec_dash()),
    {
        let mut out = String::new();
        let mut k: usize = 0;
        while k < code.len()
            invariant
                0 <= k <= code@.len(),
                out@ == render(code@.take(k as int), self.spec_dot(), self.spec_dash()),
            decreases code@.len() - k,
        {
            let ch = code[k];
            let g = if ch == '.' {
                self.dot
            } else if ch == '-' {
                self.dash
            } else {
                ch
            };
            out.push(g);
            proof {
                assert(out@ =~= render(
                    code@.take(k as int + 1),
                    self.spec_dot(),
                    self.spec_dash(),
                ));
            }
            k += 1;
        }
        proof {
            assert(code@.take(code@.len() as int) =~= code@);
        }
        out
    }

    /// Encodes one character: forward lookup, then glyph substitution.
    fn encode_char(&self, c: char) -> (r: Option<String>)
        ensures
            match r {
                Some(s) => char_code(c) is Some && s@ == render(
                    char_code(c).unwrap(),
                    self.spec_dot(),
                    self.spec_dash(),
                ),
                None => char_code(c) is None,
            },
    {
        let n = self.entries.len();
        let mut j: usize = 0;
        proof {
            use_type_invariant(&*self);
        }
        while j < n
            invariant
                n == table().len(),
                0 <= j <= n,
                char_code(c) == lookup_fwd_from(table(), c, j as int),
            decreases n - j,
        {
            proof {
                use_type_invariant(&*self);
            }
            if self.entries[j].0 == c {
                return Some(self.replace(&self.entries[j].1));
            }
            j += 1;
        }
        None
    }

    /// Decodes one token: glyph substitution back to pulse symbols, then
    /// reverse lookup.
    fn decode_token(&self, tok: &Vec<char>) -> (r: Option<char>)
        ensures
            r == token_char(tok@, self.spec_dot(), self.spec_dash()),
    {
        let mut u: Vec<char> = Vec::new();
        let mut k: usize = 0;
        while k < tok.len()
            invariant
                0 <= k <= tok@.len(),
                u@ == unrender(tok@.take(k as int), self.spec_dot(), self.spec_dash()),
            decreases tok@.len() - k,
        {
            let ch = tok[k];
            let p = if ch == self.dot {
                '.'
            } else if ch == self.dash {
                '-'
            } else {
                ch
            };
            u.push(p);
            proof {
                assert(u@ =~= unrender(
                    tok@.take(k as int + 1),
                    self.spec_dot(),
                    self.spec_dash(),
                ));
            }
            k += 1;
        }
        proof {
            assert(tok@.take(tok@.len() as int) =~= tok@);
        }
        let n = self.entries.len();
        let mut j: usize = 0;
        proof {
            use_type_invariant(&*self);
        }
        while j < n
            invariant
                n == table().len(),
                0 <= j <= n,
                u@ == unrender(tok@, self.spec_dot(), self.spec_dash()),
                code_char(u@) == lookup_rev_from(table(), u@, j as int),
            decreases n - j,
        {
            proof {
                use_type_invariant(&*self);
            }
            if vec_char_eq(&u, &self.entries[j].1) {
                return Some(self.entries[j].0);
            }
            j += 1;
        }
        None
    }
}

/// Element-for-element equality of two character vectors.
fn vec_char_eq(a: &Vec<char>, b: &Vec<char>) -> (r: bool)
    ensures
        r == (a@ == b@),
{
    if a.len() != b.len() {
        return false;
    }
    let mut i: usize = 0;
    while i < a.len()
        invariant
            a@.len() == b@.len(),
            0 <= i <= a@.len(),
            forall|k: int| 0 <= k < i ==> a@[k] == b@[k],
        decreases a@.len() - i,
    {
        if a[i] != b[i] {
            return false;
        }
        i += 1;
    }
    proof {
        assert(a@ =~= b@);
    }
    true
}

/// The token that encoding an alphabet character produces is non-empty and,
/// when neither glyph is whitespace, free of whitespace.
proof fn lemma_token_shape(c: char, dot: char, dash: char)
    requires
        char_code(c) is Some,
        !spec_is_wspace(dot),
        !spec_is_wspace(dash),
    ensures
        char_token(c, dot, dash).unwrap().len() >= 1,
        forall|k: int|
            0 <= k < char_token(c, dot, dash).unwrap().len() ==> !spec_is_wspace(
                #[trigger] char_token(c, dot, dash).unwrap()[k],
            ),
{
    lemma_lookup_fwd_mem(table(), c, 0);
    let j = choose|j: int|
        0 <= j < table().len() && (#[trigger] table()[j]).0 == c && table()[j].1 == lookup_fwd_from(
            table(),
            c,
            0,
        ).unwrap();
    lemma_table_entries();
    let code = char_code(c).unwrap();
    let rc = char_token(c, dot, dash).unwrap();
    assert forall|k: int| 0 <= k < rc.len() implies !spec_is_wspace(rc[k]) by {
        assert(code[k] == '.' || code[k] == '-');
    }
}

/// Round trip for one alphabet character: for any distinct choice of dot
/// and dash glyphs, decoding the encoded token with the same glyphs gives
/// the character back.
pub proof fn lemma_round_trip_char(c: char, dot: char, dash: char)
    requires
        dot != dash,
        char_code(c) is Some,
    ensures
        char_token(c, dot, dash) is Some,
        token_char(char_token(c, dot, dash).unwrap(), dot, dash) == Some(c),
{
    let code = char_code(c).unwrap();
    lemma_lookup_fwd_mem(table(), c, 0);
    let j = choose|j: int|
        0 <= j < table().len() && (#[trigger] table()[j]).0 == c && table()[j].1 == lookup_fwd_from(
            table(),
            c,
            0,
        ).unwrap();
    lemma_table_entries();
    lemma_unrender_render(code, dot, dash);
    lemma_code_roundtrip();
}

/// Round trip for whole strings: for glyphs that are distinct and not
/// whitespace, splitting the space-joined encoding of an alphabet string
/// back into tokens gives one token per character, and each token decodes
/// to the character it came from.
pub proof fn lemma_round_trip_string(text: Seq<char>, dot: char, dash: char)
    requires
        dot != dash,
        !spec_is_wspace(dot),
        !spec_is_wspace(dash),
        forall|i: int| 0 <= i < text.len() ==> char_code(#[trigger] text[i]) is Some,
    ensures
        tokens_of(joined(text, dot, dash)).len() == text.len(),
        forall|i: int|
            0 <= i < text.len() ==> token_char(
                #[trigger] tokens_of(joined(text, dot, dash))[i],
                dot,
                dash,
            ) == Some(text[i]),
    decreases text.len(),
{
    if text.len() == 0 {
    } else {
        let c = text.last();
        let rc = char_token(c, dot, dash).unwrap();
        lemma_token_shape(c, dot, dash);
        lemma_round_trip_char(c, dot, dash);
        if text.len() == 1 {
            assert(text[0] == c);
            lemma_tokens_of_single(rc);
            assert(tokens_of(joined(text, dot, dash)) == seq![rc]);
        } else {
            let prefix = text.drop_last();
            let a = joined(prefix, dot, dash);
            assert(forall|i: int|
                0 <= i < prefix.len() ==> char_code(#[trigger] prefix[i]) is Some);
            lemma_round_trip_string(prefix, dot, dash);
            lemma_tokens_of_append(a, rc);
            assert(joined(text, dot, dash) == a + seq![' '] + rc);
            let toks = tokens_of(joined(text, dot, dash));
            assert(toks == tokens_of(a) + seq![rc]);
            assert forall|i: int| 0 <= i < text.len() implies token_char(
                #[trigger] toks[i],
                dot,
                dash,
            ) == Some(text[i]) by {
                if i < text.len() - 1 {
                    assert(toks[i] == tokens_of(a)[i]);
                    assert(prefix[i] == text[i]);
                } else {
                    assert(toks[i] == rc);
                }
            }
        }
    }
}

} // verus!
