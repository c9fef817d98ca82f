use vstd::prelude::*;

verus! {

/// The fixed Wabun alphabet: each kana paired with its canonical pulse-string,
/// a non-empty sequence over the two internal symbols '.' and '-'.
pub open spec fn table() -> Seq<(char, Seq<char>)> {
    seq![
        ('イ', seq!['.', '-']),
        ('ロ', seq!['.', '-', '.', '-']),
        ('ハ', seq!['-', '.', '.', '.']),
        ('ニ', seq!['-', '.', '-', '.']),
        ('ホ', seq!['-', '.', '.']),
        ('ヘ', seq!['.']),
        ('ト', seq!['.', '.', '-', '.', '.']),
        ('チ', seq!['.', '.', '-', '.']),
        ('リ', seq!['-', '-', '.']),
        ('ヌ', seq!['.', '.', '.', '.']),
        ('ル', seq!['-', '.', '-', '-', '.']),
        ('ヲ', seq!['.', '-', '-', '-']),
        ('ワ', seq!['-', '.', '-']),
        ('カ', seq!['.', '-', '.', '.']),
        ('ヨ', seq!['-', '-']),
        ('タ', seq!['-', '.']),
        ('レ', seq!['-', '-', '-']),
        ('ソ', seq!['-', '-', '-', '.']),
        ('ツ', seq!['.', '-', '-', '.']),
        ('ネ', seq!['-', '-', '.', '-']),
        ('ナ', seq!['.', '-', '.']),
        ('ラ', seq!['.', '.', '.']),
        ('ム', seq!['-']),
        ('ウ', seq!['.', '.', '-']),
        ('ヰ', seq!['.', '-', '.', '.', '-']),
        ('ノ', seq!['.', '.', '-', '-']),
        ('オ', seq!['.', '-', '.', '.', '.']),
        ('ク', seq!['.', '.', '.', '-']),
        ('ヤ', seq!['.', '-', '-']),
        ('マ', seq!['-', '.', '.', '-']),
        ('ケ', seq!['-', '.', '-', '-']),
        ('フ', seq!['-', '-', '.', '.']),
        ('コ', seq!['-', '-', '-', '-']),
        ('エ', seq!['-', '.', '-', '-', '-']),
        ('テ', seq!['.', '-', '.', '-', '-']),
        ('ア', seq!['-', '-', '.', '-', '-']),
        ('サ', seq!['-', '.', '-', '.', '-']),
        ('キ', seq!['-', '.', '-', '.', '.']),
        ('ユ', seq!['-', '.', '.', '-', '-']),
        ('メ', seq!['-', '.', '.', '.', '-']),
        ('ミ', seq!['.', '.', '-', '.', '-']),
        ('シ', seq!['-', '-', '.', '-', '.']),
        ('ヱ', seq!['.', '-', '-', '.', '.']),
        ('ヒ', seq!['-', '-', '.', '.', '-']),
        ('モ', seq!['-', '.', '.', '-', '.']),
        ('セ', seq!['.', '-', '-', '-', '.']),
        ('ス', seq!['-', '-', '-', '.', '-']),
        ('ン', seq!['.', '-', '.', '-', '.']),
        ('゛', seq!['.', '.']),
        ('゜', seq!['.', '.', '-', '-', '.']),
    ]
}

/// The first entry at or after position `i` whose character is `c`, if any.
pub open spec fn lookup_fwd_from(t: Seq<(char, Seq<char>)>, c: char, i: int) -> Option<Seq<char>>
    decreases t.len() - i,
{
    if i < 0 || i >= t.len() {
        None
    } else if t[i].0 == c {
        Some(t[i].1)
    } else {
        lookup_fwd_from(t, c, i + 1)
    }
}

/// The first entry at or after position `i` whose pulse-string is `s`, if any.
pub open spec fn lookup_rev_from(t: Seq<(char, Seq<char>)>, s: Seq<char>, i: int) -> Option<char>
    decreases t.len() - i,
{
    if i < 0 || i >= t.len() {
        None
    } else if t[i].1 == s {
        Some(t[i].0)
    } else {
        lookup_rev_from(t, s, i + 1)
    }
}

/// The canonical pulse-string of character `c`: the forward table.
pub open spec fn char_code(c: char) -> Option<Seq<char>> {
    lookup_fwd_from(table(), c, 0)
}

/// The character whose canonical pulse-string is `s`: the reverse table.
pub open spec fn code_char(s: Seq<char>) -> Option<char> {
    lookup_rev_from(table(), s, 0)
}

/// `s` uses only the two internal pulse symbols.
pub open spec fn only_pulse(s: Seq<char>) -> bool {
    forall|j: int| 0 <= j < s.len() ==> s[j] == '.' || s[j] == '-'
}

/// A numeric fingerprint of a pulse-string: reads it as a binary numeral
/// (dash = 1, dot = 0) with a leading sentinel bit, so two pulse-strings
/// with different fingerprints are different sequences.
pub open spec fn pulse_val_from(s: Seq<char>, i: int) -> nat
    decreases s.len() - i,
{
    if i < 0 || i >= s.len() {
        1
    } else {
        2 * pulse_val_from(s, i + 1) + (if s[i] == '-' {
            1nat
        } else {
            0nat
        })
    }
}

pub open spec fn pulse_val(s: Seq<char>) -> nat {
    pulse_val_from(s, 0)
}

/// The fingerprints of the table's pulse-strings, in table order.
pub open spec fn code_vals() -> Seq<nat> {
    seq![6nat, 26nat, 17nat, 21nat, 9nat, 2nat, 36nat, 20nat, 11nat, 16nat, 45nat, 30nat, 13nat, 18nat, 7nat, 5nat, 15nat, 23nat, 22nat, 27nat, 10nat, 8nat, 3nat, 12nat, 50nat, 28nat, 34nat, 24nat, 14nat, 25nat, 29nat, 19nat, 31nat, 61nat, 58nat, 59nat, 53nat, 37nat, 57nat, 49nat, 52nat, 43nat, 38nat, 51nat, 41nat, 46nat, 55nat, 42nat, 4nat, 44nat]
}

#[verifier::rlimit(50)]
proof fn lemma_table_vals_span_0()
    ensures
        forall|k: int| 0 <= k < 10 ==> pulse_val(#[trigger] table()[k].1) == code_vals()[k],
{
    assert forall|k: int| 0 <= k < 10 implies pulse_val(#[trigger] table()[k].1) == code_vals()[k] by {
        if k == 0 {
            assert(pulse_val(table()[0].1) == 6) by {
                reveal_with_fuel(pulse_val_from, 8);
            }
        } else if k == 1 {
            assert(pulse_val(table()[1].1) == 26) by {
                reveal_with_fuel(pulse_val_from, 8);
            }
        } else if k == 2 {
            assert(pulse_val(table()[2].1) == 17) by {
                reveal_with_fuel(pulse_val_from, 8);
            }
        } else if k == 3 {
            assert(pulse_val(table()[3].1) == 21) by {
                reveal_with_fuel(pulse_val_from, 8);
            }
        } else if k == 4 {
            assert(pulse_val(table()[4].1) == 9) by {
                reveal_with_fuel(pulse_val_from, 8);
            }
        } else if k == 5 {
            assert(pulse_val(table()[5].1) == 2) by {
                reveal_with_fuel(pulse_val_from, 8);
            }
        } else if k == 6 {
            assert(pulse_val(table()[6].1) == 36) by {
                reveal_with_fuel(pulse_val_from, 8);
            }
        } else if k == 7 {
            assert(pulse_val(table()[7].1) == 20) by {
                reveal_with_fuel(pulse_val_from, 8);
            }
        } else if k == 8 {
            assert(pulse_val(table()[8].1) == 11) by {
                reveal_with_fuel(pulse_val_from, 8);
            }
        } else {
            assert(pulse_val(table()[9].1) == 16) by {
                reveal_with_fuel(pulse_val_from, 8);
            }
        }
    }
}

#[verifier::rlimit(50)]
proof fn lemma_table_vals_span_10()
    ensures
        forall|k: int| 10 <= k < 20 ==> pulse_val(#[trigger] table()[k].1) == code_vals()[k],
{
    assert forall|k: int| 10 <= k < 20 implies pulse_val(#[trigger] table()[k].1) == code_vals()[k] by {
        if k == 10 {
            assert(pulse_val(table()[10].1) == 45) by {
                reveal_with_fuel(pulse_val_from, 8);
            }
        } else if k == 11 {
            assert(pulse_val(table()[11].1) == 30) by {
                reveal_with_fuel(pulse_val_from, 8);
            }
        } else if k == 12 {
            assert(pulse_val(table()[12].1) == 13) by {
                reveal_with_fuel(pulse_val_from, 8);
            }
        } else if k == 13 {
            assert(pulse_val(table()[13].1) == 18) by {
                reveal_with_fuel(pulse_val_from, 8);
            }
        } else if k == 14 {
            assert(pulse_val(table()[14].1) == 7) by {
                reveal_with_fuel(pulse_val_from, 8);
            }
        } else if k == 15 {
            assert(pulse_val(table()[15].1) == 5) by {
                reveal_with_fuel(pulse_val_from, 8);
            }
        } else if k == 16 {
            assert(pulse_val(table()[16].1) == 15) by {
                reveal_with_fuel(pulse_val_from, 8);
            }
        } else if k == 17 {
            assert(pulse_val(table()[17].1) == 23) by {
                reveal_with_fuel(pulse_val_from, 8);
            }
        } else if k == 18 {
            assert(pulse_val(table()[18].1) == 22) by {
                reveal_with_fuel(pulse_val_from, 8);
            }
        } else {
            assert(pulse_val(table()[19].1) == 27) by {
                reveal_with_fuel(pulse_val_from, 8);
            }
        }
    }
}

#[verifier::rlimit(50)]
proof fn lemma_table_vals_span_20()
    ensures
        forall|k: int| 20 <= k < 30 ==> pulse_val(#[trigger] table()[k].1) == code_vals()[k],
{
    assert forall|k: int| 20 <= k < 30 implies pulse_val(#[trigger] table()[k].1) == code_vals()[k] by {
        if k == 20 {
            assert(pulse_val(table()[20].1) == 10) by {
                reveal_with_fuel(pulse_val_from, 8);
            }
        } else if k == 21 {
            assert(pulse_val(table()[21].1) == 8) by {
                reveal_with_fuel(pulse_val_from, 8);
            }
        } else if k == 22 {
            assert(pulse_val(table()[22].1) == 3) by {
                reveal_with_fuel(pulse_val_from, 8);
            }
        } else if k == 23 {
            assert(pulse_val(table()[23].1) == 12) by {
                reveal_with_fuel(pulse_val_from, 8);
            }
        } else if k == 24 {
            assert(pulse_val(table()[24].1) == 50) by {
                reveal_with_fuel(pulse_val_from, 8);
            }
        } else if k == 25 {
            assert(pulse_val(table()[25].1) == 28) by {
                reveal_with_fuel(pulse_val_from, 8);
            }
        } else if k == 26 {
            assert(pulse_val(table()[26].1) == 34) by {
                reveal_with_fuel(pulse_val_from, 8);
            }
        } else if k == 27 {
            assert(pulse_val(table()[27].1) == 24) by {
                reveal_with_fuel(pulse_val_from, 8);
            }
        } else if k == 28 {
            assert(pulse_val(table()[28].1) == 14) by {
                reveal_with_fuel(pulse_val_from, 8);
            }
        } else {
            assert(pulse_val(table()[29].1) == 25) by {
                reveal_with_fuel(pulse_val_from, 8);
            }
        }
    }
}

#[verifier::rlimit(50)]
proof fn lemma_table_vals_span_30()
    ensures
        forall|k: int| 30 <= k < 40 ==> pulse_val(#[trigger] table()[k].1) == code_vals()[k],
{
    assert forall|k: int| 30 <= k < 40 implies pulse_val(#[trigger] table()[k].1) == code_vals()[k] by {
        if k == 30 {
            assert(pulse_val(table()[30].1) == 29) by {
                reveal_with_fuel(pulse_val_from, 8);
            }
        } else if k == 31 {
            assert(pulse_val(table()[31].1) == 19) by {
                reveal_with_fuel(pulse_val_from, 8);
            }
        } else if k == 32 {
            assert(pulse_val(table()[32].1) == 31) by {
                reveal_with_fuel(pulse_val_from, 8);
            }
        } else if k == 33 {
            assert(pulse_val(table()[33].1) == 61) by {
                reveal_with_fuel(pulse_val_from, 8);
            }
        } else if k == 34 {
            assert(pulse_val(table()[34].1) == 58) by {
                reveal_with_fuel(pulse_val_from, 8);
            }
        } else if k == 35 {
            assert(pulse_val(table()[35].1) == 59) by {
                reveal_with_fuel(pulse_val_from, 8);
            }
        } else if k == 36 {
            assert(pulse_val(table()[36].1) == 53) by {
                reveal_with_fuel(pulse_val_from, 8);
            }
        } else if k == 37 {
            assert(pulse_val(table()[37].1) == 37) by {
                reveal_with_fuel(pulse_val_from, 8);
            }
        } else if k == 38 {
            assert(pulse_val(table()[38].1) == 57) by {
                reveal_with_fuel(pulse_val_from, 8);
            }
        } else {
            assert(pulse_val(table()[39].1) == 49) by {
                reveal_with_fuel(pulse_val_from, 8);
            }
        }
    }
}

#[verifier::rlimit(50)]
proof fn lemma_table_vals_span_40()
    ensures
        forall|k: int| 40 <= k < 50 ==> pulse_val(#[trigger] table()[k].1) == code_vals()[k],
{
    assert forall|k: int| 40 <= k < 50 implies pulse_val(#[trigger] table()[k].1) == code_vals()[k] by {
        if k == 40 {
            assert(pulse_val(table()[40].1) == 52) by {
                reveal_with_fuel(pulse_val_from, 8);
            }
        } else if k == 41 {
            assert(pulse_val(table()[41].1) == 43) by {
                reveal_with_fuel(pulse_val_from, 8);
            }
        } else if k == 42 {
            assert(pulse_val(table()[42].1) == 38) by {
                reveal_with_fuel(pulse_val_from, 8);
            }
        } else if k == 43 {
            assert(pulse_val(table()[43].1) == 51) by {
                reveal_with_fuel(pulse_val_from, 8);
            }
        } else if k == 44 {
            assert(pulse_val(table()[44].1) == 41) by {
                reveal_with_fuel(pulse_val_from, 8);
            }
        } else if k == 45 {
            assert(pulse_val(table()[45].1) == 46) by {
                reveal_with_fuel(pulse_val_from, 8);
            }
        } else if k == 46 {
            assert(pulse_val(table()[46].1) == 55) by {
                reveal_with_fuel(pulse_val_from, 8);
            }
        } else if k == 47 {
            assert(pulse_val(table()[47].1) == 42) by {
                reveal_with_fuel(pulse_val_from, 8);
            }
        } else if k == 48 {
            assert(pulse_val(table()[48].1) == 4) by {
                reveal_with_fuel(pulse_val_from, 8);
            }
        } else {
            assert(pulse_val(table()[49].1) == 44) by {
                reveal_with_fuel(pulse_val_from, 8);
            }
        }
    }
}

proof fn lemma_table_vals()
    ensures
        forall|k: int| 0 <= k < table().len() ==> pulse_val(#[trigger] table()[k].1) == code_vals()[k],
{
    lemma_table_vals_span_0();
    lemma_table_vals_span_10();
    lemma_table_vals_span_20();
    lemma_table_vals_span_30();
    lemma_table_vals_span_40();
}

#[verifier::rlimit(100)]
proof fn lemma_code_roundtrip_span_0()
    ensures
        forall|k: int| 0 <= k < 10 ==> code_char((#[trigger] table()[k]).1) == Some(table()[k].0),
{
    assert forall|k: int| 0 <= k < 10 implies code_char((#[trigger] table()[k]).1) == Some(table()[k].0) by {
        if k == 0 {
            assert(code_char(table()[0].1) == Some(table()[0].0)) by {
                lemma_table_vals();
                reveal_with_fuel(lookup_rev_from, 60);
            }
        } else if k == 1 {
            assert(code_char(table()[1].1) == Some(table()[1].0)) by {
                lemma_table_vals();
                reveal_with_fuel(lookup_rev_from, 60);
            }
        } else if k == 2 {
            assert(code_char(table()[2].1) == Some(table()[2].0)) by {
                lemma_table_vals();
                reveal_with_fuel(lookup_rev_from, 60);
            }
        } else if k == 3 {
            assert(code_char(table()[3].1) == Some(table()[3].0)) by {
                lemma_table_vals();
                reveal_with_fuel(lookup_rev_from, 60);
            }
        } else if k == 4 {
            assert(code_char(table()[4].1) == Some(table()[4].0)) by {
                lemma_table_vals();
                reveal_with_fuel(lookup_rev_from, 60);
            }
        } else if k == 5 {
            assert(code_char(table()[5].1) == Some(table()[5].0)) by {
                lemma_table_vals();
                reveal_with_fuel(lookup_rev_from, 60);
            }
        } else if k == 6 {
            assert(code_char(table()[6].1) == Some(table()[6].0)) by {
                lemma_table_vals();
                reveal_with_fuel(lookup_rev_from, 60);
            }
        } else if k == 7 {
            assert(code_char(table()[7].1) == Some(table()[7].0)) by {
                lemma_table_vals();
                reveal_with_fuel(lookup_rev_from, 60);
            }
        } else if k == 8 {
            assert(code_char(table()[8].1) == Some(table()[8].0)) by {
                lemma_table_vals();
                reveal_with_fuel(lookup_rev_from, 60);
            }
        } else {
            assert(code_char(table()[9].1) == Some(table()[9].0)) by {
                lemma_table_vals();
                reveal_with_fuel(lookup_rev_from, 60);
            }
        }
    }
}

#[verifier::rlimit(100)]
proof fn lemma_code_roundtrip_span_10()
    ensures
        forall|k: int| 10 <= k < 20 ==> code_char((#[trigger] table()[k]).1) == Some(table()[k].0),
{
    assert forall|k: int| 10 <= k < 20 implies code_char((#[trigger] table()[k]).1) == Some(table()[k].0) by {
        if k == 10 {
            assert(code_char(table()[10].1) == Some(table()[10].0)) by {
                lemma_table_vals();
                reveal_with_fuel(lookup_rev_from, 60);
            }
        } else if k == 11 {
            assert(code_char(table()[11].1) == Some(table()[11].0)) by {
                lemma_table_vals();
                reveal_with_fuel(lookup_rev_from, 60);
            }
        } else if k == 12 {
            assert(code_char(table()[12].1) == Some(table()[12].0)) by {
                lemma_table_vals();
                reveal_with_fuel(lookup_rev_from, 60);
            }
        } else if k == 13 {
            assert(code_char(table()[13].1) == Some(table()[13].0)) by {
                lemma_table_vals();
                reveal_with_fuel(lookup_rev_from, 60);
            }
        } else if k == 14 {
            assert(code_char(table()[14].1) == Some(table()[14].0)) by {
                lemma_table_vals();
                reveal_with_fuel(lookup_rev_from, 60);
            }
        } else if k == 15 {
            assert(code_char(table()[15].1) == Some(table()[15].0)) by {
                lemma_table_vals();
                reveal_with_fuel(lookup_rev_from, 60);
            }
        } else if k == 16 {
            assert(code_char(table()[16].1) == Some(table()[16].0)) by {
                lemma_table_vals();
                reveal_with_fuel(lookup_rev_from, 60);
            }
        } else if k == 17 {
            assert(code_char(table()[17].1) == Some(table()[17].0)) by {
                lemma_table_vals();
                reveal_with_fuel(lookup_rev_from, 60);
            }
        } else if k == 18 {
            assert(code_char(table()[18].1) == Some(table()[18].0)) by {
                lemma_table_vals();
                reveal_with_fuel(lookup_rev_from, 60);
            }
        } else {
            assert(code_char(table()[19].1) == Some(table()[19].0)) by {
                lemma_table_vals();
                reveal_with_fuel(lookup_rev_from, 60);
            }
        }
    }
}

#[verifier::rlimit(100)]
proof fn lemma_code_roundtrip_span_20()
    ensures
        forall|k: int| 20 <= k < 30 ==> code_char((#[trigger] table()[k]).1) == Some(table()[k].0),
{
    assert forall|k: int| 20 <= k < 30 implies code_char((#[trigger] table()[k]).1) == Some(table()[k].0) by {
        if k == 20 {
            assert(code_char(table()[20].1) == Some(table()[20].0)) by {
                lemma_table_vals();
                reveal_with_fuel(lookup_rev_from, 60);
            }
        } else if k == 21 {
            assert(code_char(table()[21].1) == Some(table()[21].0)) by {
                lemma_table_vals();
                reveal_with_fuel(lookup_rev_from, 60);
            }
        } else if k == 22 {
            assert(code_char(table()[22].1) == Some(table()[22].0)) by {
                lemma_table_vals();
                reveal_with_fuel(lookup_rev_from, 60);
            }
        } else if k == 23 {
            assert(code_char(table()[23].1) == Some(table()[23].0)) by {
                lemma_table_vals();
                reveal_with_fuel(lookup_rev_from, 60);
            }
        } else if k == 24 {
            assert(code_char(table()[24].1) == Some(table()[24].0)) by {
                lemma_table_vals();
                reveal_with_fuel(lookup_rev_from, 60);
            }
        } else if k == 25 {
            assert(code_char(table()[25].1) == Some(table()[25].0)) by {
                lemma_table_vals();
                reveal_with_fuel(lookup_rev_from, 60);
            }
        } else if k == 26 {
            assert(code_char(table()[26].1) == Some(table()[26].0)) by {
                lemma_table_vals();
                reveal_with_fuel(lookup_rev_from, 60);
            }
        } else if k == 27 {
            assert(code_char(table()[27].1) == Some(table()[27].0)) by {
                lemma_table_vals();
                reveal_with_fuel(lookup_rev_from, 60);
            }
        } else if k == 28 {
            assert(code_char(table()[28].1) == Some(table()[28].0)) by {
                lemma_table_vals();
                reveal_with_fuel(lookup_rev_from, 60);
            }
        } else {
            assert(code_char(table()[29].1) == Some(table()[29].0)) by {
                lemma_table_vals();
                reveal_with_fuel(lookup_rev_from, 60);
            }
        }
    }
}

#[verifier::rlimit(100)]
proof fn lemma_code_roundtrip_span_30()
    ensures
        forall|k: int| 30 <= k < 40 ==> code_char((#[trigger] table()[k]).1) == Some(table()[k].0),
{
    assert forall|k: int| 30 <= k < 40 implies code_char((#[trigger] table()[k]).1) == Some(table()[k].0) by {
        if k == 30 {
            assert(code_char(table()[30].1) == Some(table()[30].0)) by {
                lemma_table_vals();
                reveal_with_fuel(lookup_rev_from, 60);
            }
        } else if k == 31 {
            assert(code_char(table()[31].1) == Some(table()[31].0)) by {
                lemma_table_vals();
                reveal_with_fuel(lookup_rev_from, 60);
            }
        } else if k == 32 {
            assert(code_char(table()[32].1) == Some(table()[32].0)) by {
                lemma_table_vals();
                reveal_with_fuel(lookup_rev_from, 60);
            }
        } else if k == 33 {
            assert(code_char(table()[33].1) == Some(table()[33].0)) by {
                lemma_table_vals();
                reveal_with_fuel(lookup_rev_from, 60);
            }
        } else if k == 34 {
            assert(code_char(table()[34].1) == Some(table()[34].0)) by {
                lemma_table_vals();
                reveal_with_fuel(lookup_rev_from, 60);
            }
        } else if k == 35 {
            assert(code_char(table()[35].1) == Some(table()[35].0)) by {
                lemma_table_vals();
                reveal_with_fuel(lookup_rev_from, 60);
            }
        } else if k == 36 {
            assert(code_char(table()[36].1) == Some(table()[36].0)) by {
                lemma_table_vals();
                reveal_with_fuel(lookup_rev_from, 60);
            }
        } else if k == 37 {
            assert(code_char(table()[37].1) == Some(table()[37].0)) by {
                lemma_table_vals();
                reveal_with_fuel(lookup_rev_from, 60);
            }
        } else if k == 38 {
            assert(code_char(table()[38].1) == Some(table()[38].0)) by {
                lemma_table_vals();
                reveal_with_fuel(lookup_rev_from, 60);
            }
        } else {
            assert(code_char(table()[39].1) == Some(table()[39].0)) by {
                lemma_table_vals();
                reveal_with_fuel(lookup_rev_from, 60);
            }
        }
    }
}

#[verifier::rlimit(100)]
proof fn lemma_code_roundtrip_span_40()
    ensures
        forall|k: int| 40 <= k < 50 ==> code_char((#[trigger] table()[k]).1) == Some(table()[k].0),
{
    assert forall|k: int| 40 <= k < 50 implies code_char((#[trigger] table()[k]).1) == Some(table()[k].0) by {
        if k == 40 {
            assert(code_char(table()[40].1) == Some(table()[40].0)) by {
                lemma_table_vals();
                reveal_with_fuel(lookup_rev_from, 60);
            }
        } else if k == 41 {
            assert(code_char(table()[41].1) == Some(table()[41].0)) by {
                lemma_table_vals();
                reveal_with_fuel(lookup_rev_from, 60);
            }
        } else if k == 42 {
            assert(code_char(table()[42].1) == Some(table()[42].0)) by {
                lemma_table_vals();
                reveal_with_fuel(lookup_rev_from, 60);
            }
        } else if k == 43 {
            assert(code_char(table()[43].1) == Some(table()[43].0)) by {
                lemma_table_vals();
                reveal_with_fuel(lookup_rev_from, 60);
            }
        } else if k == 44 {
            assert(code_char(table()[44].1) == Some(table()[44].0)) by {
                lemma_table_vals();
                reveal_with_fuel(lookup_rev_from, 60);
            }
        } else if k == 45 {
            assert(code_char(table()[45].1) == Some(table()[45].0)) by {
                lemma_table_vals();
                reveal_with_fuel(lookup_rev_from, 60);
            }
        } else if k == 46 {
            assert(code_char(table()[46].1) == Some(table()[46].0)) by {
                lemma_table_vals();
                reveal_with_fuel(lookup_rev_from, 60);
            }
        } else if k == 47 {
            assert(code_char(table()[47].1) == Some(table()[47].0)) by {
                lemma_table_vals();
                reveal_with_fuel(lookup_rev_from, 60);
            }
        } else if k == 48 {
            assert(code_char(table()[48].1) == Some(table()[48].0)) by {
                lemma_table_vals();
                reveal_with_fuel(lookup_rev_from, 60);
            }
        } else {
            assert(code_char(table()[49].1) == Some(table()[49].0)) by {
                lemma_table_vals();
                reveal_with_fuel(lookup_rev_from, 60);
            }
        }
    }
}

/// Looking a table pulse-string back up recovers that entry's character:
/// no two table entries share a pulse-string.
pub proof fn lemma_code_roundtrip()
    ensures
        forall|k: int| 0 <= k < table().len() ==> code_char((#[trigger] table()[k]).1) == Some(table()[k].0),
{
    lemma_code_roundtrip_span_0();
    lemma_code_roundtrip_span_10();
    lemma_code_roundtrip_span_20();
    lemma_code_roundtrip_span_30();
    lemma_code_roundtrip_span_40();
}

#[verifier::rlimit(50)]
proof fn lemma_table_entries_span_0()
    ensures
        forall|k: int| 0 <= k < 10 ==> only_pulse((#[trigger] table()[k]).1) && 1 <= table()[k].1.len(),
{
    assert forall|k: int| 0 <= k < 10 implies only_pulse((#[trigger] table()[k]).1) && 1 <= table()[k].1.len() by {
        if k == 0 {
            assert(table()[0].1.len() == 2);
            assert(only_pulse(table()[0].1));
        } else if k == 1 {
            assert(table()[1].1.len() == 4);
            assert(only_pulse(table()[1].1));
        } else if k == 2 {
            assert(table()[2].1.len() == 4);
            assert(only_pulse(table()[2].1));
        } else if k == 3 {
            assert(table()[3].1.len() == 4);
            assert(only_pulse(table()[3].1));
        } else if k == 4 {
            assert(table()[4].1.len() == 3);
            assert(only_pulse(table()[4].1));
        } else if k == 5 {
            assert(table()[5].1.len() == 1);
            assert(only_pulse(table()[5].1));
        } else if k == 6 {
            assert(table()[6].1.len() == 5);
            assert(only_pulse(table()[6].1));
        } else if k == 7 {
            assert(table()[7].1.len() == 4);
            assert(only_pulse(table()[7].1));
        } else if k == 8 {
            assert(table()[8].1.len() == 3);
            assert(only_pulse(table()[8].1));
        } else {
            assert(table()[9].1.len() == 4);
            assert(only_pulse(table()[9].1));
        }
    }
}

#[verifier::rlimit(50)]
proof fn lemma_table_entries_span_10()
    ensures
        forall|k: int| 10 <= k < 20 ==> only_pulse((#[trigger] table()[k]).1) && 1 <= table()[k].1.len(),
{
    assert forall|k: int| 10 <= k < 20 implies only_pulse((#[trigger] table()[k]).1) && 1 <= table()[k].1.len() by {
        if k == 10 {
            assert(table()[10].1.len() == 5);
            assert(only_pulse(table()[10].1));
        } else if k == 11 {
            assert(table()[11].1.len() == 4);
            assert(only_pulse(table()[11].1));
        } else if k == 12 {
            assert(table()[12].1.len() == 3);
            assert(only_pulse(table()[12].1));
        } else if k == 13 {
            assert(table()[13].1.len() == 4);
            assert(only_pulse(table()[13].1));
        } else if k == 14 {
            assert(table()[14].1.len() == 2);
            assert(only_pulse(table()[14].1));
        } else if k == 15 {
            assert(table()[15].1.len() == 2);
            assert(only_pulse(table()[15].1));
        } else if k == 16 {
            assert(table()[16].1.len() == 3);
            assert(only_pulse(table()[16].1));
        } else if k == 17 {
            assert(table()[17].1.len() == 4);
            assert(only_pulse(table()[17].1));
        } else if k == 18 {
            assert(table()[18].1.len() == 4);
            assert(only_pulse(table()[18].1));
        } else {
            assert(table()[19].1.len() == 4);
            assert(only_pulse(table()[19].1));
        }
    }
}

#[verifier::rlimit(50)]
proof fn lemma_table_entries_span_20()
    ensures
        forall|k: int| 20 <= k < 30 ==> only_pulse((#[trigger] table()[k]).1) && 1 <= table()[k].1.len(),
{
    assert forall|k: int| 20 <= k < 30 implies only_pulse((#[trigger] table()[k]).1) && 1 <= table()[k].1.len() by {
        if k == 20 {
            assert(table()[20].1.len() == 3);
            assert(only_pulse(table()[20].1));
        } else if k == 21 {
            assert(table()[21].1.len() == 3);
            assert(only_pulse(table()[21].1));
        } else if k == 22 {
            assert(table()[22].1.len() == 1);
            assert(only_pulse(table()[22].1));
        } else if k == 23 {
            assert(table()[23].1.len() == 3);
            assert(only_pulse(table()[23].1));
        } else if k == 24 {
            assert(table()[24].1.len() == 5);
            assert(only_pulse(table()[24].1));
        } else if k == 25 {
            assert(table()[25].1.len() == 4);
            assert(only_pulse(table()[25].1));
        } else if k == 26 {
            assert(table()[26].1.len() == 5);
            assert(only_pulse(table()[26].1));
        } else if k == 27 {
            assert(table()[27].1.len() == 4);
            assert(only_pulse(table()[27].1));
        } else if k == 28 {
            assert(table()[28].1.len() == 3);
            assert(only_pulse(table()[28].1));
        } else {
            assert(table()[29].1.len() == 4);
            assert(only_pulse(table()[29].1));
        }
    }
}

#[verifier::rlimit(50)]
proof fn lemma_table_entries_span_30()
    ensures
        forall|k: int| 30 <= k < 40 ==> only_pulse((#[trigger] table()[k]).1) && 1 <= table()[k].1.len(),
{
    assert forall|k: int| 30 <= k < 40 implies only_pulse((#[trigger] table()[k]).1) && 1 <= table()[k].1.len() by {
        if k == 30 {
            assert(table()[30].1.len() == 4);
            assert(only_pulse(table()[30].1));
        } else if k == 31 {
            assert(table()[31].1.len() == 4);
            assert(only_pulse(table()[31].1));
        } else if k == 32 {
            assert(table()[32].1.len() == 4);
            assert(only_pulse(table()[32].1));
        } else if k == 33 {
            assert(table()[33].1.len() == 5);
            assert(only_pulse(table()[33].1));
        } else if k == 34 {
            assert(table()[34].1.len() == 5);
            assert(only_pulse(table()[34].1));
        } else if k == 35 {
            assert(table()[35].1.len() == 5);
            assert(only_pulse(table()[35].1));
        } else if k == 36 {
            assert(table()[36].1.len() == 5);
            assert(only_pulse(table()[36].1));
        } else if k == 37 {
            assert(table()[37].1.len() == 5);
            assert(only_pulse(table()[37].1));
        } else if k == 38 {
            assert(table()[38].1.len() == 5);
            assert(only_pulse(table()[38].1));
        } else {
            assert(table()[39].1.len() == 5);
            assert(only_pulse(table()[39].1));
        }
    }
}

#[verifier::rlimit(50)]
proof fn lemma_table_entries_span_40()
    ensures
        forall|k: int| 40 <= k < 50 ==> only_pulse((#[trigger] table()[k]).1) && 1 <= table()[k].1.len(),
{
    assert forall|k: int| 40 <= k < 50 implies only_pulse((#[trigger] table()[k]).1) && 1 <= table()[k].1.len() by {
        if k == 40 {
            assert(table()[40].1.len() == 5);
            assert(only_pulse(table()[40].1));
        } else if k == 41 {
            assert(table()[41].1.len() == 5);
            assert(only_pulse(table()[41].1));
        } else if k == 42 {
            assert(table()[42].1.len() == 5);
            assert(only_pulse(table()[42].1));
        } else if k == 43 {
            assert(table()[43].1.len() == 5);
            assert(only_pulse(table()[43].1));
        } else if k == 44 {
            assert(table()[44].1.len() == 5);
            assert(only_pulse(table()[44].1));
        } else if k == 45 {
            assert(table()[45].1.len() == 5);
            assert(only_pulse(table()[45].1));
        } else if k == 46 {
            assert(table()[46].1.len() == 5);
            assert(only_pulse(table()[46].1));
        } else if k == 47 {
            assert(table()[47].1.len() == 5);
            assert(only_pulse(table()[47].1));
        } else if k == 48 {
            assert(table()[48].1.len() == 2);
            assert(only_pulse(table()[48].1));
        } else {
            assert(table()[49].1.len() == 5);
            assert(only_pulse(table()[49].1));
        }
    }
}

/// Every pulse-string in the table is non-empty and uses only pulse symbols.
pub proof fn lemma_table_entries()
    ensures
        forall|k: int| 0 <= k < table().len() ==> only_pulse((#[trigger] table()[k]).1) && 1 <= table()[k].1.len(),
{
    lemma_table_entries_span_0();
    lemma_table_entries_span_10();
    lemma_table_entries_span_20();
    lemma_table_entries_span_30();
    lemma_table_entries_span_40();
}

/// A successful forward lookup comes from some table entry.
pub proof fn lemma_lookup_fwd_mem(t: Seq<(char, Seq<char>)>, c: char, i: int)
    requires
        0 <= i,
        lookup_fwd_from(t, c, i) is Some,
    ensures
        exists|j: int|
            i <= j < t.len() && (#[trigger] t[j]).0 == c && t[j].1 == lookup_fwd_from(
                t,
                c,
                i,
            ).unwrap(),
    decreases t.len() - i,
{
    if i < t.len() && t[i].0 == c {
        assert(i <= i < t.len() && t[i].0 == c && t[i].1 == lookup_fwd_from(t, c, i).unwrap());
    } else {
        lemma_lookup_fwd_mem(t, c, i + 1);
    }
}

} // verus!
