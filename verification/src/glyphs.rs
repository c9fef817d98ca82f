use vstd::prelude::*;

use crate::alphabet::only_pulse;

verus! {

/// One character of a canonical pulse-string, displayed with the configured
/// glyphs: '.' becomes the dot glyph, '-' the dash glyph, anything else is
/// passed through unchanged.
pub open spec fn rendered_char(c: char, dot: char, dash: char) -> char {
    if c == '.' {
        dot
    } else if c == '-' {
        dash
    } else {
        c
    }
}

/// One character of decode input, taken back to the internal symbols: the
/// dot glyph becomes '.', the dash glyph '-', anything else is unchanged.
/// The dot glyph is checked first, as decoding does.
pub open spec fn unrendered_char(c: char, dot: char, dash: char) -> char {
    if c == dot {
        '.'
    } else if c == dash {
        '-'
    } else {
        c
    }
}

/// A canonical pulse-string displayed with the configured glyphs.
pub open spec fn render(s: Seq<char>, dot: char, dash: char) -> Seq<char> {
    s.map_values(|c: char| rendered_char(c, dot, dash))
}

/// Decode input taken back to the internal symbols, character for character.
pub open spec fn unrender(s: Seq<char>, dot: char, dash: char) -> Seq<char> {
    s.map_values(|c: char| unrendered_char(c, dot, dash))
}

/// With distinct glyphs, displaying a pulse-string and then substituting the
/// glyphs away gives the original pulse-string back.
pub proof fn lemma_unrender_render(s: Seq<char>, dot: char, dash: char)
    requires
        only_pulse(s),
        dot != dash,
    ensures
        unrender(render(s, dot, dash), dot, dash) == s,
{
    assert(unrender(render(s, dot, dash), dot, dash) =~= s);
}

} // verus!
