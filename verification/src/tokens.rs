use vstd::prelude::*;

verus! {

/// `c` has the Unicode white-space property, the standard by which decode
/// input is split into tokens.
pub open spec fn spec_is_wspace(c: char) -> bool {
    let u = c as u32;
    (9 <= u && u <= 13) || u == 32 || u == 0x85 || u == 0xA0 || u == 0x1680 || (0x2000 <= u && u
        <= 0x200A) || u == 0x2028 || u == 0x2029 || u == 0x202F || u == 0x205F || u == 0x3000
}

/// White-space test used to split decode input into tokens.
pub fn is_wspace(c: char) -> (r: bool)
    ensures
        r == spec_is_wspace(c),
{
    let u = c as u32;
    (9 <= u && u <= 13) || u == 32 || u == 0x85 || u == 0xA0 || u == 0x1680 || (0x2000 <= u && u
        <= 0x200A) || u == 0x2028 || u == 0x2029 || u == 0x202F || u == 0x205F || u == 0x3000
}

/// Length of the maximal whitespace-free prefix of `s`.
pub open spec fn token_len(s: Seq<char>) -> nat
    decreases s.len(),
{
    if s.len() == 0 || spec_is_wspace(s[0]) {
        0
    } else {
        1 + token_len(s.drop_first())
    }
}

pub proof fn lemma_token_len_le(s: Seq<char>)
    ensures
        token_len(s) <= s.len(),
    decreases s.len(),
{
    if s.len() != 0 && !spec_is_wspace(s[0]) {
        lemma_token_len_le(s.drop_first());
    }
}

/// The maximal whitespace-free prefix ends exactly at the first whitespace
/// character, or at the end of the sequence if there is none.
pub proof fn lemma_token_len_exact(s: Seq<char>, p: int)
    requires
        0 <= p <= s.len(),
        forall|k: int| 0 <= k < p ==> !spec_is_wspace(#[trigger] s[k]),
        p == s.len() || spec_is_wspace(s[p]),
    ensures
        token_len(s) == p,
    decreases s.len(),
{
    if p > 0 {
        lemma_token_len_exact(s.drop_first(), p - 1);
    }
}

/// Appending anything after a first whitespace character does not change
/// where the leading token ends.
pub proof fn lemma_token_len_concat(a: Seq<char>, b: Seq<char>)
    requires
        b.len() > 0,
        spec_is_wspace(b[0]),
    ensures
        token_len(a + b) == token_len(a),
    decreases a.len(),
{
    if a.len() == 0 {
        assert(a + b =~= b);
    } else if !spec_is_wspace(a[0]) {
        assert((a + b).drop_first() =~= a.drop_first() + b);
        lemma_token_len_concat(a.drop_first(), b);
    }
}

/// The tokens of `s`: its maximal whitespace-free runs, in order. Runs of
/// whitespace are collapsed, and leading or trailing whitespace is ignored.
pub open spec fn tokens_of(s: Seq<char>) -> Seq<Seq<char>>
    decreases s.len()
        via tokens_of_dec
{
    if s.len() == 0 {
        seq![]
    } else if spec_is_wspace(s[0]) {
        tokens_of(s.drop_first())
    } else {
        seq![s.take(token_len(s) as int)] + tokens_of(s.skip(token_len(s) as int))
    }
}

#[via_fn]
proof fn tokens_of_dec(s: Seq<char>) {
    if s.len() != 0 && !spec_is_wspace(s[0]) {
        lemma_token_len_le(s);
    }
}

/// A non-empty sequence without whitespace is one single token.
pub proof fn lemma_tokens_of_single(t: Seq<char>)
    requires
        t.len() >= 1,
        forall|k: int| 0 <= k < t.len() ==> !spec_is_wspace(#[trigger] t[k]),
    ensures
        tokens_of(t) == seq![t],
{
    lemma_token_len_exact(t, t.len() as int);
    assert(t.take(t.len() as int) =~= t);
    assert(t.skip(t.len() as int) =~= Seq::<char>::empty());
    assert(seq![t] + tokens_of(Seq::<char>::empty()) =~= seq![t]);
}

/// Appending a space and one more token to any input adds exactly that
/// token at the end of the token list.
pub proof fn lemma_tokens_of_append(a: Seq<char>, t: Seq<char>)
    requires
        t.len() >= 1,
        forall|k: int| 0 <= k < t.len() ==> !spec_is_wspace(#[trigger] t[k]),
    ensures
        tokens_of(a + seq![' '] + t) == tokens_of(a) + seq![t],
    decreases a.len(),
{
    let m = seq![' '] + t;
    assert(spec_is_wspace(m[0]));
    assert(a + seq![' '] + t =~= a + m);
    if a.len() == 0 {
        assert(a + m =~= m);
        assert(m.drop_first() =~= t);
        lemma_tokens_of_single(t);
        assert(tokens_of(a) + seq![t] =~= seq![t]);
    } else if spec_is_wspace(a[0]) {
        assert((a + m).drop_first() =~= a.drop_first() + seq![' '] + t);
        lemma_tokens_of_append(a.drop_first(), t);
    } else {
        lemma_token_len_concat(a, m);
        lemma_token_len_le(a);
        let n = token_len(a) as int;
        assert(token_len(a + m) == n);
        assert(1 <= n <= a.len());
        assert((a + m).take(n) =~= a.take(n));
        assert((a + m).skip(n) =~= a.skip(n) + seq![' '] + t);
        lemma_tokens_of_append(a.skip(n), t);
        assert(seq![a.take(n)] + (tokens_of(a.skip(n)) + seq![t]) =~= (seq![a.take(n)]
            + tokens_of(a.skip(n))) + seq![t]);
    }
}

/// Splits `chars` into its whitespace-delimited tokens.
pub fn tokenize(chars: &Vec<char>) -> (r: Vec<Vec<char>>)
    ensures
        r@.len() == tokens_of(chars@).len(),
        forall|i: int| 0 <= i < r@.len() ==> (#[trigger] r@[i])@ == tokens_of(chars@)[i],
{
    let n = chars.len();
    let mut r: Vec<Vec<char>> = Vec::new();
    let mut i: usize = 0;
    proof {
        assert(chars@.skip(0) =~= chars@);
        assert(r@.map_values(|t: Vec<char>| t@) + tokens_of(chars@) =~= tokens_of(chars@));
    }
    while i < n
        invariant
            n == chars@.len(),
            0 <= i <= n,
            tokens_of(chars@) == r@.map_values(|t: Vec<char>| t@) + tokens_of(
                chars@.skip(i as int),
            ),
        decreases n - i,
    {
        if is_wspace(chars[i]) {
            proof {
                assert(chars@.skip(i as int).drop_first() =~= chars@.skip(i as int + 1));
            }
            i += 1;
        } else {
            let start = i;
            let mut j = i;
            let mut tok: Vec<char> = Vec::new();
            while j < n && !is_wspace(chars[j])
                invariant
                    n == chars@.len(),
                    0 <= start <= j <= n,
                    start < n,
                    !spec_is_wspace(chars@[start as int]),
                    forall|k: int| start <= k < j ==> !spec_is_wspace(#[trigger] chars@[k]),
                    tok@ == chars@.subrange(start as int, j as int),
                decreases n - j,
            {
                tok.push(chars[j]);
                proof {
                    assert(tok@ =~= chars@.subrange(start as int, j as int + 1));
                }
                j += 1;
            }
            proof {
                let rest = chars@.skip(start as int);
                let p = j - start;
                assert(forall|k: int| 0 <= k < p ==> !spec_is_wspace(#[trigger] rest[k]));
                lemma_token_len_exact(rest, p);
                assert(rest.take(p) =~= chars@.subrange(start as int, j as int));
                assert(rest.skip(p) =~= chars@.skip(j as int));
                assert((r@ + seq![tok]).map_values(|t: Vec<char>| t@) =~= r@.map_values(
                    |t: Vec<char>| t@,
                ) + seq![tok@]);
                assert(tokens_of(rest) == seq![tok@] + tokens_of(chars@.skip(j as int)));
            }
            r.push(tok);
            i = j;
        }
    }
    proof {
        assert(chars@.skip(n as int) =~= Seq::<char>::empty());
        assert(r@.map_values(|t: Vec<char>| t@) + tokens_of(Seq::<char>::empty())
            =~= r@.map_values(|t: Vec<char>| t@));
    }
    r
}

} // verus!
