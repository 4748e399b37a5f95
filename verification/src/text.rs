//! Character-level text handling for the line protocol: conversion between
//! strings and character vectors, whitespace tokenisation, splitting on a
//! separator, trimming and prefix tests.
//!
//! Every contract is stated over `Seq<char>`, the view of a string.

use vstd::prelude::*;

verus! {

/// The characters that separate tokens: the Unicode `White_Space` set.
pub open spec fn is_space(c: char) -> bool {
    let u = c as u32;
    ||| 0x09 <= u <= 0x0D
    ||| u == 0x20
    ||| u == 0x85
    ||| u == 0xA0
    ||| u == 0x1680
    ||| 0x2000 <= u <= 0x200A
    ||| u == 0x2028
    ||| u == 0x2029
    ||| u == 0x202F
    ||| u == 0x205F
    ||| u == 0x3000
}

/// Executable test for [`is_space`].
pub fn space(c: char) -> (b: bool)
    ensures
        b == is_space(c),
{
    let u: u32 = c as u32;
    (0x09 <= u && u <= 0x0D) || u == 0x20 || u == 0x85 || u == 0xA0 || u == 0x1680 || (0x2000 <= u
        && u <= 0x200A) || u == 0x2028 || u == 0x2029 || u == 0x202F || u == 0x205F || u == 0x3000
}

/// `String::push` appends exactly one character to the end of the string.
#[verifier::external_body]
fn push_char(s: &mut String, c: char)
    ensures
        final(s)@ == old(s)@.push(c),
{
    s.push(c)
}

/// The characters of a string, in order.
pub fn chars_of(s: &str) -> (v: Vec<char>)
    ensures
        v@ == s@,
{
    let mut v: Vec<char> = Vec::new();
    for c in it: s.chars()
        invariant
            it.seq() == s@,
            v@ == it.seq().take(it.index() as int),
    {
        v.push(c);
    }
    v
}

/// The string made of the given characters, in order.
pub fn string_of(v: &[char]) -> (s: String)
    ensures
        s@ == v@,
{
    let mut s = String::new();
    let mut i: usize = 0;
    while i < v.len()
        invariant
            i <= v.len(),
            s@ == v@.take(i as int),
        decreases v.len() - i,
    {
        push_char(&mut s, v[i]);
        assert(v@.take(i as int).push(v@[i as int]) =~= v@.take(i + 1));
        i += 1;
    }
    assert(v@.take(v.len() as int) =~= v@);
    s
}

/// A copy of `v[from..to]`.
pub fn slice_of(v: &[char], from: usize, to: usize) -> (out: Vec<char>)
    requires
        from <= to <= v.len(),
    ensures
        out@ == v@.subrange(from as int, to as int),
{
    let mut out: Vec<char> = Vec::new();
    let mut i: usize = from;
    while i < to
        invariant
            from <= i <= to <= v.len(),
            out@ == v@.subrange(from as int, i as int),
        decreases to - i,
    {
        out.push(v[i]);
        assert(v@.subrange(from as int, i as int).push(v@[i as int]) =~= v@.subrange(
            from as int,
            i + 1,
        ));
        i += 1;
    }
    out
}

/// Whether two character sequences are the same.
pub fn same_chars(a: &[char], b: &[char]) -> (eq: bool)
    ensures
        eq == (a@ == b@),
{
    if a.len() != b.len() {
        return false;
    }
    let mut i: usize = 0;
    while i < a.len()
        invariant
            i <= a.len(),
            a.len() == b.len(),
            a@.take(i as int) == b@.take(i as int),
        decreases a.len() - i,
    {
        if a[i] != b[i] {
            return false;
        }
        assert(a@.take(i + 1) =~= a@.take(i as int).push(a@[i as int]));
        assert(b@.take(i + 1) =~= b@.take(i as int).push(b@[i as int]));
        i += 1;
    }
    assert(a@.take(a.len() as int) =~= a@);
    assert(b@.take(b.len() as int) =~= b@);
    true
}

/// Whether `s` begins with `prefix`.
pub fn starts_with(s: &[char], prefix: &[char]) -> (b: bool)
    ensures
        b == prefix@.is_prefix_of(s@),
{
    if prefix.len() > s.len() {
        return false;
    }
    let mut i: usize = 0;
    while i < prefix.len()
        invariant
            i <= prefix.len() <= s.len(),
            forall|k: int| 0 <= k < i ==> s@[k] == prefix@[k],
        decreases prefix.len() - i,
    {
        if s[i] != prefix[i] {
            return false;
        }
        i += 1;
    }
    assert(prefix@ =~= s@.subrange(0, prefix@.len() as int));
    true
}

/// The character sequences held by a vector of character vectors.
pub open spec fn texts(v: Seq<Vec<char>>) -> Seq<Seq<char>> {
    v.map_values(|x: Vec<char>| x@)
}

/// The whitespace-separated tokens of `s`: its maximal runs of characters
/// that are not [`is_space`], in order of appearance.
pub open spec fn tokens(s: Seq<char>) -> Seq<Seq<char>>
    decreases s.len(),
{
    if s.len() == 0 {
        Seq::empty()
    } else {
        let rest = tokens(s.drop_first());
        if is_space(s[0]) {
            rest
        } else if s.len() > 1 && !is_space(s[1]) && rest.len() > 0 {
            seq![seq![s[0]] + rest[0]] + rest.drop_first()
        } else {
            seq![seq![s[0]]] + rest
        }
    }
}

/// No character of `s` is whitespace.
pub open spec fn space_free(s: Seq<char>) -> bool {
    forall|i: int| 0 <= i < s.len() ==> !is_space(#[trigger] s[i])
}

/// A non-empty run without whitespace, followed by nothing or by whitespace,
/// is the first token of the text.
pub proof fn lemma_tokens_word(w: Seq<char>, rest: Seq<char>)
    requires
        w.len() > 0,
        space_free(w),
        rest.len() == 0 || is_space(rest[0]),
    ensures
        tokens(w + rest) == seq![w] + tokens(rest),
    decreases w.len(),
{
    let s = w + rest;
    assert(s[0] == w[0]);
    assert(s.drop_first() =~= w.drop_first() + rest);
    if w.len() == 1 {
        assert(w.drop_first() + rest =~= rest);
        assert(w =~= seq![s[0]]);
        if rest.len() > 0 {
            assert(s[1] == rest[0]);
        }
    } else {
        let w1 = w.drop_first();
        assert(space_free(w1)) by {
            assert forall|i: int| 0 <= i < w1.len() implies !is_space(#[trigger] w1[i]) by {
                assert(w1[i] == w[i + 1]);
            }
        }
        lemma_tokens_word(w1, rest);
        assert(s[1] == w[1]);
        let r = tokens(s.drop_first());
        assert(r == seq![w1] + tokens(rest));
        assert(r[0] == w1);
        assert(seq![s[0]] + w1 =~= w);
        assert(r.drop_first() =~= tokens(rest));
    }
}

/// Leading whitespace carries no token.
pub proof fn lemma_tokens_space(s: Seq<char>)
    requires
        s.len() > 0,
        is_space(s[0]),
    ensures
        tokens(s) == tokens(s.drop_first()),
{
}

/// Splits `s` into its whitespace-separated tokens.
pub fn split_whitespace(s: &[char]) -> (out: Vec<Vec<char>>)
    ensures
        texts(out@) == tokens(s@),
{
    let mut out: Vec<Vec<char>> = Vec::new();
    let n = s.len();
    let mut i: usize = 0;
    assert(s@.skip(0) =~= s@);
    assert(texts(out@) =~= Seq::<Seq<char>>::empty());
    while i < n
        invariant
            i <= n == s.len(),
            tokens(s@) == texts(out@) + tokens(s@.skip(i as int)),
        decreases n - i,
    {
        if space(s[i]) {
            proof {
                lemma_tokens_space(s@.skip(i as int));
                assert(s@.skip(i as int).drop_first() =~= s@.skip(i + 1));
            }
            i += 1;
        } else {
            let start = i;
            while i < n && !space(s[i])
                invariant
                    start <= i <= n == s.len(),
                    forall|k: int| start <= k < i ==> !is_space(s@[k]),
                decreases n - i,
            {
                i += 1;
            }
            let word = slice_of(s, start, i);
            proof {
                let w = s@.subrange(start as int, i as int);
                let rest = s@.skip(i as int);
                assert(s@.skip(start as int) =~= w + rest);
                lemma_tokens_word(w, rest);
                assert(texts(out@).push(word@) =~= texts(out@) + seq![w]);
                assert(texts(out@) + (seq![w] + tokens(rest)) =~= texts(out@).push(word@)
                    + tokens(rest));
            }
            let ghost before = texts(out@);
            out.push(word);
            assert(texts(out@) =~= before.push(word@));
        }
    }
    assert(s@.skip(n as int) =~= Seq::<char>::empty());
    assert(texts(out@) + Seq::<Seq<char>>::empty() =~= texts(out@));
    out
}

/// The position of the first occurrence of `c` in `s`, or the length of `s`
/// where there is none.
pub open spec fn find(s: Seq<char>, c: char) -> int
    decreases s.len(),
{
    if s.len() == 0 || s[0] == c {
        0
    } else {
        1 + find(s.drop_first(), c)
    }
}

/// [`find`] returns the first position that holds `c`.
pub proof fn lemma_find(s: Seq<char>, c: char, m: int)
    requires
        0 <= m <= s.len(),
        forall|k: int| 0 <= k < m ==> s[k] != c,
        m == s.len() || s[m] == c,
    ensures
        find(s, c) == m,
    decreases s.len(),
{
    if s.len() == 0 || s[0] == c {
    } else {
        let t = s.drop_first();
        assert forall|k: int| 0 <= k < m - 1 implies t[k] != c by {
            assert(t[k] == s[k + 1]);
        }
        lemma_find(t, c, m - 1);
    }
}

/// The position of the first occurrence of `c` at or after `from`, or the
/// length of `s` where there is none.
pub fn position(s: &[char], from: usize, c: char) -> (i: usize)
    requires
        from <= s.len(),
    ensures
        from <= i <= s.len(),
        i - from == find(s@.skip(from as int), c),
{
    let mut i: usize = from;
    while i < s.len() && s[i] != c
        invariant
            from <= i <= s.len(),
            forall|k: int| from <= k < i ==> s@[k] != c,
        decreases s.len() - i,
    {
        i += 1;
    }
    proof {
        lemma_find(s@.skip(from as int), c, i - from);
    }
    i
}

/// Appends the characters of `s` to `out`.
pub fn push_all(out: &mut Vec<char>, s: &[char])
    ensures
        final(out)@ == old(out)@ + s@,
{
    let mut i: usize = 0;
    assert(old(out)@ + s@.take(0) =~= old(out)@);
    while i < s.len()
        invariant
            i <= s.len(),
            out@ == old(out)@ + s@.take(i as int),
        decreases s.len() - i,
    {
        out.push(s[i]);
        assert(old(out)@ + s@.take(i + 1) =~= (old(out)@ + s@.take(i as int)).push(s@[i as int]));
        i += 1;
    }
    assert(s@.take(s.len() as int) =~= s@);
}

/// The characters of `a` followed by those of `b`.
pub fn concat(a: &[char], b: &[char]) -> (out: Vec<char>)
    ensures
        out@ == a@ + b@,
{
    let mut out: Vec<char> = Vec::new();
    push_all(&mut out, a);
    push_all(&mut out, b);
    assert(out@ =~= a@ + b@);
    out
}

/// The pieces of `s` between occurrences of `sep`. There is always at least
/// one piece; a text without `sep` is its own single piece.
pub open spec fn pieces(s: Seq<char>, sep: char) -> Seq<Seq<char>>
    decreases s.len(),
{
    let i = find(s, sep);
    if 0 <= i < s.len() {
        seq![s.take(i)] + pieces(s.skip(i + 1), sep)
    } else {
        seq![s]
    }
}

/// Splits `s` at every occurrence of `sep`.
pub fn split(s: &[char], sep: char) -> (out: Vec<Vec<char>>)
    ensures
        texts(out@) == pieces(s@, sep),
        out.len() >= 1,
{
    let mut out: Vec<Vec<char>> = Vec::new();
    let n = s.len();
    let mut start: usize = 0;
    let mut i: usize = 0;
    assert(s@.skip(0) =~= s@);
    assert(texts(out@) =~= Seq::<Seq<char>>::empty());
    while i < n
        invariant
            start <= i <= n == s.len(),
            forall|k: int| start <= k < i ==> s@[k] != sep,
            pieces(s@, sep) == texts(out@) + pieces(s@.skip(start as int), sep),
        decreases n - i,
    {
        if s[i] == sep {
            let piece = slice_of(s, start, i);
            proof {
                let t = s@.skip(start as int);
                lemma_find(t, sep, i - start);
                assert(t.take(i - start) =~= piece@);
                assert(t.skip(i - start + 1) =~= s@.skip(i + 1));
                assert(texts(out@) + (seq![piece@] + pieces(s@.skip(i + 1), sep))
                    =~= texts(out@).push(piece@) + pieces(s@.skip(i + 1), sep));
            }
            let ghost before = texts(out@);
            out.push(piece);
            assert(texts(out@) =~= before.push(piece@));
            start = i + 1;
        }
        i += 1;
    }
    let piece = slice_of(s, start, n);
    proof {
        let t = s@.skip(start as int);
        lemma_find(t, sep, n - start);
        assert(t =~= piece@);
        assert(texts(out@) + seq![piece@] =~= texts(out@).push(piece@));
    }
    let ghost before = texts(out@);
    out.push(piece);
    assert(texts(out@) =~= before.push(piece@));
    out
}

/// Number of leading whitespace characters of `s`.
pub open spec fn leading_spaces(s: Seq<char>) -> int
    decreases s.len(),
{
    if s.len() > 0 && is_space(s[0]) {
        1 + leading_spaces(s.drop_first())
    } else {
        0
    }
}

/// Number of trailing whitespace characters of `s`.
pub open spec fn trailing_spaces(s: Seq<char>) -> int
    decreases s.len(),
{
    if s.len() > 0 && is_space(s.last()) {
        1 + trailing_spaces(s.drop_last())
    } else {
        0
    }
}

/// `s` without its leading and trailing whitespace.
pub open spec fn trimmed(s: Seq<char>) -> Seq<char> {
    let t = s.skip(leading_spaces(s));
    t.take(t.len() - trailing_spaces(t))
}

proof fn lemma_leading_spaces(s: Seq<char>, m: int)
    requires
        0 <= m <= s.len(),
        forall|k: int| 0 <= k < m ==> is_space(s[k]),
        m == s.len() || !is_space(s[m]),
    ensures
        leading_spaces(s) == m,
    decreases s.len(),
{
    if s.len() > 0 && is_space(s[0]) {
        let t = s.drop_first();
        assert forall|k: int| 0 <= k < m - 1 implies is_space(t[k]) by {
            assert(t[k] == s[k + 1]);
        }
        lemma_leading_spaces(t, m - 1);
    }
}

proof fn lemma_trailing_spaces(s: Seq<char>, m: int)
    requires
        0 <= m <= s.len(),
        forall|k: int| s.len() - m <= k < s.len() ==> is_space(s[k]),
        m == s.len() || !is_space(s[s.len() - m - 1]),
    ensures
        trailing_spaces(s) == m,
    decreases s.len(),
{
    if s.len() > 0 && is_space(s.last()) {
        let t = s.drop_last();
        assert forall|k: int| t.len() - (m - 1) <= k < t.len() implies is_space(t[k]) by {
            assert(t[k] == s[k]);
        }
        lemma_trailing_spaces(t, m - 1);
    }
}

/// Removes leading and trailing whitespace.
pub fn trim(s: &[char]) -> (out: Vec<char>)
    ensures
        out@ == trimmed(s@),
{
    let n = s.len();
    let mut a: usize = 0;
    while a < n && space(s[a])
        invariant
            a <= n == s.len(),
            forall|k: int| 0 <= k < a ==> is_space(s@[k]),
        decreases n - a,
    {
        a += 1;
    }
    let mut b: usize = n;
    while b > a && space(s[b - 1])
        invariant
            a <= b <= n == s.len(),
            forall|k: int| b <= k < n ==> is_space(s@[k]),
        decreases b,
    {
        b -= 1;
    }
    proof {
        lemma_leading_spaces(s@, a as int);
        let t = s@.skip(a as int);
        assert forall|k: int| t.len() - (n - b) <= k < t.len() implies is_space(t[k]) by {
            assert(t[k] == s@[k + a]);
        }
        lemma_trailing_spaces(t, n - b);
        assert(t.take(t.len() - (n - b)) =~= s@.subrange(a as int, b as int));
    }
    slice_of(s, a, b)
}

} // verus!
