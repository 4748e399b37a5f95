//! Numbers as they are written in the protocol.
//!
//! Integers are read and written in decimal. Real quantities (coordinates,
//! widths, angles, easing factors) are kept as validated literals: the library
//! decides whether a token is a number and carries its text; evaluating the
//! literal is left to whoever renders the scene.

use vstd::prelude::*;
use crate::text::{chars_of, string_of};

verus! {

/// An ASCII decimal digit.
pub open spec fn is_digit(c: char) -> bool {
    '0' <= c <= '9'
}

/// The value of a decimal digit.
pub open spec fn digit_value(c: char) -> nat
    recommends
        is_digit(c),
{
    (c as u32 - '0' as u32) as nat
}

/// Every character of `s` is a decimal digit.
pub open spec fn all_digits(s: Seq<char>) -> bool {
    forall|i: int| 0 <= i < s.len() ==> is_digit(#[trigger] s[i])
}

/// The number that a string of decimal digits denotes, most significant
/// digit first.
pub open spec fn decimal_value(s: Seq<char>) -> nat
    decreases s.len(),
{
    if s.len() == 0 {
        0
    } else {
        decimal_value(s.drop_last()) * 10 + digit_value(s.last())
    }
}

/// A non-empty string of digits read as a natural number.
pub open spec fn parse_nat(s: Seq<char>) -> Option<nat> {
    if s.len() > 0 && all_digits(s) {
        Some(decimal_value(s))
    } else {
        None
    }
}

/// An unsigned integer of at most `max`: an optional `+`, then digits.
pub open spec fn parse_unsigned(s: Seq<char>, max: nat) -> Option<nat> {
    let body = if s.len() > 0 && s[0] == '+' {
        s.skip(1)
    } else {
        s
    };
    match parse_nat(body) {
        Some(v) => if v <= max {
            Some(v)
        } else {
            None
        },
        None => None,
    }
}

/// A signed 32-bit integer: an optional `+` or `-`, then digits, the value
/// within the range of `i32`.
pub open spec fn parse_i32(s: Seq<char>) -> Option<i32> {
    if s.len() > 0 && s[0] == '-' {
        match parse_nat(s.skip(1)) {
            Some(v) => if v <= 0x8000_0000 {
                Some((-(v as int)) as i32)
            } else {
                None
            },
            None => None,
        }
    } else {
        match parse_unsigned(s, 0x7fff_ffff) {
            Some(v) => Some(v as i32),
            None => None,
        }
    }
}

/// A prefix of a digit string denotes no more than the whole string.
proof fn lemma_prefix_value(s: Seq<char>, k: int)
    requires
        0 <= k <= s.len(),
    ensures
        decimal_value(s.take(k)) <= decimal_value(s),
    decreases s.len() - k,
{
    if k == s.len() {
        assert(s.take(k) =~= s);
    } else {
        lemma_prefix_value(s.drop_last(), k);
        assert(s.drop_last().take(k) =~= s.take(k));
    }
}

/// Reads `s[from..]` as a non-empty string of digits denoting at most `max`.
fn read_digits(s: &[char], from: usize, max: u64) -> (r: Option<u64>)
    requires
        from <= s.len(),
    ensures
        match parse_nat(s@.skip(from as int)) {
            Some(v) => if v <= max {
                r == Some(v as u64)
            } else {
                r is None
            },
            None => r is None,
        },
{
    let n = s.len();
    let ghost body = s@.skip(from as int);
    if from == n {
        return None;
    }
    let mut acc: u64 = 0;
    let mut i: usize = from;
    assert(body.take(0) =~= Seq::<char>::empty());
    while i < n
        invariant
            from <= i <= n == s.len(),
            body == s@.skip(from as int),
            all_digits(body.take(i - from)),
            acc == decimal_value(body.take(i - from)),
            acc <= max,
        decreases n - i,
    {
        let c = s[i];
        assert(body[i - from] == c);
        if !('0' <= c && c <= '9') {
            return None;
        }
        let d: u64 = (c as u32 - '0' as u32) as u64;
        proof {
            let t = body.take(i - from + 1);
            assert(t.drop_last() =~= body.take(i - from));
            assert(t.last() == c);
            lemma_prefix_value(body, i - from + 1);
            assert(all_digits(t)) by {
                assert forall|k: int| 0 <= k < t.len() implies is_digit(#[trigger] t[k]) by {
                    if k < i - from {
                        assert(body.take(i - from)[k] == t[k]);
                    }
                }
            }
            if !all_digits(body) {
                assert(parse_nat(body) is None);
            }
        }
        if acc > max / 10 {
            return None;
        }
        let shifted = acc * 10;
        if d > max - shifted {
            return None;
        }
        acc = shifted + d;
        i += 1;
    }
    assert(body.take(n - from) =~= body);
    Some(acc)
}

/// Parses an unsigned decimal integer of at most `max`.
pub fn unsigned_from(s: &[char], max: u64) -> (r: Option<u64>)
    ensures
        match parse_unsigned(s@, max as nat) {
            Some(v) => r == Some(v as u64),
            None => r is None,
        },
{
    if s.len() > 0 && s[0] == '+' {
        read_digits(s, 1, max)
    } else {
        assert(s@.skip(0) =~= s@);
        read_digits(s, 0, max)
    }
}

/// Parses a `u8` written in decimal.
pub fn u8_from(s: &[char]) -> (r: Option<u8>)
    ensures
        match parse_unsigned(s@, 255) {
            Some(v) => r == Some(v as u8),
            None => r is None,
        },
{
    match unsigned_from(s, 255) {
        Some(v) => Some(v as u8),
        None => None,
    }
}

/// Parses a `usize` written in decimal.
pub fn usize_from(s: &[char]) -> (r: Option<usize>)
    ensures
        match parse_unsigned(s@, usize::MAX as nat) {
            Some(v) => r == Some(v as usize),
            None => r is None,
        },
{
    match unsigned_from(s, usize::MAX as u64) {
        Some(v) => Some(v as usize),
        None => None,
    }
}

/// Parses an `i32` written in decimal.
pub fn i32_from(s: &[char]) -> (r: Option<i32>)
    ensures
        r == parse_i32(s@),
{
    if s.len() > 0 && s[0] == '-' {
        match read_digits(s, 1, 0x8000_0000) {
            Some(v) => {
                let wide: i64 = -(v as i64);
                Some(wide as i32)
            },
            None => None,
        }
    } else {
        match unsigned_from(s, 0x7fff_ffff) {
            Some(v) => Some(v as i32),
            None => None,
        }
    }
}

/// The character of a decimal digit.
pub open spec fn digit_char(d: nat) -> char
    recommends
        d < 10,
{
    (('0' as u32 + d) as u8) as char
}

/// `n` written in decimal, without leading zeros.
pub open spec fn decimal(n: nat) -> Seq<char>
    decreases n,
{
    if n < 10 {
        seq![digit_char(n)]
    } else {
        decimal(n / 10).push(digit_char(n % 10))
    }
}

/// Reading what [`decimal`] wrote gives the number back.
pub proof fn lemma_decimal_round_trip(n: nat)
    ensures
        decimal(n).len() > 0,
        all_digits(decimal(n)),
        decimal_value(decimal(n)) == n,
    decreases n,
{
    if n < 10 {
        let s = decimal(n);
        assert(s.drop_last() =~= Seq::<char>::empty());
        assert(decimal_value(s.drop_last()) == 0);
    } else {
        lemma_decimal_round_trip(n / 10);
        let s = decimal(n);
        assert(s.drop_last() =~= decimal(n / 10));
        assert(s.last() == digit_char(n % 10));
    }
}

/// Appends `n` in decimal to `out`.
pub fn push_decimal(out: &mut Vec<char>, n: u64)
    ensures
        final(out)@ == old(out)@ + decimal(n as nat),
    decreases n,
{
    if n >= 10 {
        push_decimal(out, n / 10);
    }
    let d: u8 = (n % 10) as u8;
    out.push((48u8 + d) as char);
    proof {
        if n < 10 {
            assert(old(out)@.push(digit_char(n as nat)) =~= old(out)@ + decimal(n as nat));
        } else {
            assert((old(out)@ + decimal((n / 10) as nat)).push(digit_char((n % 10) as nat))
                =~= old(out)@ + decimal(n as nat));
        }
    }
}

/// A signed integer written in decimal: a `-` before a negative one.
pub open spec fn signed_decimal(n: int) -> Seq<char> {
    if n < 0 {
        seq!['-'] + decimal((-n) as nat)
    } else {
        decimal(n as nat)
    }
}

/// Appends `n` in decimal to `out`.
pub fn push_signed(out: &mut Vec<char>, n: i32)
    ensures
        final(out)@ == old(out)@ + signed_decimal(n as int),
{
    if n < 0 {
        out.push('-');
        let magnitude: u64 = (-(n as i64)) as u64;
        push_decimal(out, magnitude);
        assert(old(out)@.push('-') + decimal(magnitude as nat) =~= old(out)@ + (seq!['-']
            + decimal((-n) as nat)));
    } else {
        push_decimal(out, n as u64);
    }
}

/// The end of the run of digits that starts at `i`.
pub open spec fn digit_run(s: Seq<char>, i: int) -> int
    decreases s.len() - i,
{
    if 0 <= i < s.len() && is_digit(s[i]) {
        digit_run(s, i + 1)
    } else {
        i
    }
}

/// An exponent part starting at `b`: `e` or `E`, an optional sign, then one
/// or more digits up to the end of the text.
pub open spec fn exponent_at(s: Seq<char>, b: int) -> bool {
    &&& 0 <= b < s.len()
    &&& (s[b] == 'e' || s[b] == 'E')
    &&& {
        let c = if b + 1 < s.len() && (s[b + 1] == '+' || s[b + 1] == '-') {
            b + 2
        } else {
            b + 1
        };
        c < s.len() && digit_run(s, c) == s.len()
    }
}

/// An unsigned decimal literal: digits with at most one `.` among them, at
/// least one digit in all, then an optional exponent.
pub open spec fn is_decimal(s: Seq<char>) -> bool {
    let a = digit_run(s, 0);
    let dot = a < s.len() && s[a] == '.';
    let b = if dot {
        digit_run(s, a + 1)
    } else {
        a
    };
    let digits = if dot {
        b - 1
    } else {
        a
    };
    digits > 0 && (b == s.len() || exponent_at(s, b))
}

/// An ASCII letter in lower case; any other character unchanged.
pub open spec fn lower(c: char) -> char {
    if 'A' <= c <= 'Z' {
        ((c as u32 + 32) as u8) as char
    } else {
        c
    }
}

/// `s` spells `word`, upper and lower case letters taken as the same.
pub open spec fn spells(s: Seq<char>, word: Seq<char>) -> bool {
    s.len() == word.len() && forall|i: int| 0 <= i < s.len() ==> lower(s[i]) == word[i]
}

/// One of the words for the infinite and undefined values.
pub open spec fn is_special(s: Seq<char>) -> bool {
    ||| spells(s, seq!['i', 'n', 'f'])
    ||| spells(s, seq!['n', 'a', 'n'])
    ||| spells(s, seq!['i', 'n', 'f', 'i', 'n', 'i', 't', 'y'])
}

/// The literals that denote a real number: an optional sign, then a decimal
/// literal or one of `inf`, `infinity`, `nan` in any case. No whitespace.
pub open spec fn is_number(s: Seq<char>) -> bool {
    let body = if s.len() > 0 && (s[0] == '+' || s[0] == '-') {
        s.skip(1)
    } else {
        s
    };
    is_decimal(body) || is_special(body)
}

fn scan_digits(s: &[char], i: usize) -> (j: usize)
    requires
        i <= s.len(),
    ensures
        i <= j <= s.len(),
        j == digit_run(s@, i as int),
{
    let mut j = i;
    while j < s.len() && '0' <= s[j] && s[j] <= '9'
        invariant
            i <= j <= s.len(),
            digit_run(s@, i as int) == digit_run(s@, j as int),
        decreases s.len() - j,
    {
        j += 1;
    }
    j
}

fn lower_of(c: char) -> (l: char)
    ensures
        l == lower(c),
{
    if 'A' <= c && c <= 'Z' {
        ((c as u32 + 32) as u8) as char
    } else {
        c
    }
}

fn spells_word(s: &[char], word: &[char]) -> (b: bool)
    ensures
        b == spells(s@, word@),
{
    if s.len() != word.len() {
        return false;
    }
    let mut i: usize = 0;
    while i < s.len()
        invariant
            i <= s.len() == word.len(),
            forall|k: int| 0 <= k < i ==> lower(s@[k]) == word@[k],
        decreases s.len() - i,
    {
        if lower_of(s[i]) != word[i] {
            return false;
        }
        i += 1;
    }
    true
}

fn decimal_literal(s: &[char]) -> (b: bool)
    ensures
        b == is_decimal(s@),
{
    let n = s.len();
    let a = scan_digits(s, 0);
    let dot = a < n && s[a] == '.';
    let b = if dot {
        scan_digits(s, a + 1)
    } else {
        a
    };
    let digits = if dot {
        b - 1
    } else {
        a
    };
    if digits == 0 {
        return false;
    }
    if b == n {
        return true;
    }
    if !(s[b] == 'e' || s[b] == 'E') {
        return false;
    }
    let c = if b + 1 < n && (s[b + 1] == '+' || s[b + 1] == '-') {
        b + 2
    } else {
        b + 1
    };
    if c >= n {
        return false;
    }
    scan_digits(s, c) == n
}

/// Whether `s` is a number literal.
pub fn number(s: &[char]) -> (b: bool)
    ensures
        b == is_number(s@),
{
    let body = if s.len() > 0 && (s[0] == '+' || s[0] == '-') {
        crate::text::slice_of(s, 1, s.len())
    } else {
        crate::text::slice_of(s, 0, s.len())
    };
    assert(s@.skip(0) =~= s@);
    assert(s@.subrange(0, s@.len() as int) =~= s@);
    if decimal_literal(body.as_slice()) {
        return true;
    }
    let inf = ['i', 'n', 'f'];
    let nan = ['n', 'a', 'n'];
    let infinity = ['i', 'n', 'f', 'i', 'n', 'i', 't', 'y'];
    assert(inf@ =~= seq!['i', 'n', 'f']);
    assert(nan@ =~= seq!['n', 'a', 'n']);
    assert(infinity@ =~= seq!['i', 'n', 'f', 'i', 'n', 'i', 't', 'y']);
    spells_word(body.as_slice(), &inf) || spells_word(body.as_slice(), &nan) || spells_word(
        body.as_slice(),
        &infinity,
    )
}

/// A real quantity of the protocol, held as the literal that denotes it.
pub struct Scalar {
    text: String,
}

impl View for Scalar {
    type V = Seq<char>;

    closed spec fn view(&self) -> Seq<char> {
        self.text@
    }
}

impl Scalar {
    #[verifier::type_invariant]
    spec fn literal(self) -> bool {
        is_number(self.text@)
    }

    /// Accepts `s` if and only if it is a number literal.
    pub fn parse(s: &str) -> (r: Option<Scalar>)
        ensures
            r is Some <==> is_number(s@),
            r is Some ==> r.unwrap()@ == s@,
    {
        let chars = chars_of(s);
        Scalar::from_chars(chars.as_slice())
    }

    /// Accepts `s` if and only if it is a number literal.
    pub fn from_chars(s: &[char]) -> (r: Option<Scalar>)
        ensures
            r is Some <==> is_number(s@),
            r is Some ==> r.unwrap()@ == s@,
    {
        if number(s) {
            Some(Scalar { text: string_of(s) })
        } else {
            None
        }
    }

    /// The literal, which is always a number literal.
    pub fn as_str(&self) -> (s: &str)
        ensures
            s@ == self@,
            is_number(s@),
    {
        proof {
            use_type_invariant(self);
        }
        self.text.as_str()
    }

    /// The literal `0`.
    pub fn zero() -> (z: Scalar)
        ensures
            z@ == seq!['0'],
    {
        let digits = ['0'];
        assert(digits@ =~= seq!['0']);
        proof {
            lemma_small_literal(digits@);
        }
        Scalar { text: string_of(&digits) }
    }

    /// The literal `1`.
    pub fn one() -> (z: Scalar)
        ensures
            z@ == seq!['1'],
    {
        let digits = ['1'];
        assert(digits@ =~= seq!['1']);
        proof {
            lemma_small_literal(digits@);
        }
        Scalar { text: string_of(&digits) }
    }
}

impl Clone for Scalar {
    fn clone(&self) -> (c: Scalar)
        ensures
            c@ == self@,
    {
        proof {
            use_type_invariant(self);
        }
        Scalar { text: self.text.clone() }
    }
}

/// A single digit is a number literal.
proof fn lemma_small_literal(s: Seq<char>)
    requires
        s.len() == 1,
        is_digit(s[0]),
    ensures
        is_number(s),
{
    assert(digit_run(s, 1) == 1);
    assert(digit_run(s, 0) == 1);
    assert(is_decimal(s));
}

} // verus!
