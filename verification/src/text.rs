//! Text handling: strings are viewed as `Seq<char>`.  This module holds the
//! standard-library string operations the programmer relies on, each with the
//! behaviour its documentation gives, and the decimal / hexadecimal rendering
//! and lexicographic comparison the library proves itself.

use vstd::prelude::*;

verus! {

// ---------------------------------------------------------------------------
// Character classes
// ---------------------------------------------------------------------------

/// Lower-cases one ASCII letter; every other character is unchanged.
pub open spec fn ascii_lower(c: char) -> char {
    if 'A' <= c && c <= 'Z' {
        ((c as u32) + 32) as char
    } else {
        c
    }
}

/// The ASCII-lowercase image of a character sequence.
pub open spec fn lower_seq(s: Seq<char>) -> Seq<char> {
    s.map_values(|c: char| ascii_lower(c))
}

/// The Unicode `White_Space` characters, as listed by `char::is_whitespace`.
pub open spec fn is_white_space(c: char) -> bool {
    let u = c as u32;
    ||| 0x09 <= u <= 0x0d
    ||| u == 0x20
    ||| u == 0x85
    ||| u == 0xa0
    ||| u == 0x1680
    ||| 0x2000 <= u <= 0x200a
    ||| u == 0x2028
    ||| u == 0x2029
    ||| u == 0x202f
    ||| u == 0x205f
    ||| u == 0x3000
}

// ---------------------------------------------------------------------------
// Trimming, prefixes, substrings
// ---------------------------------------------------------------------------

/// `s` without its leading whitespace.
pub open spec fn trim_start_ws(s: Seq<char>) -> Seq<char>
    decreases s.len(),
{
    if s.len() > 0 && is_white_space(s[0]) {
        trim_start_ws(s.drop_first())
    } else {
        s
    }
}

/// `s` without its trailing whitespace.
pub open spec fn trim_end_ws(s: Seq<char>) -> Seq<char>
    decreases s.len(),
{
    if s.len() > 0 && is_white_space(s.last()) {
        trim_end_ws(s.drop_last())
    } else {
        s
    }
}

/// `s` without leading and trailing whitespace.
pub open spec fn trim_ws(s: Seq<char>) -> Seq<char> {
    trim_end_ws(trim_start_ws(s))
}

/// `s` without its leading copies of `c`.
pub open spec fn trim_start_char(s: Seq<char>, c: char) -> Seq<char>
    decreases s.len(),
{
    if s.len() > 0 && s[0] == c {
        trim_start_char(s.drop_first(), c)
    } else {
        s
    }
}

/// `s` without its trailing copies of `c`.
pub open spec fn trim_end_char(s: Seq<char>, c: char) -> Seq<char>
    decreases s.len(),
{
    if s.len() > 0 && s.last() == c {
        trim_end_char(s.drop_last(), c)
    } else {
        s
    }
}

/// `s` without leading and trailing copies of `c`.
pub open spec fn trim_char(s: Seq<char>, c: char) -> Seq<char> {
    trim_end_char(trim_start_char(s, c), c)
}

/// `p` is a prefix of `s`.
pub open spec fn has_prefix(s: Seq<char>, p: Seq<char>) -> bool {
    p.len() <= s.len() && s.take(p.len() as int) == p
}

/// `p` occurs in `s` as a contiguous block.
pub open spec fn has_infix(s: Seq<char>, p: Seq<char>) -> bool {
    exists|i: int| 0 <= i && i + p.len() <= s.len() && #[trigger] s.subrange(i, i + p.len()) == p
}

/// `str::to_ascii_lowercase`.
///
/// Its documentation: each ASCII letter 'A'..='Z' becomes 'a'..='z', every
/// other character is unchanged.
#[verifier::external_body]
pub(crate) fn to_ascii_lowercase(s: &str) -> (r: String)
    ensures
        r@ == lower_seq(s@),
{
    s.to_ascii_lowercase()
}

/// `str::eq_ignore_ascii_case`.
///
/// Its documentation: the same as comparing the ASCII-lowercase images of both
/// strings.
#[verifier::external_body]
pub(crate) fn eq_ignore_ascii_case(a: &str, b: &str) -> (r: bool)
    ensures
        r == (lower_seq(a@) == lower_seq(b@)),
{
    a.eq_ignore_ascii_case(b)
}

/// `str::trim`.
///
/// Its documentation: leading and trailing Unicode `White_Space` removed.
#[verifier::external_body]
pub(crate) fn trim(s: &str) -> (r: &str)
    ensures
        r@ == trim_ws(s@),
{
    s.trim()
}

/// `str::trim_matches` with a single character as the pattern.
///
/// Its documentation: every leading and every trailing copy of the character
/// removed.
#[verifier::external_body]
pub(crate) fn trim_matches(s: &str, c: char) -> (r: &str)
    ensures
        r@ == trim_char(s@, c),
{
    s.trim_matches(c)
}

/// `str::strip_prefix` with a string as the pattern.
///
/// Its documentation: the rest of `s` after `p` when `s` starts with `p`,
/// otherwise `None`.
#[verifier::external_body]
pub(crate) fn strip_prefix<'a>(s: &'a str, p: &str) -> (r: Option<&'a str>)
    ensures
        r is Some <==> has_prefix(s@, p@),
        r is Some ==> r->0@ == s@.skip(p@.len() as int),
{
    s.strip_prefix(p)
}

/// `str::contains` with a string as the pattern.
///
/// Its documentation: whether `p` occurs in `s`.
#[verifier::external_body]
pub(crate) fn contains(s: &str, p: &str) -> (r: bool)
    ensures
        r == has_infix(s@, p@),
{
    s.contains(p)
}

/// `str::starts_with` with a single character as the pattern.
#[verifier::external_body]
pub(crate) fn starts_with_char(s: &str, c: char) -> (r: bool)
    ensures
        r == (s@.len() > 0 && s@[0] == c),
{
    s.starts_with(c)
}

/// `PartialEq` for `str`: equal exactly when the characters are.
#[verifier::external_body]
pub(crate) fn str_eq(a: &str, b: &str) -> (r: bool)
    ensures
        r == (a@ == b@),
{
    a == b
}

/// `String::push`: appends one character.
#[verifier::external_body]
pub(crate) fn push_char(s: &mut String, c: char)
    ensures
        final(s)@ == old(s)@.push(c),
{
    s.push(c)
}

/// `String::push_str`: appends a string.
#[verifier::external_body]
pub(crate) fn push_str(s: &mut String, t: &str)
    ensures
        final(s)@ == old(s)@ + t@,
{
    s.push_str(t)
}

/// The characters of a string, in order.
pub fn chars_of(s: &str) -> (v: Vec<char>)
    ensures
        v@ == s@,
{
    let mut v: Vec<char> = Vec::new();
    for c in it: s.chars()
        invariant
            it.seq() == s@,
            v@ == it.seq().take(it.index()),
    {
        v.push(c);
    }
    v
}


// ---------------------------------------------------------------------------
// Unsigned integers: text to number
// ---------------------------------------------------------------------------

/// The value of `c` as a digit in `radix`, or `radix` itself when `c` is not
/// such a digit (`0-9`, then `a-z` or `A-Z` for ten and up).
pub open spec fn digit_value(c: char, radix: nat) -> nat {
    let u = c as u32;
    let v: nat = if 48 <= u <= 57 {
        (u - 48) as nat
    } else if 97 <= u <= 122 {
        (u - 87) as nat
    } else if 65 <= u <= 90 {
        (u - 55) as nat
    } else {
        radix
    };
    if v < radix {
        v
    } else {
        radix
    }
}

/// Every character of `s` is a digit in `radix`.
pub open spec fn all_digits(s: Seq<char>, radix: nat) -> bool {
    forall|i: int| 0 <= i < s.len() ==> #[trigger] digit_value(s[i], radix) < radix
}

/// The number that the digits `s` denote in `radix`, most significant first.
pub open spec fn digits_value(s: Seq<char>, radix: nat) -> nat
    decreases s.len(),
{
    if s.len() == 0 {
        0
    } else {
        digits_value(s.drop_last(), radix) * radix + digit_value(s.last(), radix)
    }
}

/// What the standard library's unsigned parsers accept: an optional `+`
/// followed by at least one digit in `radix`, denoting a value at most `max`.
pub open spec fn parse_unsigned(s: Seq<char>, radix: nat, max: nat) -> Option<nat> {
    let body = if s.len() > 0 && s[0] == '+' {
        s.drop_first()
    } else {
        s
    };
    if body.len() > 0 && all_digits(body, radix) && digits_value(body, radix) <= max {
        Some(digits_value(body, radix))
    } else {
        None
    }
}

/// An optional machine integer seen as an optional natural number.
pub open spec fn opt_u64_nat(r: Option<u64>) -> Option<nat> {
    match r {
        Some(v) => Some(v as nat),
        None => None,
    }
}

/// An optional machine integer seen as an optional natural number.
pub open spec fn opt_u32_nat(r: Option<u32>) -> Option<nat> {
    match r {
        Some(v) => Some(v as nat),
        None => None,
    }
}

/// An optional machine integer seen as an optional natural number.
pub open spec fn opt_usize_nat(r: Option<usize>) -> Option<nat> {
    match r {
        Some(v) => Some(v as nat),
        None => None,
    }
}

/// `u64::from_str_radix`.
///
/// Its documentation: an optional `+` and then only digits of the radix
/// (`0-9`, `a-z`, `A-Z`); anything else, an empty digit string or a value
/// above `u64::MAX` is an error.  It panics for a radix outside 2..=36.
#[verifier::external_body]
pub(crate) fn u64_from_str_radix(s: &str, radix: u32) -> (r: Option<u64>)
    requires
        2 <= radix <= 36,
    ensures
        opt_u64_nat(r) == parse_unsigned(s@, radix as nat, u64::MAX as nat),
{
    u64::from_str_radix(s, radix).ok()
}

/// `str::parse::<u64>` (`FromStr for u64`): the decimal case of
/// `u64::from_str_radix`.
#[verifier::external_body]
pub(crate) fn parse_u64(s: &str) -> (r: Option<u64>)
    ensures
        opt_u64_nat(r) == parse_unsigned(s@, 10, u64::MAX as nat),
{
    s.parse::<u64>().ok()
}

/// `str::parse::<u32>` (`FromStr for u32`): decimal digits after an optional
/// `+`, at most `u32::MAX`.
#[verifier::external_body]
pub(crate) fn parse_u32(s: &str) -> (r: Option<u32>)
    ensures
        opt_u32_nat(r) == parse_unsigned(s@, 10, u32::MAX as nat),
{
    s.parse::<u32>().ok()
}

/// `str::parse::<usize>` (`FromStr for usize`): decimal digits after an
/// optional `+`, at most `usize::MAX`.
#[verifier::external_body]
pub(crate) fn parse_usize(s: &str) -> (r: Option<usize>)
    ensures
        opt_usize_nat(r) == parse_unsigned(s@, 10, usize::MAX as nat),
{
    s.parse::<usize>().ok()
}

// ---------------------------------------------------------------------------
// Numbers to text
// ---------------------------------------------------------------------------

/// The character of a digit value below sixteen (lowercase for ten and up).
pub open spec fn hex_digit_char(d: nat) -> char {
    if d < 10 {
        ((d + 48) as u32) as char
    } else {
        ((d + 87) as u32) as char
    }
}

/// The digits of `n` in `radix` (at most sixteen), most significant first,
/// without leading zeros (lowercase letters for ten and up).
pub open spec fn digits_in(n: nat, radix: nat) -> Seq<char>
    decreases n,
{
    if n < radix || radix < 2 {
        seq![hex_digit_char(n)]
    } else {
        proof {
            vstd::arithmetic::div_mod::lemma_div_decreases(n as int, radix as int);
        }
        digits_in(n / radix, radix).push(hex_digit_char(n % radix))
    }
}

/// The decimal rendering of `n`, without leading zeros.
pub open spec fn decimal(n: nat) -> Seq<char> {
    digits_in(n, 10)
}

/// Four lowercase hexadecimal digits of a 16-bit value, zero-padded.
pub open spec fn hex4(n: nat) -> Seq<char> {
    seq![
        hex_digit_char((n / 4096) % 16),
        hex_digit_char((n / 256) % 16),
        hex_digit_char((n / 16) % 16),
        hex_digit_char(n % 16),
    ]
}

fn hex_digit(d: u64) -> (c: char)
    requires
        d < 16,
    ensures
        c == hex_digit_char(d as nat),
{
    if d < 10 {
        ((d as u8) + 48) as char
    } else {
        ((d as u8) + 87) as char
    }
}

/// Appends the decimal rendering of `n` to `out`.
pub fn push_decimal(out: &mut String, n: u64)
    ensures
        final(out)@ == old(out)@ + decimal(n as nat),
    decreases n,
{
    if n < 10 {
        push_char(out, hex_digit(n));
        assert(decimal(n as nat) == seq![hex_digit_char(n as nat)]);
    } else {
        push_decimal(out, n / 10);
        push_char(out, hex_digit(n % 10));
        assert(decimal(n as nat) == decimal((n / 10) as nat).push(hex_digit_char((n % 10) as nat)));
    }
}

/// The decimal rendering of `n` (what `to_string` gives for an integer).
pub fn decimal_string(n: u64) -> (r: String)
    ensures
        r@ == decimal(n as nat),
{
    let mut s = String::new();
    push_decimal(&mut s, n);
    assert(s@ =~= decimal(n as nat));
    s
}

/// Appends `{:04x}` of a 16-bit value to `out`.
pub fn push_hex4(out: &mut String, n: u16)
    ensures
        final(out)@ == old(out)@ + hex4(n as nat),
{
    let v = n as u64;
    push_char(out, hex_digit((v / 4096) % 16));
    push_char(out, hex_digit((v / 256) % 16));
    push_char(out, hex_digit((v / 16) % 16));
    push_char(out, hex_digit(v % 16));
    assert(final(out)@ =~= old(out)@ + hex4(n as nat));
}

/// A digit character reads back as its value.
pub proof fn lemma_digit_char_value(d: nat, radix: nat)
    requires
        d < radix <= 16,
    ensures
        digit_value(hex_digit_char(d), radix) == d,
        !is_white_space(hex_digit_char(d)),
        hex_digit_char(d) != '+',
{
    let c = hex_digit_char(d);
    if d < 10 {
        assert((c as u32) == d + 48);
    } else {
        assert((c as u32) == d + 87);
    }
}

/// The digits of `n` read back as `n`, and hold no sign or whitespace.
#[verifier::spinoff_prover]
pub proof fn lemma_digits_in_value(n: nat, radix: nat)
    requires
        2 <= radix <= 16,
    ensures
        digits_in(n, radix).len() > 0,
        all_digits(digits_in(n, radix), radix),
        digits_value(digits_in(n, radix), radix) == n,
        forall|i: int| 0 <= i < digits_in(n, radix).len() ==> {
            let c = #[trigger] digits_in(n, radix)[i];
            &&& !is_white_space(c)
            &&& c != '+'
            &&& c != 'x'
            &&& c != 'X'
        },
    decreases n,
{
    let s = digits_in(n, radix);
    if n < radix {
        lemma_digit_char_value(n, radix);
        assert(s.drop_last().len() == 0);
        assert(digits_value(s.drop_last(), radix) == 0);
    } else {
        let p = digits_in(n / radix, radix);
        vstd::arithmetic::div_mod::lemma_div_decreases(n as int, radix as int);
        vstd::arithmetic::div_mod::lemma_fundamental_div_mod(n as int, radix as int);
        lemma_digits_in_value(n / radix, radix);
        lemma_digit_char_value(n % radix, radix);
        assert(s.drop_last() =~= p);
        assert(digits_value(s, radix) == digits_value(p, radix) * radix + digit_value(s.last(), radix));
        assert((n / radix) * radix == radix * (n / radix)) by (nonlinear_arith);
        assert forall|i: int| 0 <= i < s.len() implies #[trigger] digit_value(s[i], radix) < radix by {
            if i < p.len() {
                assert(s[i] == p[i]);
            }
        }
        assert forall|i: int| 0 <= i < s.len() implies {
            let c = #[trigger] s[i];
            &&& !is_white_space(c)
            &&& c != '+'
            &&& c != 'x'
            &&& c != 'X'
        } by {
            if i < p.len() {
                assert(s[i] == p[i]);
            }
        }
    }
    assert(all_digits(s, radix));
}

/// Text whose ends are not whitespace is its own trim.
pub proof fn lemma_trim_plain(s: Seq<char>)
    requires
        s.len() > 0,
        !is_white_space(s[0]),
        !is_white_space(s.last()),
    ensures
        trim_ws(s) == s,
{
}


/// Upper-cases one ASCII letter; every other character is unchanged.
pub open spec fn ascii_upper(c: char) -> char {
    if 'a' <= c && c <= 'z' {
        ((c as u32) - 32) as char
    } else {
        c
    }
}

/// The ASCII-uppercase image of a character sequence.
pub open spec fn upper_seq(s: Seq<char>) -> Seq<char> {
    s.map_values(|c: char| ascii_upper(c))
}

/// Digits read the same in either ASCII case.
pub proof fn lemma_digits_ignore_case(s: Seq<char>, radix: nat)
    requires
        2 <= radix <= 36,
    ensures
        all_digits(upper_seq(s), radix) == all_digits(s, radix),
        all_digits(s, radix) ==> digits_value(upper_seq(s), radix) == digits_value(s, radix),
    decreases s.len(),
{
    let u = upper_seq(s);
    assert forall|i: int| 0 <= i < s.len() implies #[trigger] digit_value(u[i], radix) == digit_value(s[i], radix) by {
        let c = s[i];
        if 'a' <= c && c <= 'z' {
            assert(((c as u32) - 32) as char as u32 == (c as u32) - 32);
        }
    }
    assert(all_digits(u, radix) == all_digits(s, radix)) by {
        if all_digits(s, radix) {
            assert forall|i: int| 0 <= i < u.len() implies #[trigger] digit_value(u[i], radix) < radix by {
                assert(digit_value(s[i], radix) < radix);
            }
        }
        if all_digits(u, radix) {
            assert forall|i: int| 0 <= i < s.len() implies #[trigger] digit_value(s[i], radix) < radix by {
                assert(digit_value(u[i], radix) < radix);
            }
        }
    }
    if s.len() > 0 && all_digits(s, radix) {
        let t = s.drop_last();
        assert(upper_seq(t) =~= u.drop_last());
        assert(all_digits(t, radix)) by {
            assert forall|i: int| 0 <= i < t.len() implies #[trigger] digit_value(t[i], radix) < radix by {
                assert(t[i] == s[i]);
            }
        }
        lemma_digits_ignore_case(t, radix);
        assert(u.last() == u[s.len() - 1]);
    }
}


/// `t` is a contiguous piece of `s`.
pub open spec fn is_piece_of(t: Seq<char>, s: Seq<char>) -> bool {
    exists|i: int, j: int| 0 <= i <= j <= s.len() && t == s.subrange(i, j)
}

/// A piece of a piece of `s` is a piece of `s`.
pub proof fn lemma_piece_of_piece(u: Seq<char>, t: Seq<char>, s: Seq<char>)
    requires
        is_piece_of(u, t),
        is_piece_of(t, s),
    ensures
        is_piece_of(u, s),
{
    let (i, j) = choose|i: int, j: int| 0 <= i <= j <= t.len() && u == t.subrange(i, j);
    let (a, b) = choose|a: int, b: int| 0 <= a <= b <= s.len() && t == s.subrange(a, b);
    assert(u =~= s.subrange(a + i, a + j));
}

/// Trimming leading copies of `c` leaves a suffix that does not start with `c`.
pub proof fn lemma_trim_start_char(s: Seq<char>, c: char)
    ensures
        exists|i: int| 0 <= i <= s.len() && trim_start_char(s, c) == s.subrange(i, s.len() as int),
        trim_start_char(s, c).len() > 0 ==> trim_start_char(s, c)[0] != c,
    decreases s.len(),
{
    if s.len() > 0 && s[0] == c {
        let t = s.drop_first();
        lemma_trim_start_char(t, c);
        let i = choose|i: int| 0 <= i <= t.len() && trim_start_char(t, c) == t.subrange(i, t.len() as int);
        assert(t.subrange(i, t.len() as int) =~= s.subrange(i + 1, s.len() as int));
    } else {
        assert(s =~= s.subrange(0, s.len() as int));
    }
}

/// Trimming trailing copies of `c` leaves a prefix that does not end with `c`.
pub proof fn lemma_trim_end_char(s: Seq<char>, c: char)
    ensures
        exists|j: int| 0 <= j <= s.len() && trim_end_char(s, c) == s.subrange(0, j),
        trim_end_char(s, c).len() > 0 ==> trim_end_char(s, c).last() != c,
    decreases s.len(),
{
    if s.len() > 0 && s.last() == c {
        let t = s.drop_last();
        lemma_trim_end_char(t, c);
        let j = choose|j: int| 0 <= j <= t.len() && trim_end_char(t, c) == t.subrange(0, j);
        assert(t.subrange(0, j) =~= s.subrange(0, j));
    } else {
        assert(s =~= s.subrange(0, s.len() as int));
    }
}

/// Trimming copies of `c` from both ends leaves a piece of `s` that neither
/// starts nor ends with `c`, and leaves text whose ends are not `c` as it is.
pub proof fn lemma_trim_char(s: Seq<char>, c: char)
    ensures
        is_piece_of(trim_char(s, c), s),
        trim_char(s, c).len() > 0 ==> trim_char(s, c)[0] != c && trim_char(s, c).last() != c,
        s.len() == 0 || (s[0] != c && s.last() != c) ==> trim_char(s, c) == s,
{
    let a = trim_start_char(s, c);
    lemma_trim_start_char(s, c);
    lemma_trim_end_char(a, c);
    let i = choose|i: int| 0 <= i <= s.len() && a == s.subrange(i, s.len() as int);
    let j = choose|j: int| 0 <= j <= a.len() && trim_end_char(a, c) == a.subrange(0, j);
    assert(trim_char(s, c) =~= s.subrange(i, i + j));
    if trim_char(s, c).len() > 0 {
        assert(trim_char(s, c)[0] == a[0]);
    }
    if s.len() == 0 || (s[0] != c && s.last() != c) {
        assert(a == s);
    }
}

/// Trimming whitespace leaves a piece of `s`.
pub proof fn lemma_trim_ws_piece(s: Seq<char>)
    ensures
        is_piece_of(trim_ws(s), s),
        s.len() == 0 ==> trim_ws(s) == s,
{
    lemma_trim_start_ws_piece(s);
    let a = trim_start_ws(s);
    lemma_trim_end_ws_piece(a);
    let i = choose|i: int| 0 <= i <= s.len() && a == s.subrange(i, s.len() as int);
    let j = choose|j: int| 0 <= j <= a.len() && trim_end_ws(a) == a.subrange(0, j);
    assert(trim_ws(s) =~= s.subrange(i, i + j));
}

proof fn lemma_trim_start_ws_piece(s: Seq<char>)
    ensures
        exists|i: int| 0 <= i <= s.len() && trim_start_ws(s) == s.subrange(i, s.len() as int),
    decreases s.len(),
{
    if s.len() > 0 && is_white_space(s[0]) {
        let t = s.drop_first();
        lemma_trim_start_ws_piece(t);
        let i = choose|i: int| 0 <= i <= t.len() && trim_start_ws(t) == t.subrange(i, t.len() as int);
        assert(t.subrange(i, t.len() as int) =~= s.subrange(i + 1, s.len() as int));
    } else {
        assert(s =~= s.subrange(0, s.len() as int));
    }
}

proof fn lemma_trim_end_ws_piece(s: Seq<char>)
    ensures
        exists|j: int| 0 <= j <= s.len() && trim_end_ws(s) == s.subrange(0, j),
    decreases s.len(),
{
    if s.len() > 0 && is_white_space(s.last()) {
        let t = s.drop_last();
        lemma_trim_end_ws_piece(t);
        let j = choose|j: int| 0 <= j <= t.len() && trim_end_ws(t) == t.subrange(0, j);
        assert(t.subrange(0, j) =~= s.subrange(0, j));
    } else {
        assert(s =~= s.subrange(0, s.len() as int));
    }
}


/// Upper-casing keeps whitespace and changes nothing that lower-casing
/// then sees.
proof fn lemma_upper_char(c: char)
    ensures
        is_white_space(ascii_upper(c)) == is_white_space(c),
        ascii_lower(ascii_upper(c)) == ascii_lower(c),
{
    if 'a' <= c && c <= 'z' {
        let u = ((c as u32) - 32) as char;
        assert(u as u32 == (c as u32) - 32);
        assert(((u as u32) + 32) as char == c);
    }
}

/// Trimming commutes with upper-casing.
pub proof fn lemma_trim_upper(s: Seq<char>)
    ensures
        trim_ws(upper_seq(s)) == upper_seq(trim_ws(s)),
        lower_seq(upper_seq(s)) == lower_seq(s),
{
    lemma_trim_start_upper(s);
    lemma_trim_end_upper(trim_start_ws(s));
    assert forall|i: int| 0 <= i < s.len() implies #[trigger] lower_seq(upper_seq(s))[i] == lower_seq(s)[i] by {
        lemma_upper_char(s[i]);
    }
    assert(lower_seq(upper_seq(s)) =~= lower_seq(s));
}

proof fn lemma_trim_start_upper(s: Seq<char>)
    ensures
        trim_start_ws(upper_seq(s)) == upper_seq(trim_start_ws(s)),
    decreases s.len(),
{
    if s.len() > 0 {
        lemma_upper_char(s[0]);
        assert(upper_seq(s)[0] == ascii_upper(s[0]));
        if is_white_space(s[0]) {
            assert(upper_seq(s).drop_first() =~= upper_seq(s.drop_first()));
            lemma_trim_start_upper(s.drop_first());
        }
    }
}

proof fn lemma_trim_end_upper(s: Seq<char>)
    ensures
        trim_end_ws(upper_seq(s)) == upper_seq(trim_end_ws(s)),
    decreases s.len(),
{
    if s.len() > 0 {
        lemma_upper_char(s.last());
        assert(upper_seq(s).last() == ascii_upper(s.last()));
        if is_white_space(s.last()) {
            assert(upper_seq(s).drop_last() =~= upper_seq(s.drop_last()));
            lemma_trim_end_upper(s.drop_last());
        }
    }
}

/// A space on either side does not change what trimming gives.
pub proof fn lemma_trim_spaces_around(s: Seq<char>)
    ensures
        trim_ws(seq![' '] + s + seq![' ']) == trim_ws(s),
{
    let p = seq![' '] + s + seq![' '];
    assert(is_white_space(' '));
    assert(p.drop_first() =~= s + seq![' ']);
    lemma_trim_start_space_after(s);
    let t = trim_start_ws(s);
    if t.len() > 0 {
        assert((t + seq![' ']).drop_last() =~= t);
        assert((t + seq![' ']).last() == ' ');
    }
}

proof fn lemma_trim_start_space_after(s: Seq<char>)
    ensures
        trim_start_ws(s + seq![' ']) == if trim_start_ws(s).len() == 0 {
            Seq::<char>::empty()
        } else {
            trim_start_ws(s) + seq![' ']
        },
    decreases s.len(),
{
    assert(is_white_space(' '));
    let q = s + seq![' '];
    if s.len() == 0 {
        assert(q =~= seq![' ']);
        assert(q[0] == ' ');
        assert(q.drop_first() =~= Seq::<char>::empty());
        assert(trim_start_ws(q) == trim_start_ws(q.drop_first()));
        assert(trim_start_ws(Seq::<char>::empty()) == Seq::<char>::empty());
        assert(trim_start_ws(s) == s);
    } else if is_white_space(s[0]) {
        assert(q[0] == s[0]);
        assert(q.drop_first() =~= s.drop_first() + seq![' ']);
        lemma_trim_start_space_after(s.drop_first());
        assert(trim_start_ws(q) == trim_start_ws(q.drop_first()));
        assert(trim_start_ws(s) == trim_start_ws(s.drop_first()));
    } else {
        assert(q[0] == s[0]);
        assert(trim_start_ws(q) == q);
        assert(trim_start_ws(s) == s);
    }
}


proof fn lemma_lower_char(c: char)
    ensures
        is_white_space(ascii_lower(c)) == is_white_space(c),
        ascii_lower(ascii_lower(c)) == ascii_lower(c),
{
    if 'A' <= c && c <= 'Z' {
        let l = ((c as u32) + 32) as char;
        assert(l as u32 == (c as u32) + 32);
    }
}

/// Trimming commutes with lower-casing, and lower-casing twice is
/// lower-casing once.
pub proof fn lemma_trim_lower(s: Seq<char>)
    ensures
        trim_ws(lower_seq(s)) == lower_seq(trim_ws(s)),
        lower_seq(lower_seq(s)) == lower_seq(s),
        lower_seq(trim_ws(lower_seq(s))) == lower_seq(trim_ws(s)),
{
    lemma_trim_start_lower(s);
    lemma_trim_end_lower(trim_start_ws(s));
    assert forall|i: int| 0 <= i < s.len() implies #[trigger] lower_seq(lower_seq(s))[i] == lower_seq(s)[i] by {
        lemma_lower_char(s[i]);
    }
    assert(lower_seq(lower_seq(s)) =~= lower_seq(s));
    let t = trim_ws(s);
    assert forall|i: int| 0 <= i < t.len() implies #[trigger] lower_seq(lower_seq(t))[i] == lower_seq(t)[i] by {
        lemma_lower_char(t[i]);
    }
    assert(lower_seq(lower_seq(t)) =~= lower_seq(t));
}

proof fn lemma_trim_start_lower(s: Seq<char>)
    ensures
        trim_start_ws(lower_seq(s)) == lower_seq(trim_start_ws(s)),
    decreases s.len(),
{
    if s.len() > 0 {
        lemma_lower_char(s[0]);
        assert(lower_seq(s)[0] == ascii_lower(s[0]));
        if is_white_space(s[0]) {
            assert(lower_seq(s).drop_first() =~= lower_seq(s.drop_first()));
            lemma_trim_start_lower(s.drop_first());
        }
    }
}

proof fn lemma_trim_end_lower(s: Seq<char>)
    ensures
        trim_end_ws(lower_seq(s)) == lower_seq(trim_end_ws(s)),
    decreases s.len(),
{
    if s.len() > 0 {
        lemma_lower_char(s.last());
        assert(lower_seq(s).last() == ascii_lower(s.last()));
        if is_white_space(s.last()) {
            assert(lower_seq(s).drop_last() =~= lower_seq(s.drop_last()));
            lemma_trim_end_lower(s.drop_last());
        }
    }
}

} // verus!
