//! Character and number helpers shared by the protocol and rendering modules:
//! conversions between `str`, `String` and character vectors, decimal
//! formatting, and decimal integer parsing with the syntax that `str::parse`
//! accepts for Rust's integer types.
use vstd::prelude::*;

verus! {

// ---------------------------------------------------------------------------
// Strings and characters
// ---------------------------------------------------------------------------

/// Collects the characters of `s`.
pub fn chars_of(s: &str) -> (v: Vec<char>)
    ensures
        v@ == s@,
{
    let mut v: Vec<char> = Vec::new();
    for c in it: s.chars()
        invariant
            v@ == it.seq().take(it.index() as int),
    {
        v.push(c);
    }
    v
}

/// Builds a `String` from characters (std's `FromIterator<&char>` for `String`):
/// the string holds exactly the given characters, in order.
#[verifier::external_body]
pub fn string_from_chars(v: &[char]) -> (s: String)
    ensures
        s@ == v@,
{
    v.iter().collect()
}

/// Decodes `bytes` as UTF-8 (std's `str::from_utf8`): `Some` exactly when the
/// bytes are valid UTF-8, holding the decoded characters.
#[verifier::external_body]
pub fn utf8_string(bytes: &[u8]) -> (r: Option<String>)
    ensures
        r is Some <==> vstd::utf8::valid_utf8(bytes@),
        r matches Some(s) ==> s@ == vstd::utf8::decode_utf8(bytes@),
{
    std::str::from_utf8(bytes).ok().map(|s| s.to_string())
}

/// Appends the characters of `s` to `out`.
pub fn push_str_chars(out: &mut Vec<char>, s: &str)
    ensures
        final(out)@ == old(out)@ + s@,
{
    let v = chars_of(s);
    let mut i: usize = 0;
    while i < v.len()
        invariant
            0 <= i <= v.len(),
            out@ == old(out)@ + v@.take(i as int),
        decreases v.len() - i,
    {
        out.push(v[i]);
        i = i + 1;
        assert(v@.take(i as int) == v@.take(i - 1).push(v@[i - 1]));
    }
    assert(v@.take(v.len() as int) == v@);
}

/// Whether the characters `a` spell `b`.
pub fn chars_eq_str(a: &[char], b: &str) -> (r: bool)
    ensures
        r == (a@ == b@),
{
    let bv = chars_of(b);
    if a.len() != bv.len() {
        return false;
    }
    let mut i: usize = 0;
    while i < a.len()
        invariant
            a.len() == bv.len(),
            bv@ == b@,
            0 <= i <= a.len(),
            forall|j: int| 0 <= j < i ==> a@[j] == bv@[j],
        decreases a.len() - i,
    {
        if a[i] != bv[i] {
            assert(a@[i as int] != bv@[i as int]);
            assert(a@ != bv@);
            return false;
        }
        i = i + 1;
    }
    assert(a@ =~= bv@);
    true
}

/// Whether `a` starts with the characters of `prefix`.
pub fn starts_with_str(a: &[char], prefix: &str) -> (r: bool)
    ensures
        r == (prefix@.len() <= a@.len() && a@.take(prefix@.len() as int) == prefix@),
{
    let p = chars_of(prefix);
    if p.len() > a.len() {
        return false;
    }
    let mut i: usize = 0;
    while i < p.len()
        invariant
            p.len() <= a.len(),
            p@ == prefix@,
            0 <= i <= p.len(),
            forall|j: int| 0 <= j < i ==> a@[j] == p@[j],
        decreases p.len() - i,
    {
        if a[i] != p[i] {
            assert(a@.take(p.len() as int)[i as int] != p@[i as int]);
            assert(a@.take(p.len() as int) != p@);
            return false;
        }
        i = i + 1;
    }
    assert(a@.take(p.len() as int) =~= p@);
    true
}

/// The characters `v[start..end]`.
pub fn slice_chars(v: &[char], start: usize, end: usize) -> (r: Vec<char>)
    requires
        start <= end <= v.len(),
    ensures
        r@ == v@.subrange(start as int, end as int),
{
    let mut r: Vec<char> = Vec::new();
    let mut i: usize = start;
    while i < end
        invariant
            start <= i <= end <= v.len(),
            r@ == v@.subrange(start as int, i as int),
        decreases end - i,
    {
        r.push(v[i]);
        i = i + 1;
        assert(v@.subrange(start as int, i as int) == v@.subrange(start as int, i - 1).push(
            v@[i - 1],
        ));
    }
    r
}

// ---------------------------------------------------------------------------
// Decimal formatting
// ---------------------------------------------------------------------------

/// The ASCII digit for `d` (`0 <= d < 10`).
pub open spec fn digit_char(d: nat) -> char {
    ((d + 48) as u32) as char
}

/// The decimal digits of `n`, without leading zeros (`"0"` for zero).
pub open spec fn decimal(n: nat) -> Seq<char>
    decreases n,
{
    if n < 10 {
        seq![digit_char(n)]
    } else {
        decimal(n / 10).push(digit_char(n % 10))
    }
}

/// The decimal text of a signed integer: a `-` before the digits of its
/// magnitude when it is negative.
pub open spec fn signed_decimal(n: int) -> Seq<char> {
    if n < 0 {
        seq!['-'] + decimal((-n) as nat)
    } else {
        decimal(n as nat)
    }
}

fn digit(d: u64) -> (c: char)
    requires
        d < 10,
    ensures
        c == digit_char(d as nat),
{
    let b: u8 = (d as u8) + 48u8;
    b as char
}

/// Appends the decimal digits of `n` to `out`.
pub fn push_decimal(out: &mut Vec<char>, n: u64)
    ensures
        final(out)@ == old(out)@ + decimal(n as nat),
    decreases n,
{
    if n < 10 {
        out.push(digit(n));
    } else {
        push_decimal(out, n / 10);
        out.push(digit(n % 10));
    }
}

/// Appends the decimal text of the signed `n` to `out`.
pub fn push_signed_decimal(out: &mut Vec<char>, n: i64)
    ensures
        final(out)@ == old(out)@ + signed_decimal(n as int),
{
    if n < 0 {
        out.push('-');
        let magnitude: u64 = (0i128 - (n as i128)) as u64;
        push_decimal(out, magnitude);
    } else {
        push_decimal(out, n as u64);
    }
}

// ---------------------------------------------------------------------------
// Decimal integer parsing
// ---------------------------------------------------------------------------

/// Whether `c` is an ASCII decimal digit.
pub open spec fn is_digit(c: char) -> bool {
    '0' <= c && c <= '9'
}

/// Whether every character of `s` is an ASCII decimal digit.
pub open spec fn all_digits(s: Seq<char>) -> bool {
    forall|i: int| 0 <= i < s.len() ==> is_digit(#[trigger] s[i])
}

/// The numeric value of a digit character.
pub open spec fn digit_value(c: char) -> nat {
    ((c as int) - 48) as nat
}

/// The value of a string of decimal digits (0 for the empty string).
pub open spec fn digits_value(s: Seq<char>) -> nat
    decreases s.len(),
{
    if s.len() == 0 {
        0
    } else {
        digits_value(s.drop_last()) * 10 + digit_value(s.last())
    }
}

/// The sign and digits of a decimal integer literal as `str::parse` reads
/// it for Rust's integer types: an optional `+` (or, for a signed type, `-`)
/// followed by at least one ASCII digit, and nothing else.  The boolean is
/// `true` for a negative literal.
pub open spec fn int_literal(s: Seq<char>, signed: bool) -> Option<(bool, Seq<char>)> {
    let (neg, digits) = if s.len() > 0 && s[0] == '+' {
        (false, s.drop_first())
    } else if signed && s.len() > 0 && s[0] == '-' {
        (true, s.drop_first())
    } else {
        (false, s)
    };
    if digits.len() > 0 && all_digits(digits) {
        Some((neg, digits))
    } else {
        None
    }
}

/// What `str::parse` gives for an integer type with the range `lo..=hi`:
/// the literal's value when `s` is a literal whose value lies in the range.
pub open spec fn parse_int(s: Seq<char>, signed: bool, lo: int, hi: int) -> Option<int> {
    match int_literal(s, signed) {
        Some((neg, digits)) => {
            let v = if neg {
                -(digits_value(digits) as int)
            } else {
                digits_value(digits) as int
            };
            if lo <= v && v <= hi {
                Some(v)
            } else {
                None
            }
        },
        None => None,
    }
}

/// `str::parse::<i64>`.
pub open spec fn parse_i64_spec(s: Seq<char>) -> Option<int> {
    parse_int(s, true, i64::MIN as int, i64::MAX as int)
}

/// `str::parse::<i32>`.
pub open spec fn parse_i32_spec(s: Seq<char>) -> Option<int> {
    parse_int(s, true, i32::MIN as int, i32::MAX as int)
}

/// `str::parse::<u16>`.
pub open spec fn parse_u16_spec(s: Seq<char>) -> Option<int> {
    parse_int(s, false, 0, u16::MAX as int)
}

/// The decimal text of a number is a non-empty run of digits whose value is
/// the number.
pub proof fn lemma_decimal_digits(n: nat)
    ensures
        decimal(n).len() >= 1,
        all_digits(decimal(n)),
        digits_value(decimal(n)) == n,
    decreases n,
{
    let d = digit_char(n % 10);
    assert(digit_value(d) == n % 10);
    assert(is_digit(d));
    if n < 10 {
        let s = decimal(n);
        assert(s.drop_last() =~= Seq::<char>::empty());
        assert(digits_value(s.drop_last()) == 0);
    } else {
        lemma_decimal_digits(n / 10);
        let p = decimal(n / 10);
        let s = decimal(n);
        assert(s.drop_last() =~= p);
        assert forall|i: int| 0 <= i < s.len() implies is_digit(#[trigger] s[i]) by {
            if i < p.len() {
                assert(s[i] == p[i]);
            }
        }
    }
}

/// A number's decimal text parses back to the number, for any integer type
/// whose range holds it.
pub proof fn lemma_parse_decimal(n: nat, signed: bool, lo: int, hi: int)
    requires
        lo <= n <= hi,
    ensures
        parse_int(decimal(n), signed, lo, hi) == Some(n as int),
{
    lemma_decimal_digits(n);
    let s = decimal(n);
    assert(is_digit(s[0]));
    assert(int_literal(s, signed) == Some((false, s)));
}

/// A bound above every value that the parsers below accept.
pub open spec fn value_cap() -> nat {
    0x1_0000_0000_0000_0000
}

pub open spec fn min_nat(a: nat, b: nat) -> nat {
    if a <= b {
        a
    } else {
        b
    }
}

/// Reads the digits `s[start..]`: `None` unless there is at least one and all
/// are digits, else their value, capped at `value_cap()`.
fn scan_digits(s: &[char], start: usize) -> (r: Option<u128>)
    requires
        start <= s.len(),
    ensures
        r is Some <==> (start < s.len() && all_digits(s@.subrange(start as int, s.len() as int))),
        r matches Some(m) ==> m == min_nat(
            digits_value(s@.subrange(start as int, s.len() as int)),
            value_cap(),
        ),
{
    if start == s.len() {
        return None;
    }
    let cap: u128 = 0x1_0000_0000_0000_0000;
    let mut acc: u128 = 0;
    let mut i: usize = start;
    while i < s.len()
        invariant
            start <= i <= s.len(),
            cap == value_cap(),
            all_digits(s@.subrange(start as int, i as int)),
            acc == min_nat(digits_value(s@.subrange(start as int, i as int)), value_cap()),
        decreases s.len() - i,
    {
        let c = s[i];
        if !('0' <= c && c <= '9') {
            assert(s@.subrange(start as int, s.len() as int)[i - start] == c);
            return None;
        }
        let d: u128 = ((c as u32) - 48u32) as u128;
        let ghost prev = s@.subrange(start as int, i as int);
        let ghost next = s@.subrange(start as int, i + 1);
        assert(next.drop_last() == prev);
        assert(next.last() == c);
        if acc < cap {
            let v = acc * 10 + d;
            acc = if v < cap { v } else { cap };
        }
        i = i + 1;
        assert(all_digits(next)) by {
            assert forall|j: int| 0 <= j < next.len() implies is_digit(#[trigger] next[j]) by {
                if j < prev.len() {
                    assert(next[j] == prev[j]);
                }
            }
        }
    }
    assert(s@.subrange(start as int, i as int) == s@.subrange(start as int, s.len() as int));
    Some(acc)
}

/// Reads an integer literal (see `int_literal`): its sign and its magnitude,
/// capped at `value_cap()`.
fn scan_int(s: &[char], signed: bool) -> (r: Option<(bool, u128)>)
    ensures
        r is Some <==> int_literal(s@, signed) is Some,
        r matches Some((neg, m)) ==> ({
            let (n2, digits) = int_literal(s@, signed).unwrap();
            neg == n2 && m == min_nat(digits_value(digits), value_cap())
        }),
{
    let (neg, start) = if s.len() > 0 && s[0] == '+' {
        (false, 1usize)
    } else if signed && s.len() > 0 && s[0] == '-' {
        (true, 1usize)
    } else {
        (false, 0usize)
    };
    assert(start == 1 ==> s@.drop_first() == s@.subrange(1, s@.len() as int));
    assert(s@ == s@.subrange(0, s@.len() as int));
    match scan_digits(s, start) {
        Some(m) => Some((neg, m)),
        None => None,
    }
}

/// `str::parse::<i64>` on the characters `s`.
pub fn parse_i64(s: &[char]) -> (r: Option<i64>)
    ensures
        r matches Some(v) ==> parse_i64_spec(s@) == Some(v as int),
        r is None ==> parse_i64_spec(s@) is None,
{
    match scan_int(s, true) {
        Some((neg, m)) => {
            if neg {
                if m <= 0x8000_0000_0000_0000 {
                    Some((0i128 - (m as i128)) as i64)
                } else {
                    None
                }
            } else {
                if m <= 0x7fff_ffff_ffff_ffff {
                    Some(m as i64)
                } else {
                    None
                }
            }
        },
        None => None,
    }
}

/// `str::parse::<i32>` on the characters `s`.
pub fn parse_i32(s: &[char]) -> (r: Option<i32>)
    ensures
        r matches Some(v) ==> parse_i32_spec(s@) == Some(v as int),
        r is None ==> parse_i32_spec(s@) is None,
{
    match scan_int(s, true) {
        Some((neg, m)) => {
            if neg {
                if m <= 0x8000_0000 {
                    Some((0i128 - (m as i128)) as i32)
                } else {
                    None
                }
            } else {
                if m <= 0x7fff_ffff {
                    Some(m as i32)
                } else {
                    None
                }
            }
        },
        None => None,
    }
}

/// `str::parse::<u16>` on the characters `s`.
pub fn parse_u16(s: &[char]) -> (r: Option<u16>)
    ensures
        r matches Some(v) ==> parse_u16_spec(s@) == Some(v as int),
        r is None ==> parse_u16_spec(s@) is None,
{
    match scan_int(s, false) {
        Some((_neg, m)) => {
            if m <= 0xffff {
                Some(m as u16)
            } else {
                None
            }
        },
        None => None,
    }
}

} // verus!
