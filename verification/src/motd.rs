//! Minecraft `§` / `&` legacy formatting codes: conversion to ANSI escape
//! sequences, and stripping for plain text.
use vstd::prelude::*;

use crate::text::{chars_of, push_str_chars, string_from_chars};

verus! {

/// Resets colors and styles.
pub const RESET: &'static str = "\x1b[0m";

/// The ANSI foreground color for a legacy color code.
pub open spec fn color_fg_spec(code: char) -> Option<Seq<char>> {
    if code == '0' {
        Some("\x1b[30m"@)
    } else if code == '1' {
        Some("\x1b[34m"@)
    } else if code == '2' {
        Some("\x1b[32m"@)
    } else if code == '3' {
        Some("\x1b[36m"@)
    } else if code == '4' {
        Some("\x1b[31m"@)
    } else if code == '5' {
        Some("\x1b[35m"@)
    } else if code == '6' {
        Some("\x1b[33m"@)
    } else if code == '7' {
        Some("\x1b[37m"@)
    } else if code == '8' {
        Some("\x1b[90m"@)
    } else if code == '9' {
        Some("\x1b[94m"@)
    } else if code == 'a' || code == 'A' {
        Some("\x1b[92m"@)
    } else if code == 'b' || code == 'B' {
        Some("\x1b[96m"@)
    } else if code == 'c' || code == 'C' {
        Some("\x1b[91m"@)
    } else if code == 'd' || code == 'D' {
        Some("\x1b[95m"@)
    } else if code == 'e' || code == 'E' {
        Some("\x1b[93m"@)
    } else if code == 'f' || code == 'F' {
        Some("\x1b[97m"@)
    } else {
        None
    }
}

/// The ANSI sequence for a legacy style code (nothing for obfuscated).
pub open spec fn format_code_spec(code: char) -> Option<Seq<char>> {
    if code == 'l' || code == 'L' {
        Some("\x1b[1m"@)
    } else if code == 'n' || code == 'N' {
        Some("\x1b[4m"@)
    } else if code == 'o' || code == 'O' {
        Some("\x1b[3m"@)
    } else if code == 'm' || code == 'M' {
        Some("\x1b[9m"@)
    } else if code == 'k' || code == 'K' {
        Some(Seq::empty())
    } else if code == 'r' || code == 'R' {
        Some(RESET@)
    } else {
        None
    }
}

/// The ANSI sequence for any legacy code: colors first, then styles.
pub open spec fn code_ansi(code: char) -> Option<Seq<char>> {
    match color_fg_spec(code) {
        Some(a) => Some(a),
        None => format_code_spec(code),
    }
}

/// The characters that introduce a legacy code.
pub open spec fn is_marker(c: char) -> bool {
    c == '§' || c == '&'
}

/// Whether a legacy code starts at `i`: a marker followed by a known code.
pub open spec fn code_at(s: Seq<char>, i: int) -> bool {
    0 <= i && i + 1 < s.len() && is_marker(s[i]) && code_ansi(s[i + 1]) is Some
}

/// `s[i..]` with each legacy code replaced by its ANSI sequence, scanning
/// from the left (a code consumes its marker and its letter).
pub open spec fn ansi_from(s: Seq<char>, i: int) -> Seq<char>
    decreases s.len() - i,
{
    if i >= s.len() || i < 0 {
        Seq::empty()
    } else if code_at(s, i) {
        code_ansi(s[i + 1]).unwrap() + ansi_from(s, i + 2)
    } else {
        seq![s[i]] + ansi_from(s, i + 1)
    }
}

/// `s[i..]` without its legacy codes, scanning from the left.
pub open spec fn strip_from(s: Seq<char>, i: int) -> Seq<char>
    decreases s.len() - i,
{
    if i >= s.len() || i < 0 {
        Seq::empty()
    } else if code_at(s, i) {
        strip_from(s, i + 2)
    } else {
        seq![s[i]] + strip_from(s, i + 1)
    }
}

/// The ANSI text of a MOTD: its codes converted, then a reset.
pub open spec fn to_ansi_text(s: Seq<char>) -> Seq<char> {
    ansi_from(s, 0) + RESET@
}

/// The ANSI foreground color for a legacy color code.
pub fn color_fg(code: char) -> (r: Option<&'static str>)
    ensures
        match r {
            Some(a) => color_fg_spec(code) == Some(a@),
            None => color_fg_spec(code) is None,
        },
{
    match code {
        '0' => Some("\x1b[30m"),
        '1' => Some("\x1b[34m"),
        '2' => Some("\x1b[32m"),
        '3' => Some("\x1b[36m"),
        '4' => Some("\x1b[31m"),
        '5' => Some("\x1b[35m"),
        '6' => Some("\x1b[33m"),
        '7' => Some("\x1b[37m"),
        '8' => Some("\x1b[90m"),
        '9' => Some("\x1b[94m"),
        'a' | 'A' => Some("\x1b[92m"),
        'b' | 'B' => Some("\x1b[96m"),
        'c' | 'C' => Some("\x1b[91m"),
        'd' | 'D' => Some("\x1b[95m"),
        'e' | 'E' => Some("\x1b[93m"),
        'f' | 'F' => Some("\x1b[97m"),
        _ => None,
    }
}

/// The ANSI sequence for a legacy style code.
pub fn format_code(code: char) -> (r: Option<&'static str>)
    ensures
        match r {
            Some(a) => format_code_spec(code) == Some(a@),
            None => format_code_spec(code) is None,
        },
{
    match code {
        'l' | 'L' => Some("\x1b[1m"),
        'n' | 'N' => Some("\x1b[4m"),
        'o' | 'O' => Some("\x1b[3m"),
        'm' | 'M' => Some("\x1b[9m"),
        'k' | 'K' => {
            let e = "";
            proof {
                reveal_strlit("");
            }
            assert(e@ =~= Seq::<char>::empty());
            Some(e)
        },
        'r' | 'R' => Some(RESET),
        _ => None,
    }
}

fn code_ansi_exec(code: char) -> (r: Option<&'static str>)
    ensures
        match r {
            Some(a) => code_ansi(code) == Some(a@),
            None => code_ansi(code) is None,
        },
{
    match color_fg(code) {
        Some(a) => Some(a),
        None => format_code(code),
    }
}

/// Converts a legacy-coded MOTD to ANSI-colored text.
pub fn to_ansi(motd: &str) -> (r: String)
    ensures
        r@ == to_ansi_text(motd@),
{
    let chars = chars_of(motd);
    let ghost s = motd@;
    let mut out: Vec<char> = Vec::new();
    let mut i: usize = 0;
    while i < chars.len()
        invariant
            chars@ == s,
            i <= chars.len(),
            out@ + ansi_from(s, i as int) == ansi_from(s, 0),
        decreases chars.len() - i,
    {
        let c = chars[i];
        if (c == '§' || c == '&') && i + 1 < chars.len() {
            if let Some(ansi) = code_ansi_exec(chars[i + 1]) {
                let ghost prev = out@;
                push_str_chars(&mut out, ansi);
                assert(code_at(s, i as int));
                assert(out@ + ansi_from(s, i + 2) =~= prev + ansi_from(s, i as int));
                i = i + 2;
                continue;
            }
        }
        assert(!code_at(s, i as int));
        let ghost prev = out@;
        out.push(c);
        assert(out@ + ansi_from(s, i + 1) =~= prev + ansi_from(s, i as int));
        i = i + 1;
    }
    assert(ansi_from(s, i as int) =~= Seq::<char>::empty());
    push_str_chars(&mut out, RESET);
    assert(out@ =~= to_ansi_text(s));
    string_from_chars(out.as_slice())
}

/// Removes the legacy codes of a MOTD, for plain-text contexts.
pub fn strip(motd: &str) -> (r: String)
    ensures
        r@ == strip_from(motd@, 0),
{
    let chars = chars_of(motd);
    let ghost s = motd@;
    let mut out: Vec<char> = Vec::new();
    let mut i: usize = 0;
    while i < chars.len()
        invariant
            chars@ == s,
            i <= chars.len(),
            out@ + strip_from(s, i as int) == strip_from(s, 0),
        decreases chars.len() - i,
    {
        let c = chars[i];
        if (c == '§' || c == '&') && i + 1 < chars.len() {
            if code_ansi_exec(chars[i + 1]).is_some() {
                assert(code_at(s, i as int));
                i = i + 2;
                continue;
            }
        }
        assert(!code_at(s, i as int));
        let ghost prev = out@;
        out.push(c);
        assert(out@ + strip_from(s, i + 1) =~= prev + strip_from(s, i as int));
        i = i + 1;
    }
    assert(strip_from(s, i as int) =~= Seq::<char>::empty());
    assert(out@ =~= strip_from(s, 0));
    string_from_chars(out.as_slice())
}

// ---------------------------------------------------------------------------
// Laws
// ---------------------------------------------------------------------------

proof fn lemma_plain_suffix(s: Seq<char>, i: int)
    requires
        0 <= i <= s.len(),
        forall|j: int| 0 <= j < s.len() ==> !is_marker(#[trigger] s[j]),
    ensures
        ansi_from(s, i) == s.skip(i),
        strip_from(s, i) == s.skip(i),
    decreases s.len() - i,
{
    if i < s.len() {
        lemma_plain_suffix(s, i + 1);
        assert(s.skip(i) =~= seq![s[i]] + s.skip(i + 1));
    } else {
        assert(s.skip(i) =~= Seq::<char>::empty());
    }
}

/// A parameter character of an SGR escape sequence.
pub open spec fn is_sgr_param(c: char) -> bool {
    ('0' <= c && c <= '9') || c == ';'
}

/// The index of the first character at or after `j` that is not an SGR
/// parameter.
pub open spec fn params_end(t: Seq<char>, j: int) -> int
    decreases t.len() - j,
{
    if j < 0 || j >= t.len() {
        j
    } else if is_sgr_param(t[j]) {
        params_end(t, j + 1)
    } else {
        j
    }
}

/// Where the SGR parameters that start at `j` end: not before `j`, and not
/// past the end of `t`.
pub proof fn lemma_params_end_bounds(t: Seq<char>, j: int)
    requires
        0 <= j,
    ensures
        j <= params_end(t, j),
        j <= t.len() ==> params_end(t, j) <= t.len(),
    decreases t.len() - j,
{
    if j < t.len() && is_sgr_param(t[j]) {
        lemma_params_end_bounds(t, j + 1);
    }
}

/// The length of the SGR escape sequence (`ESC [ params m`) at the front of
/// `t`, if there is one.
pub open spec fn sgr_len(t: Seq<char>) -> Option<int> {
    if t.len() >= 2 && t[0] == '\x1b' && t[1] == '[' {
        let e = params_end(t, 2);
        if e < t.len() && t[e] == 'm' {
            Some(e + 1)
        } else {
            None
        }
    } else {
        None
    }
}

/// `t` with every SGR escape sequence (`ESC [ [0-9;]* m`) deleted, scanning
/// from the left.
pub open spec fn remove_sgr(t: Seq<char>) -> Seq<char>
    decreases t.len(),
{
    if t.len() == 0 {
        Seq::empty()
    } else {
        match sgr_len(t) {
            Some(n) => {
                proof {
                    lemma_params_end_bounds(t, 2);
                }
                remove_sgr(t.skip(n))
            },
            None => seq![t[0]] + remove_sgr(t.drop_first()),
        }
    }
}

/// Whether `x` is exactly one SGR escape sequence.
pub open spec fn is_sgr(x: Seq<char>) -> bool {
    &&& x.len() >= 3
    &&& x[0] == '\x1b'
    &&& x[1] == '['
    &&& x[x.len() - 1] == 'm'
    &&& forall|j: int| 2 <= j < x.len() - 1 ==> is_sgr_param(#[trigger] x[j])
}

proof fn lemma_params_end_in(t: Seq<char>, j: int, e: int)
    requires
        2 <= j <= e < t.len(),
        !is_sgr_param(t[e]),
        forall|k: int| j <= k < e ==> is_sgr_param(#[trigger] t[k]),
    ensures
        params_end(t, j) == e,
    decreases e - j,
{
    if j < e {
        lemma_params_end_in(t, j + 1, e);
    }
}

proof fn lemma_remove_sgr_prefix(x: Seq<char>, rest: Seq<char>)
    requires
        x.len() == 0 || is_sgr(x),
    ensures
        remove_sgr(x + rest) == remove_sgr(rest),
{
    if x.len() == 0 {
        assert(x + rest =~= rest);
    } else {
        let t = x + rest;
        assert forall|k: int| 2 <= k < x.len() - 1 implies is_sgr_param(#[trigger] t[k]) by {
            assert(t[k] == x[k]);
        }
        assert(t[x.len() - 1] == 'm');
        lemma_params_end_in(t, 2, x.len() - 1);
        assert(sgr_len(t) == Some(x.len() as int));
        assert(t.skip(x.len() as int) =~= rest);
    }
}

proof fn lemma_remove_sgr_char(c: char, rest: Seq<char>)
    requires
        c != '\x1b',
    ensures
        remove_sgr(seq![c] + rest) == seq![c] + remove_sgr(rest),
{
    let t = seq![c] + rest;
    assert(t[0] == c);
    assert(t.drop_first() =~= rest);
}

proof fn lemma_codes_are_sgr(c: char)
    ensures
        code_ansi(c) matches Some(x) ==> x.len() == 0 || is_sgr(x),
{
    reveal_strlit("\x1b[30m");
    reveal_strlit("\x1b[34m");
    reveal_strlit("\x1b[32m");
    reveal_strlit("\x1b[36m");
    reveal_strlit("\x1b[31m");
    reveal_strlit("\x1b[35m");
    reveal_strlit("\x1b[33m");
    reveal_strlit("\x1b[37m");
    reveal_strlit("\x1b[90m");
    reveal_strlit("\x1b[94m");
    reveal_strlit("\x1b[92m");
    reveal_strlit("\x1b[96m");
    reveal_strlit("\x1b[91m");
    reveal_strlit("\x1b[95m");
    reveal_strlit("\x1b[93m");
    reveal_strlit("\x1b[97m");
    reveal_strlit("\x1b[1m");
    reveal_strlit("\x1b[4m");
    reveal_strlit("\x1b[3m");
    reveal_strlit("\x1b[9m");
    reveal_strlit("\x1b[0m");
    if let Some(x) = code_ansi(c) {
        if x.len() > 0 {
            assert(is_sgr(x));
        }
    }
}

proof fn lemma_reset_removed()
    ensures
        remove_sgr(RESET@) == Seq::<char>::empty(),
{
    lemma_codes_are_sgr('r');
    assert(code_ansi('r') == Some(RESET@));
    lemma_remove_sgr_prefix(RESET@, Seq::empty());
    assert(RESET@ + Seq::<char>::empty() =~= RESET@);
}

proof fn lemma_ansi_strip_suffix(s: Seq<char>, i: int)
    requires
        0 <= i <= s.len(),
        !s.contains('\x1b'),
    ensures
        remove_sgr(ansi_from(s, i) + RESET@) == strip_from(s, i),
    decreases s.len() - i,
{
    let r = RESET@;
    if i >= s.len() {
        lemma_reset_removed();
        assert(ansi_from(s, i) + r =~= r);
    } else if code_at(s, i) {
        lemma_ansi_strip_suffix(s, i + 2);
        let x = code_ansi(s[i + 1]).unwrap();
        lemma_codes_are_sgr(s[i + 1]);
        assert(ansi_from(s, i) + r =~= x + (ansi_from(s, i + 2) + r));
        lemma_remove_sgr_prefix(x, ansi_from(s, i + 2) + r);
    } else {
        lemma_ansi_strip_suffix(s, i + 1);
        if s[i] == '\x1b' {
            assert(s.contains('\x1b'));
        }
        assert(ansi_from(s, i) + r =~= seq![s[i]] + (ansi_from(s, i + 1) + r));
        lemma_remove_sgr_char(s[i], ansi_from(s, i + 1) + r);
    }
}

/// For a MOTD with no escape character in it, deleting every SGR escape
/// sequence from its ANSI text gives its stripped text: both read the same
/// codes and keep every other character in order.
pub proof fn lemma_ansi_and_strip_agree(s: Seq<char>)
    requires
        !s.contains('\x1b'),
    ensures
        remove_sgr(to_ansi_text(s)) == strip_from(s, 0),
{
    lemma_ansi_strip_suffix(s, 0);
}

/// Each legacy color code gives the ANSI foreground of its color: 0→30,
/// 1→34, 2→32, 3→36, 4→31, 5→35, 6→33, 7→37, 8→90, 9→94, a→92, b→96, c→91,
/// d→95, e→93, f→97, letters in either case.
pub proof fn lemma_color_table()
    ensures
        color_fg_spec('0') == Some(seq!['\x1b', '[', '3', '0', 'm']),
        color_fg_spec('1') == Some(seq!['\x1b', '[', '3', '4', 'm']),
        color_fg_spec('2') == Some(seq!['\x1b', '[', '3', '2', 'm']),
        color_fg_spec('3') == Some(seq!['\x1b', '[', '3', '6', 'm']),
        color_fg_spec('4') == Some(seq!['\x1b', '[', '3', '1', 'm']),
        color_fg_spec('5') == Some(seq!['\x1b', '[', '3', '5', 'm']),
        color_fg_spec('6') == Some(seq!['\x1b', '[', '3', '3', 'm']),
        color_fg_spec('7') == Some(seq!['\x1b', '[', '3', '7', 'm']),
        color_fg_spec('8') == Some(seq!['\x1b', '[', '9', '0', 'm']),
        color_fg_spec('9') == Some(seq!['\x1b', '[', '9', '4', 'm']),
        color_fg_spec('a') == Some(seq!['\x1b', '[', '9', '2', 'm']),
        color_fg_spec('A') == Some(seq!['\x1b', '[', '9', '2', 'm']),
        color_fg_spec('b') == Some(seq!['\x1b', '[', '9', '6', 'm']),
        color_fg_spec('B') == Some(seq!['\x1b', '[', '9', '6', 'm']),
        color_fg_spec('c') == Some(seq!['\x1b', '[', '9', '1', 'm']),
        color_fg_spec('C') == Some(seq!['\x1b', '[', '9', '1', 'm']),
        color_fg_spec('d') == Some(seq!['\x1b', '[', '9', '5', 'm']),
        color_fg_spec('D') == Some(seq!['\x1b', '[', '9', '5', 'm']),
        color_fg_spec('e') == Some(seq!['\x1b', '[', '9', '3', 'm']),
        color_fg_spec('E') == Some(seq!['\x1b', '[', '9', '3', 'm']),
        color_fg_spec('f') == Some(seq!['\x1b', '[', '9', '7', 'm']),
        color_fg_spec('F') == Some(seq!['\x1b', '[', '9', '7', 'm']),
{
    reveal_strlit("\x1b[0m");
    reveal_strlit("\x1b[1m");
    reveal_strlit("\x1b[30m");
    reveal_strlit("\x1b[31m");
    reveal_strlit("\x1b[32m");
    reveal_strlit("\x1b[33m");
    reveal_strlit("\x1b[34m");
    reveal_strlit("\x1b[35m");
    reveal_strlit("\x1b[36m");
    reveal_strlit("\x1b[37m");
    reveal_strlit("\x1b[3m");
    reveal_strlit("\x1b[4m");
    reveal_strlit("\x1b[90m");
    reveal_strlit("\x1b[91m");
    reveal_strlit("\x1b[92m");
    reveal_strlit("\x1b[93m");
    reveal_strlit("\x1b[94m");
    reveal_strlit("\x1b[95m");
    reveal_strlit("\x1b[96m");
    reveal_strlit("\x1b[97m");
    reveal_strlit("\x1b[9m");
}

/// Each legacy style code gives its ANSI sequence: l bold (1), n underline
/// (4), o italic (3), m strikethrough (9), r reset (0), k nothing; letters in
/// either case.
pub proof fn lemma_format_table()
    ensures
        format_code_spec('l') == Some(seq!['\x1b', '[', '1', 'm']),
        format_code_spec('L') == Some(seq!['\x1b', '[', '1', 'm']),
        format_code_spec('n') == Some(seq!['\x1b', '[', '4', 'm']),
        format_code_spec('N') == Some(seq!['\x1b', '[', '4', 'm']),
        format_code_spec('o') == Some(seq!['\x1b', '[', '3', 'm']),
        format_code_spec('O') == Some(seq!['\x1b', '[', '3', 'm']),
        format_code_spec('m') == Some(seq!['\x1b', '[', '9', 'm']),
        format_code_spec('M') == Some(seq!['\x1b', '[', '9', 'm']),
        format_code_spec('r') == Some(seq!['\x1b', '[', '0', 'm']),
        format_code_spec('R') == Some(seq!['\x1b', '[', '0', 'm']),
        format_code_spec('k') == Some(Seq::<char>::empty()),
        format_code_spec('K') == Some(Seq::<char>::empty()),
{
    reveal_strlit("\x1b[0m");
    reveal_strlit("\x1b[1m");
    reveal_strlit("\x1b[30m");
    reveal_strlit("\x1b[31m");
    reveal_strlit("\x1b[32m");
    reveal_strlit("\x1b[33m");
    reveal_strlit("\x1b[34m");
    reveal_strlit("\x1b[35m");
    reveal_strlit("\x1b[36m");
    reveal_strlit("\x1b[37m");
    reveal_strlit("\x1b[3m");
    reveal_strlit("\x1b[4m");
    reveal_strlit("\x1b[90m");
    reveal_strlit("\x1b[91m");
    reveal_strlit("\x1b[92m");
    reveal_strlit("\x1b[93m");
    reveal_strlit("\x1b[94m");
    reveal_strlit("\x1b[95m");
    reveal_strlit("\x1b[96m");
    reveal_strlit("\x1b[97m");
    reveal_strlit("\x1b[9m");
}

/// The legacy codes are exactly the digits, the letters a to f, and k, l,
/// m, n, o, r, in either case.
pub proof fn lemma_code_set(c: char)
    ensures
        code_ansi(c) is Some <==> ('0' <= c <= '9' || 'a' <= c <= 'f' || 'A' <= c <= 'F' || c
            == 'k' || c == 'K' || c == 'l' || c == 'L' || c == 'm' || c == 'M' || c == 'n' || c
            == 'N' || c == 'o' || c == 'O' || c == 'r' || c == 'R'),
{
}

proof fn lemma_ansi_shift(p: Seq<char>, t: Seq<char>, j: int)
    requires
        0 <= j <= t.len(),
    ensures
        ansi_from(p + t, p.len() + j) == ansi_from(t, j),
        strip_from(p + t, p.len() + j) == strip_from(t, j),
    decreases t.len() - j,
{
    let s = p + t;
    let i = p.len() + j;
    if j < t.len() {
        assert(s[i] == t[j]);
        if j + 1 < t.len() {
            assert(s[i + 1] == t[j + 1]);
        }
        assert(code_at(s, i) == code_at(t, j));
        if code_at(t, j) {
            lemma_ansi_shift(p, t, j + 2);
        } else {
            lemma_ansi_shift(p, t, j + 1);
        }
    }
}

/// A MOTD that starts with a marker (`§` or `&`) and a legacy code converts to
/// the code's ANSI sequence followed by the conversion of the rest, and
/// strips to the stripped rest.
pub proof fn lemma_leading_code(marker: char, code: char, t: Seq<char>)
    requires
        is_marker(marker),
        code_ansi(code) is Some,
    ensures
        to_ansi_text(seq![marker, code] + t) == code_ansi(code)->Some_0 + to_ansi_text(t),
        strip_from(seq![marker, code] + t, 0) == strip_from(t, 0),
{
    let p = seq![marker, code];
    let s = p + t;
    assert(s[0] == marker && s[1] == code);
    assert(code_at(s, 0));
    lemma_ansi_shift(p, t, 0);
    assert(to_ansi_text(s) =~= code_ansi(code)->Some_0 + to_ansi_text(t));
}

/// A character that does not start a legacy code is kept: the MOTD converts
/// to that character followed by the conversion of the rest, and strips to
/// it followed by the stripped rest.
pub proof fn lemma_leading_char(c: char, t: Seq<char>)
    requires
        !is_marker(c) || t.len() == 0 || code_ansi(t[0]) is None,
    ensures
        to_ansi_text(seq![c] + t) == seq![c] + to_ansi_text(t),
        strip_from(seq![c] + t, 0) == seq![c] + strip_from(t, 0),
{
    let p = seq![c];
    let s = p + t;
    assert(s[0] == c);
    if t.len() > 0 {
        assert(s[1] == t[0]);
    }
    assert(!code_at(s, 0));
    lemma_ansi_shift(p, t, 0);
    assert(to_ansi_text(s) =~= seq![c] + to_ansi_text(t));
}

/// Text with no `§` or `&` in it is left as it is by `strip`, and `to_ansi`
/// only appends a reset to it.
pub proof fn lemma_plain_text_unchanged(s: Seq<char>)
    requires
        forall|j: int| 0 <= j < s.len() ==> !is_marker(#[trigger] s[j]),
    ensures
        strip_from(s, 0) == s,
        to_ansi_text(s) == s + RESET@,
{
    lemma_plain_suffix(s, 0);
    assert(s.skip(0) =~= s);
}

proof fn lemma_strip_suffix_len(s: Seq<char>, i: int)
    requires
        0 <= i <= s.len(),
    ensures
        strip_from(s, i).len() <= s.len() - i,
    decreases s.len() - i,
{
    if i < s.len() {
        if code_at(s, i) {
            lemma_strip_suffix_len(s, i + 2);
        } else {
            lemma_strip_suffix_len(s, i + 1);
        }
    }
}

/// Stripping never lengthens a MOTD: it only removes characters.
pub proof fn lemma_strip_shortens(s: Seq<char>)
    ensures
        strip_from(s, 0).len() <= s.len(),
{
    lemma_strip_suffix_len(s, 0);
}

} // verus!
