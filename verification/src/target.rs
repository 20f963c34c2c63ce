//! The command line's target (`host`, `host:port`, IP, or `[ipv6]:port`),
//! the choice of edition, and the text of a reply line.
use vstd::prelude::*;

use crate::text::{
    all_digits, chars_of, decimal, is_digit, lemma_decimal_digits, lemma_parse_decimal, parse_u16,
    parse_u16_spec, slice_chars, string_from_chars,
};

verus! {

// ---------------------------------------------------------------------------
// Searching characters
// ---------------------------------------------------------------------------

/// The index of the first `c` in `s`.
pub open spec fn first_index(s: Seq<char>, c: char) -> Option<int>
    decreases s.len(),
{
    if s.len() == 0 {
        None
    } else if s[0] == c {
        Some(0)
    } else {
        match first_index(s.drop_first(), c) {
            Some(k) => Some(k + 1),
            None => None,
        }
    }
}

/// The index of the last `c` in `s`.
pub open spec fn last_index(s: Seq<char>, c: char) -> Option<int>
    decreases s.len(),
{
    if s.len() == 0 {
        None
    } else if s.last() == c {
        Some(s.len() - 1)
    } else {
        last_index(s.drop_last(), c)
    }
}

proof fn lemma_first_index(s: Seq<char>, c: char, i: int)
    requires
        0 <= i <= s.len(),
        forall|j: int| 0 <= j < i ==> s[j] != c,
    ensures
        i < s.len() && s[i] == c ==> first_index(s, c) == Some(i),
        i == s.len() ==> first_index(s, c) is None,
    decreases s.len(),
{
    if s.len() > 0 && i > 0 {
        lemma_first_index(s.drop_first(), c, i - 1);
    }
}

proof fn lemma_last_index(s: Seq<char>, c: char, i: int)
    requires
        -1 <= i < s.len(),
        forall|j: int| i < j < s.len() ==> s[j] != c,
    ensures
        i >= 0 && s[i] == c ==> last_index(s, c) == Some(i),
        i == -1 ==> last_index(s, c) is None,
    decreases s.len(),
{
    if s.len() > 0 && i < s.len() - 1 {
        lemma_last_index(s.drop_last(), c, i);
    }
}

fn find_first(s: &[char], c: char) -> (r: Option<usize>)
    ensures
        match r {
            Some(k) => first_index(s@, c) == Some(k as int),
            None => first_index(s@, c) is None,
        },
        r matches Some(k) ==> k < s.len(),
{
    let mut i: usize = 0;
    while i < s.len()
        invariant
            0 <= i <= s.len(),
            forall|j: int| 0 <= j < i ==> s@[j] != c,
        decreases s.len() - i,
    {
        if s[i] == c {
            proof {
                lemma_first_index(s@, c, i as int);
            }
            return Some(i);
        }
        i = i + 1;
    }
    proof {
        lemma_first_index(s@, c, i as int);
    }
    None
}

fn find_last(s: &[char], c: char) -> (r: Option<usize>)
    ensures
        match r {
            Some(k) => last_index(s@, c) == Some(k as int),
            None => last_index(s@, c) is None,
        },
        r matches Some(k) ==> k < s.len(),
{
    let mut i: usize = s.len();
    while i > 0
        invariant
            0 <= i <= s.len(),
            forall|j: int| i <= j < s.len() ==> s@[j] != c,
        decreases i,
    {
        if s[i - 1] == c {
            proof {
                lemma_last_index(s@, c, i - 1);
            }
            return Some(i - 1);
        }
        i = i - 1;
    }
    proof {
        lemma_last_index(s@, c, -1);
    }
    None
}

fn contains_char(s: &[char], c: char) -> (r: bool)
    ensures
        r == s@.contains(c),
{
    let mut i: usize = 0;
    while i < s.len()
        invariant
            0 <= i <= s.len(),
            forall|j: int| 0 <= j < i ==> s@[j] != c,
        decreases s.len() - i,
    {
        if s[i] == c {
            assert(s@[i as int] == c);
            return true;
        }
        i = i + 1;
    }
    false
}

fn all_ascii_digits(s: &[char]) -> (r: bool)
    ensures
        r == all_digits(s@),
{
    let mut i: usize = 0;
    while i < s.len()
        invariant
            0 <= i <= s.len(),
            forall|j: int| 0 <= j < i ==> is_digit(#[trigger] s@[j]),
        decreases s.len() - i,
    {
        if !('0' <= s[i] && s[i] <= '9') {
            assert(!is_digit(s@[i as int]));
            return false;
        }
        i = i + 1;
    }
    true
}

// ---------------------------------------------------------------------------
// Target
// ---------------------------------------------------------------------------

/// A host and an optional explicit port.
#[derive(Debug)]
pub struct ParsedTarget {
    pub host: String,
    pub port: Option<u16>,
}

/// Why a target is refused.
#[derive(PartialEq, Eq, Structural, Debug, Clone, Copy)]
pub enum TargetError {
    /// `[` without a matching `]`.
    MissingBracket,
    /// Something other than `:port` after `[addr]`.
    MissingPortColon,
    /// The port after `[addr]:` is not a `u16`.
    InvalidPort,
}

impl TargetError {
    /// The message that describes the error.
    pub fn message(&self) -> (s: &'static str)
        ensures
            s@ == target_error_message(*self),
    {
        match self {
            TargetError::MissingBracket => "invalid IPv6 target, expected [addr] or [addr]:port",
            TargetError::MissingPortColon => "invalid IPv6 target, expected [addr]:port",
            TargetError::InvalidPort => "invalid port",
        }
    }
}

/// The message of each target error.
pub open spec fn target_error_message(e: TargetError) -> Seq<char> {
    match e {
        TargetError::MissingBracket => "invalid IPv6 target, expected [addr] or [addr]:port"@,
        TargetError::MissingPortColon => "invalid IPv6 target, expected [addr]:port"@,
        TargetError::InvalidPort => "invalid port"@,
    }
}

/// How a target is read: `[addr]` or `[addr]:port` when it starts with `[`
/// (the port parsed as a `u16`); else `host:port` split at the last `:` when
/// the host is not empty, the port is all digits and fits a `u16`, and the
/// host holds no other `:` (a bare IPv6 address is kept whole); else the
/// whole target as the host.
pub open spec fn target_spec(raw: Seq<char>) -> Result<(Seq<char>, Option<u16>), TargetError> {
    if raw.len() > 0 && raw[0] == '[' {
        let rest = raw.drop_first();
        match first_index(rest, ']') {
            None => Err(TargetError::MissingBracket),
            Some(k) => {
                let host = rest.take(k);
                let after = rest.skip(k + 1);
                if after.len() == 0 {
                    Ok((host, None))
                } else if after[0] != ':' {
                    Err(TargetError::MissingPortColon)
                } else {
                    match parse_u16_spec(after.drop_first()) {
                        Some(p) => Ok((host, Some(p as u16))),
                        None => Err(TargetError::InvalidPort),
                    }
                }
            },
        }
    } else {
        match last_index(raw, ':') {
            Some(k) => {
                let host = raw.take(k);
                let port_str = raw.skip(k + 1);
                if host.len() > 0 && all_digits(port_str) && parse_u16_spec(port_str) is Some {
                    if host.contains(':') {
                        Ok((raw, None))
                    } else {
                        Ok((host, Some(parse_u16_spec(port_str).unwrap() as u16)))
                    }
                } else {
                    Ok((raw, None))
                }
            },
            None => Ok((raw, None)),
        }
    }
}

/// Whether `t` is the target `(host, port)`.
pub open spec fn is_target(t: ParsedTarget, v: (Seq<char>, Option<u16>)) -> bool {
    t.host@ == v.0 && t.port == v.1
}

/// Reads the command line's target.
pub fn parse_target(raw: &str) -> (r: Result<ParsedTarget, TargetError>)
    ensures
        match r {
            Ok(t) => target_spec(raw@) is Ok && is_target(t, target_spec(raw@)->Ok_0),
            Err(e) => target_spec(raw@) == Err::<(Seq<char>, Option<u16>), TargetError>(e),
        },
{
    let chars = chars_of(raw);
    let s = chars.as_slice();
    let ghost r = raw@;
    if s.len() > 0 && s[0] == '[' {
        let rest = slice_chars(s, 1, s.len());
        assert(rest@ == r.drop_first());
        match find_first(rest.as_slice(), ']') {
            None => Err(TargetError::MissingBracket),
            Some(k) => {
                let host = slice_chars(rest.as_slice(), 0, k);
                let after = slice_chars(rest.as_slice(), k + 1, rest.len());
                assert(host@ == rest@.take(k as int));
                assert(after@ == rest@.skip(k + 1));
                if after.len() == 0 {
                    return Ok(ParsedTarget { host: string_from_chars(host.as_slice()), port: None });
                }
                if after[0] != ':' {
                    return Err(TargetError::MissingPortColon);
                }
                let port_str = slice_chars(after.as_slice(), 1, after.len());
                assert(port_str@ == after@.drop_first());
                match parse_u16(port_str.as_slice()) {
                    Some(p) => Ok(
                        ParsedTarget { host: string_from_chars(host.as_slice()), port: Some(p) },
                    ),
                    None => Err(TargetError::InvalidPort),
                }
            },
        }
    } else {
        match find_last(s, ':') {
            Some(k) => {
                let host = slice_chars(s, 0, k);
                let port_str = slice_chars(s, k + 1, s.len());
                assert(host@ == r.take(k as int));
                assert(port_str@ == r.skip(k + 1));
                if host.len() > 0 && all_ascii_digits(port_str.as_slice()) {
                    if let Some(port) = parse_u16(port_str.as_slice()) {
                        if contains_char(host.as_slice(), ':') {
                            return Ok(ParsedTarget { host: string_from_chars(s), port: None });
                        }
                        return Ok(
                            ParsedTarget {
                                host: string_from_chars(host.as_slice()),
                                port: Some(port),
                            },
                        );
                    }
                }
                Ok(ParsedTarget { host: string_from_chars(s), port: None })
            },
            None => Ok(ParsedTarget { host: string_from_chars(s), port: None }),
        }
    }
}

// ---------------------------------------------------------------------------
// Laws
// ---------------------------------------------------------------------------

/// `host:port` with a host that holds no `:` (and does not start with `[`)
/// reads as that host and port.
pub proof fn lemma_host_port_target(host: Seq<char>, port: u16)
    requires
        host.len() > 0,
        host[0] != '[',
        !host.contains(':'),
    ensures
        target_spec(host + seq![':'] + decimal(port as nat)) == Ok::<
            (Seq<char>, Option<u16>),
            TargetError,
        >((host, Some(port))),
{
    let d = decimal(port as nat);
    let raw = host + seq![':'] + d;
    lemma_decimal_digits(port as nat);
    lemma_parse_decimal(port as nat, false, 0, u16::MAX as int);
    assert forall|j: int| host.len() < j < raw.len() implies raw[j] != ':' by {
        assert(raw[j] == d[j - host.len() - 1]);
        assert(is_digit(d[j - host.len() - 1]));
    }
    lemma_last_index(raw, ':', host.len() as int);
    assert(raw.take(host.len() as int) =~= host);
    assert(raw.skip(host.len() + 1 as int) =~= d);
    assert(raw[0] == host[0]);
}

/// A host without `:`, not starting with `[`, reads as itself with no port.
pub proof fn lemma_plain_host_target(host: Seq<char>)
    requires
        host.len() == 0 || host[0] != '[',
        !host.contains(':'),
    ensures
        target_spec(host) == Ok::<(Seq<char>, Option<u16>), TargetError>((host, None)),
{
    assert forall|j: int| -1 < j < host.len() implies host[j] != ':' by {
        if host[j] == ':' {
            assert(host.contains(':'));
        }
    }
    lemma_last_index(host, ':', -1);
}

/// `[addr]` and `[addr]:port`, with an address that holds no `]`, read as
/// that address, without and with the port.
pub proof fn lemma_bracket_target(addr: Seq<char>, port: u16)
    requires
        !addr.contains(']'),
    ensures
        target_spec(seq!['['] + addr + seq![']']) == Ok::<(Seq<char>, Option<u16>), TargetError>(
            (addr, None),
        ),
        target_spec(seq!['['] + addr + seq![']', ':'] + decimal(port as nat)) == Ok::<
            (Seq<char>, Option<u16>),
            TargetError,
        >((addr, Some(port))),
{
    let d = decimal(port as nat);
    lemma_parse_decimal(port as nat, false, 0, u16::MAX as int);
    let raw1 = seq!['['] + addr + seq![']'];
    let raw2 = seq!['['] + addr + seq![']', ':'] + d;
    let rest1 = raw1.drop_first();
    let rest2 = raw2.drop_first();
    assert(rest1 =~= addr + seq![']']);
    assert(rest2 =~= addr + seq![']', ':'] + d);
    assert forall|j: int| 0 <= j < addr.len() implies rest1[j] != ']' && rest2[j] != ']' by {
        assert(rest1[j] == addr[j]);
        assert(rest2[j] == addr[j]);
        if addr[j] == ']' {
            assert(addr.contains(']'));
        }
    }
    lemma_first_index(rest1, ']', addr.len() as int);
    lemma_first_index(rest2, ']', addr.len() as int);
    assert(rest1.take(addr.len() as int) =~= addr);
    assert(rest2.take(addr.len() as int) =~= addr);
    assert(rest1.skip(addr.len() + 1 as int) =~= Seq::<char>::empty());
    assert(rest2.skip(addr.len() + 1 as int) =~= seq![':'] + d);
    assert((seq![':'] + d).drop_first() =~= d);
}

} // verus!
