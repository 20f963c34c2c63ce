//! Choosing where to connect: the Java `_minecraft._tcp` SRV record, default
//! ports, and the host name sent in the Java handshake.
use vstd::prelude::*;

use crate::text::{chars_of, push_str_chars, slice_chars, string_from_chars};

verus! {

/// The Java Edition default port.
pub const JAVA_DEFAULT_PORT: u16 = 25565;

/// The Bedrock Edition default port.
pub const BEDROCK_DEFAULT_PORT: u16 = 19132;

/// The prefix of the Java SRV record name.
pub const SRV_PREFIX: &'static str = "_minecraft._tcp.";

/// An SRV record as the resolver returns it.
pub struct SrvRecord {
    pub priority: u16,
    pub weight: u16,
    pub port: u16,
    pub target: String,
}

/// The name whose SRV records point at a Java server for `host`.
pub fn srv_name(host: &str) -> (s: String)
    ensures
        s@ == SRV_PREFIX@ + host@,
{
    let mut out: Vec<char> = Vec::new();
    push_str_chars(&mut out, SRV_PREFIX);
    push_str_chars(&mut out, host);
    string_from_chars(out.as_slice())
}

/// Whether record `a` sorts before record `b`: lower priority, then lower
/// weight.
pub open spec fn sorts_before(a: SrvRecord, b: SrvRecord) -> bool {
    a.priority < b.priority || (a.priority == b.priority && a.weight < b.weight)
}

/// Whether `i` is the record that comes first when the records are sorted
/// stably by priority, then weight: nothing sorts before it, and every record
/// before it sorts after it.
pub open spec fn is_first_sorted(recs: Seq<SrvRecord>, i: int) -> bool {
    &&& 0 <= i < recs.len()
    &&& forall|j: int| 0 <= j < recs.len() ==> !sorts_before(#[trigger] recs[j], recs[i])
    &&& forall|j: int| 0 <= j < i ==> sorts_before(recs[i], #[trigger] recs[j])
}

/// The index of the record that a stable sort by priority, then weight,
/// puts first (`None` without records).
pub fn select_srv(records: &[SrvRecord]) -> (r: Option<usize>)
    ensures
        match r {
            Some(i) => is_first_sorted(records@, i as int),
            None => records@.len() == 0,
        },
{
    if records.len() == 0 {
        return None;
    }
    let mut best: usize = 0;
    let mut i: usize = 1;
    while i < records.len()
        invariant
            1 <= i <= records.len(),
            best < i,
            forall|j: int| 0 <= j < i ==> !sorts_before(#[trigger] records@[j], records@[best as int]),
            forall|j: int| 0 <= j < best ==> sorts_before(records@[best as int], #[trigger] records@[j]),
        decreases records.len() - i,
    {
        let a = &records[i];
        let b = &records[best];
        if a.priority < b.priority || (a.priority == b.priority && a.weight < b.weight) {
            best = i;
        }
        i = i + 1;
    }
    Some(best)
}

/// `s` without its trailing dots.
pub open spec fn trim_dots(s: Seq<char>) -> Seq<char>
    decreases s.len(),
{
    if s.len() > 0 && s.last() == '.' {
        trim_dots(s.drop_last())
    } else {
        s
    }
}

/// Removes the trailing dots of a host name.
pub fn trim_trailing_dots(s: &str) -> (r: String)
    ensures
        r@ == trim_dots(s@),
{
    let chars = chars_of(s);
    let mut end: usize = chars.len();
    assert(chars@.take(end as int) =~= chars@);
    while end > 0 && chars[end - 1] == '.'
        invariant
            0 <= end <= chars.len(),
            trim_dots(chars@) == trim_dots(chars@.take(end as int)),
        decreases end,
    {
        assert(chars@.take(end as int).drop_last() =~= chars@.take(end - 1));
        end = end - 1;
    }
    let kept = slice_chars(chars.as_slice(), 0, end);
    assert(kept@ =~= chars@.take(end as int));
    string_from_chars(kept.as_slice())
}

/// The host and port that the first sorted SRV record points at, the host
/// without its trailing dots.
pub fn srv_target(records: &[SrvRecord]) -> (r: Option<(String, u16)>)
    ensures
        match r {
            Some((host, port)) => exists|i: int|
                is_first_sorted(records@, i) && host@ == trim_dots(records@[i].target@) && port
                    == records@[i].port,
            None => records@.len() == 0,
        },
{
    match select_srv(records) {
        Some(i) => {
            let rec = &records[i];
            let host = trim_trailing_dots(rec.target.as_str());
            Some((host, rec.port))
        },
        None => None,
    }
}

/// Where to ping a Java server: the explicit port with the host as given;
/// else where the SRV record points (`srv`, the lookup's result, when it
/// found one); else the host on the default port.
pub fn java_endpoint(host: &str, explicit_port: Option<u16>, srv: Option<(String, u16)>) -> (r: (
    String,
    u16,
))
    ensures
        match explicit_port {
            Some(p) => r.0@ == host@ && r.1 == p,
            None => match srv {
                Some((t, p)) => r.0@ == t@ && r.1 == p,
                None => r.0@ == host@ && r.1 == JAVA_DEFAULT_PORT,
            },
        },
{
    match explicit_port {
        Some(p) => (string_from_chars(chars_of(host).as_slice()), p),
        None => match srv {
            Some((t, p)) => (t, p),
            None => (string_from_chars(chars_of(host).as_slice()), JAVA_DEFAULT_PORT),
        },
    }
}

/// The Bedrock port: the explicit one, else the default.
pub fn bedrock_port(explicit_port: Option<u16>) -> (p: u16)
    ensures
        p == match explicit_port {
            Some(q) => q,
            None => BEDROCK_DEFAULT_PORT,
        },
{
    match explicit_port {
        Some(q) => q,
        None => BEDROCK_DEFAULT_PORT,
    }
}

} // verus!
