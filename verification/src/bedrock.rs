//! Bedrock Edition RakNet unconnected ping: the ping packet, the pong's
//! layout, and the semicolon-separated server ID string it carries.
use vstd::prelude::*;

use crate::text::{chars_of, parse_i32, parse_i32_spec, parse_i64, parse_i64_spec, string_from_chars, utf8_string};
use crate::wire::{be_u16, be_u64, push_be_u64, push_bytes};

verus! {

/// The RakNet offline message magic.
pub const MAGIC: [u8; 16] = [
    0x00,
    0xff,
    0xff,
    0x00,
    0xfe,
    0xfe,
    0xfe,
    0xfe,
    0xfd,
    0xfd,
    0xfd,
    0xfd,
    0x12,
    0x34,
    0x56,
    0x78,
];

/// The GUID that the client sends in every ping.
pub const CLIENT_GUID: i64 = 0x0211_2233_4455_6677;

/// The packet id of an unconnected ping.
pub const UNCONNECTED_PING: u8 = 0x01;

/// The packet id of an unconnected pong.
pub const UNCONNECTED_PONG: u8 = 0x1c;

// ---------------------------------------------------------------------------
// Server ID string
// ---------------------------------------------------------------------------

/// The pieces of `s` between occurrences of `sep` (`str::split`): always at
/// least one piece.
pub open spec fn split_on(s: Seq<char>, sep: char) -> Seq<Seq<char>>
    decreases s.len(),
{
    if s.len() == 0 {
        seq![Seq::<char>::empty()]
    } else {
        let p = split_on(s.drop_last(), sep);
        if s.last() == sep {
            p.push(Seq::<char>::empty())
        } else {
            p.update(p.len() - 1, p.last().push(s.last()))
        }
    }
}

proof fn lemma_split_nonempty(s: Seq<char>, sep: char)
    ensures
        split_on(s, sep).len() >= 1,
    decreases s.len(),
{
    if s.len() > 0 {
        lemma_split_nonempty(s.drop_last(), sep);
    }
}

/// Field `i` of a server ID string (empty when there are fewer fields).
pub open spec fn server_field(s: Seq<char>, i: int) -> Seq<char> {
    let parts = split_on(s, ';');
    if 0 <= i < parts.len() {
        parts[i]
    } else {
        Seq::empty()
    }
}

/// A numeric field: its `i64` value, or 0 when it is not one.
pub open spec fn numeric_field(s: Seq<char>, i: int) -> int {
    match parse_i64_spec(server_field(s, i)) {
        Some(v) => v,
        None => 0,
    }
}

/// The fields of a Bedrock server ID string.
#[derive(Debug, Clone)]
pub struct BedrockId {
    pub edition: String,
    pub motd1: String,
    pub protocol: String,
    pub version: String,
    pub online: i64,
    pub max: i64,
    pub motd2: String,
    pub gamemode: String,
}

/// The server ID string `s` read as a `BedrockId`: fields 0 to 8 (field 6,
/// the server's unique id, is not kept).
pub open spec fn is_server_id_of(id: BedrockId, s: Seq<char>) -> bool {
    &&& id.edition@ == server_field(s, 0)
    &&& id.motd1@ == server_field(s, 1)
    &&& id.protocol@ == server_field(s, 2)
    &&& id.version@ == server_field(s, 3)
    &&& id.online == numeric_field(s, 4)
    &&& id.max == numeric_field(s, 5)
    &&& id.motd2@ == server_field(s, 7)
    &&& id.gamemode@ == server_field(s, 8)
}

/// Splits the characters `s` on `;`.
fn split_fields(s: &[char]) -> (parts: Vec<Vec<char>>)
    ensures
        parts@.len() == split_on(s@, ';').len(),
        forall|j: int| 0 <= j < parts@.len() ==> (#[trigger] parts@[j])@ == split_on(s@, ';')[j],
{
    let mut parts: Vec<Vec<char>> = Vec::new();
    let mut cur: Vec<char> = Vec::new();
    let mut i: usize = 0;
    proof {
        lemma_split_nonempty(s@.take(0), ';');
        assert(s@.take(0) =~= Seq::<char>::empty());
    }
    while i < s.len()
        invariant
            0 <= i <= s.len(),
            parts@.len() + 1 == split_on(s@.take(i as int), ';').len(),
            forall|j: int|
                0 <= j < parts@.len() ==> (#[trigger] parts@[j])@ == split_on(
                    s@.take(i as int),
                    ';',
                )[j],
            cur@ == split_on(s@.take(i as int), ';').last(),
        decreases s.len() - i,
    {
        let c = s[i];
        let ghost prefix = s@.take(i + 1);
        assert(prefix.drop_last() =~= s@.take(i as int));
        assert(prefix.last() == c);
        proof {
            lemma_split_nonempty(s@.take(i as int), ';');
        }
        if c == ';' {
            let done = cur;
            parts.push(done);
            cur = Vec::new();
            assert(cur@ =~= Seq::<char>::empty());
        } else {
            cur.push(c);
        }
        i = i + 1;
    }
    assert(s@.take(s.len() as int) =~= s@);
    parts.push(cur);
    parts
}

fn field_string(parts: &Vec<Vec<char>>, i: usize) -> (r: Vec<char>)
    ensures
        r@ == (if i < parts@.len() {
            parts@[i as int]@
        } else {
            Seq::empty()
        }),
{
    if i < parts.len() {
        parts[i].clone()
    } else {
        Vec::new()
    }
}

/// Reads a semicolon-separated Bedrock server ID string.
pub fn parse_server_id(s: &str) -> (id: BedrockId)
    ensures
        is_server_id_of(id, s@),
{
    let chars = chars_of(s);
    let parts = split_fields(chars.as_slice());
    let online_field = field_string(&parts, 4);
    let max_field = field_string(&parts, 5);
    let online = match parse_i64(online_field.as_slice()) {
        Some(v) => v,
        None => 0,
    };
    let max = match parse_i64(max_field.as_slice()) {
        Some(v) => v,
        None => 0,
    };
    BedrockId {
        edition: string_from_chars(field_string(&parts, 0).as_slice()),
        motd1: string_from_chars(field_string(&parts, 1).as_slice()),
        protocol: string_from_chars(field_string(&parts, 2).as_slice()),
        version: string_from_chars(field_string(&parts, 3).as_slice()),
        online,
        max,
        motd2: string_from_chars(field_string(&parts, 7).as_slice()),
        gamemode: string_from_chars(field_string(&parts, 8).as_slice()),
    }
}

// ---------------------------------------------------------------------------
// Ping and pong
// ---------------------------------------------------------------------------

/// The unconnected ping sent at `time` (milliseconds): the packet id, the
/// time and the client GUID as big-endian 64-bit values around the magic.
pub open spec fn unconnected_ping_bytes(time: i64) -> Seq<u8> {
    seq![UNCONNECTED_PING] + be_u64(time as u64) + MAGIC@ + be_u64(CLIENT_GUID as u64)
}

/// The unconnected ping packet for `time`.
pub fn unconnected_ping(time: i64) -> (pkt: Vec<u8>)
    ensures
        pkt@ == unconnected_ping_bytes(time),
{
    let mut pkt: Vec<u8> = Vec::new();
    pkt.push(UNCONNECTED_PING);
    push_be_u64(&mut pkt, time as u64);
    let magic = MAGIC;
    push_bytes(&mut pkt, magic.as_slice());
    push_be_u64(&mut pkt, CLIENT_GUID as u64);
    assert(pkt@ =~= unconnected_ping_bytes(time));
    pkt
}

/// What is wrong with a reply that is not a well-formed unconnected pong.
#[derive(PartialEq, Eq, Structural, Debug, Clone, Copy)]
pub enum BedrockError {
    /// The reply does not start with `0x1c` (carries its first byte, 0 when
    /// the reply is empty).
    UnexpectedPacket(u8),
    /// The reply is shorter than the 35 bytes before the ID string (carries
    /// its length).
    TooShort(usize),
    /// The magic is not where it belongs.
    MagicMismatch,
    /// The ID string is longer than the reply holds.
    IdTruncated,
    /// The ID string is not valid UTF-8.
    IdNotUtf8,
}

/// Where the magic starts in a pong: after the id, the time and the server
/// GUID.
pub open spec fn magic_start() -> int {
    17
}

/// The server ID string that an unconnected pong carries: `0x1c`, time (8),
/// server GUID (8), magic (16), the string's byte length (big-endian 16
/// bits), then the string as UTF-8.
pub open spec fn pong_server_id(data: Seq<u8>) -> Result<Seq<char>, BedrockError> {
    if data.len() == 0 {
        Err(BedrockError::UnexpectedPacket(0))
    } else if data[0] != UNCONNECTED_PONG {
        Err(BedrockError::UnexpectedPacket(data[0]))
    } else if data.len() < 35 {
        Err(BedrockError::TooShort(data.len() as usize))
    } else if data.subrange(17, 33) != MAGIC@ {
        Err(BedrockError::MagicMismatch)
    } else {
        let len = data[33] as int * 256 + data[34] as int;
        if 35 + len > data.len() {
            Err(BedrockError::IdTruncated)
        } else {
            let bytes = data.subrange(35, 35 + len);
            if vstd::utf8::valid_utf8(bytes) {
                Ok(vstd::utf8::decode_utf8(bytes))
            } else {
                Err(BedrockError::IdNotUtf8)
            }
        }
    }
}

fn magic_matches(data: &[u8]) -> (r: bool)
    requires
        data@.len() >= 33,
    ensures
        r == (data@.subrange(17, 33) == MAGIC@),
{
    let magic = MAGIC;
    let mut i: usize = 0;
    while i < 16
        invariant
            data@.len() >= 33,
            magic@ == MAGIC@,
            0 <= i <= 16,
            forall|j: int| 0 <= j < i ==> data@[17 + j] == magic@[j],
        decreases 16 - i,
    {
        if data[17 + i] != magic[i] {
            assert(data@.subrange(17, 33)[i as int] != MAGIC@[i as int]);
            return false;
        }
        i = i + 1;
    }
    assert(data@.subrange(17, 33) =~= MAGIC@);
    true
}

/// Reads the server ID string out of an unconnected pong.
pub fn parse_pong(data: &[u8]) -> (r: Result<String, BedrockError>)
    ensures
        match r {
            Ok(s) => pong_server_id(data@) == Ok::<Seq<char>, BedrockError>(s@),
            Err(e) => pong_server_id(data@) == Err::<Seq<char>, BedrockError>(e),
        },
{
    if data.len() == 0 {
        return Err(BedrockError::UnexpectedPacket(0));
    }
    if data[0] != UNCONNECTED_PONG {
        return Err(BedrockError::UnexpectedPacket(data[0]));
    }
    if data.len() < 35 {
        return Err(BedrockError::TooShort(data.len()));
    }
    if !magic_matches(data) {
        return Err(BedrockError::MagicMismatch);
    }
    let len = (data[33] as usize) * 256 + (data[34] as usize);
    if 35 + len > data.len() {
        return Err(BedrockError::IdTruncated);
    }
    let mut bytes: Vec<u8> = Vec::new();
    let mut i: usize = 35;
    while i < 35 + len
        invariant
            35 + len <= data.len(),
            35 <= i <= 35 + len,
            bytes@ == data@.subrange(35, i as int),
        decreases 35 + len - i,
    {
        bytes.push(data[i]);
        i = i + 1;
        assert(bytes@ =~= data@.subrange(35, i as int));
    }
    match utf8_string(bytes.as_slice()) {
        Some(s) => Ok(s),
        None => Err(BedrockError::IdNotUtf8),
    }
}

/// What a pong tells of a Bedrock server.
pub struct BedrockStatus {
    pub players_online: i64,
    pub players_max: i64,
    pub version: String,
    pub protocol: Option<i32>,
    pub motd: String,
    pub motd2: Option<String>,
    pub gamemode: Option<String>,
    pub edition_name: Option<String>,
}

/// `Some(s)` for a non-empty `s`, else `None`.
pub open spec fn non_empty(s: Seq<char>) -> Option<Seq<char>> {
    if s.len() == 0 {
        None
    } else {
        Some(s)
    }
}

/// The view of an optional string.
pub open spec fn opt_view(s: Option<String>) -> Option<Seq<char>> {
    match s {
        Some(t) => Some(t@),
        None => None,
    }
}

/// The view of an optional `i32`, as an integer.
pub open spec fn opt_int(v: Option<i32>) -> Option<int> {
    match v {
        Some(x) => Some(x as int),
        None => None,
    }
}

/// The status described by a server ID: the counts, the version, the
/// protocol when it is an `i32`, the first MOTD line, and the second MOTD
/// line, game mode and edition when they are not empty.
pub open spec fn status_of(id: BedrockId, st: BedrockStatus) -> bool {
    &&& st.players_online == id.online
    &&& st.players_max == id.max
    &&& st.version@ == id.version@
    &&& opt_int(st.protocol) == parse_i32_spec(id.protocol@)
    &&& st.motd@ == id.motd1@
    &&& opt_view(st.motd2) == non_empty(id.motd2@)
    &&& opt_view(st.gamemode) == non_empty(id.gamemode@)
    &&& opt_view(st.edition_name) == non_empty(id.edition@)
}

fn non_empty_string(s: String) -> (r: Option<String>)
    ensures
        opt_view(r) == non_empty(s@),
{
    if s.as_str().is_empty() {
        None
    } else {
        Some(s)
    }
}

/// The status that a server ID describes.
pub fn bedrock_status(id: BedrockId) -> (st: BedrockStatus)
    ensures
        status_of(id, st),
{
    let protocol_chars = chars_of(id.protocol.as_str());
    let protocol = parse_i32(protocol_chars.as_slice());
    BedrockStatus {
        players_online: id.online,
        players_max: id.max,
        version: id.version,
        protocol,
        motd: id.motd1,
        motd2: non_empty_string(id.motd2),
        gamemode: non_empty_string(id.gamemode),
        edition_name: non_empty_string(id.edition),
    }
}

/// The status that the server ID string `s` describes.
pub open spec fn status_of_id_string(s: Seq<char>, st: BedrockStatus) -> bool {
    &&& st.players_online == numeric_field(s, 4)
    &&& st.players_max == numeric_field(s, 5)
    &&& st.version@ == server_field(s, 3)
    &&& opt_int(st.protocol) == parse_i32_spec(server_field(s, 2))
    &&& st.motd@ == server_field(s, 1)
    &&& opt_view(st.motd2) == non_empty(server_field(s, 7))
    &&& opt_view(st.gamemode) == non_empty(server_field(s, 8))
    &&& opt_view(st.edition_name) == non_empty(server_field(s, 0))
}

/// Reads an unconnected pong: the status that its server ID string describes.
pub fn read_pong(data: &[u8]) -> (r: Result<BedrockStatus, BedrockError>)
    ensures
        match r {
            Ok(st) => pong_server_id(data@) is Ok && status_of_id_string(
                pong_server_id(data@)->Ok_0,
                st,
            ),
            Err(e) => pong_server_id(data@) == Err::<Seq<char>, BedrockError>(e),
        },
{
    let s = parse_pong(data)?;
    let id = parse_server_id(s.as_str());
    let st = bedrock_status(id);
    Ok(st)
}

// ---------------------------------------------------------------------------
// Laws
// ---------------------------------------------------------------------------

/// Fields joined with `;` between them.
pub open spec fn join_fields(f: Seq<Seq<char>>) -> Seq<char>
    decreases f.len(),
{
    if f.len() == 0 {
        Seq::empty()
    } else if f.len() == 1 {
        f[0]
    } else {
        join_fields(f.drop_last()) + seq![';'] + f.last()
    }
}

/// Whether `s` holds no `;`.
pub open spec fn no_separator(s: Seq<char>) -> bool {
    forall|j: int| 0 <= j < s.len() ==> #[trigger] s[j] != ';'
}

proof fn lemma_split_append_plain(x: Seq<char>, b: Seq<char>)
    requires
        no_separator(b),
    ensures
        split_on(x + b, ';') == split_on(x, ';').update(
            split_on(x, ';').len() - 1,
            split_on(x, ';').last() + b,
        ),
    decreases b.len(),
{
    lemma_split_nonempty(x, ';');
    let p = split_on(x, ';');
    if b.len() == 0 {
        assert(x + b =~= x);
        assert(p.last() + b =~= p.last());
        assert(p.update(p.len() - 1, p.last()) =~= p);
    } else {
        let bl = b.drop_last();
        assert(b[b.len() - 1] != ';');
        assert forall|j: int| 0 <= j < bl.len() implies #[trigger] bl[j] != ';' by {
            assert(bl[j] == b[j]);
        }
        lemma_split_append_plain(x, bl);
        assert((x + b).drop_last() =~= x + bl);
        assert((x + b).last() == b.last());
        let q = p.update(p.len() - 1, p.last() + bl);
        assert(q.last() == p.last() + bl);
        assert((p.last() + bl).push(b.last()) =~= p.last() + b);
        assert(q.update(q.len() - 1, q.last().push(b.last())) =~= p.update(
            p.len() - 1,
            p.last() + b,
        ));
    }
}

proof fn lemma_split_join(f: Seq<Seq<char>>)
    requires
        f.len() >= 1,
        forall|i: int| 0 <= i < f.len() ==> no_separator(#[trigger] f[i]),
    ensures
        split_on(join_fields(f), ';') == f,
    decreases f.len(),
{
    if f.len() == 1 {
        let e = Seq::<char>::empty();
        lemma_split_append_plain(e, f[0]);
        assert(e + f[0] =~= f[0]);
        assert(split_on(e, ';') == seq![e]);
        assert(seq![e].update(0, e + f[0]) =~= f);
    } else {
        let init = f.drop_last();
        assert forall|i: int| 0 <= i < init.len() implies no_separator(#[trigger] init[i]) by {
            assert(init[i] == f[i]);
        }
        lemma_split_join(init);
        let x = join_fields(init) + seq![';'];
        assert(x.drop_last() =~= join_fields(init));
        assert(split_on(x, ';') == init.push(Seq::<char>::empty()));
        assert(no_separator(f[f.len() - 1]));
        lemma_split_append_plain(x, f.last());
        let p = init.push(Seq::<char>::empty());
        assert(p.last() + f.last() =~= f.last());
        assert(p.update(p.len() - 1, f.last()) =~= f);
    }
}

/// The fields of a server ID string built by joining fields that hold no `;`
/// read back as those fields, and fields past the last read as empty.
pub proof fn lemma_server_fields_roundtrip(f: Seq<Seq<char>>, i: int)
    requires
        f.len() >= 1,
        forall|k: int| 0 <= k < f.len() ==> no_separator(#[trigger] f[k]),
    ensures
        0 <= i < f.len() ==> server_field(join_fields(f), i) == f[i],
        f.len() <= i ==> server_field(join_fields(f), i) == Seq::<char>::empty(),
{
    lemma_split_join(f);
}

proof fn lemma_split_no_separator(s: Seq<char>)
    ensures
        forall|i: int|
            0 <= i < split_on(s, ';').len() ==> no_separator(#[trigger] split_on(s, ';')[i]),
    decreases s.len(),
{
    if s.len() > 0 {
        lemma_split_no_separator(s.drop_last());
        lemma_split_nonempty(s.drop_last(), ';');
        let p = split_on(s.drop_last(), ';');
        if s.last() != ';' {
            let q = p.last().push(s.last());
            assert(no_separator(p[p.len() - 1]));
            assert forall|j: int| 0 <= j < q.len() implies #[trigger] q[j] != ';' by {
                if j < p.last().len() {
                    assert(q[j] == p.last()[j]);
                }
            }
            assert forall|i: int| 0 <= i < split_on(s, ';').len() implies no_separator(
                #[trigger] split_on(s, ';')[i],
            ) by {
                if i < p.len() - 1 {
                    assert(split_on(s, ';')[i] == p[i]);
                }
            }
        } else {
            assert forall|i: int| 0 <= i < split_on(s, ';').len() implies no_separator(
                #[trigger] split_on(s, ';')[i],
            ) by {
                if i < p.len() {
                    assert(split_on(s, ';')[i] == p[i]);
                }
            }
        }
    }
}

/// No field of a server ID string holds a `;`.
pub proof fn lemma_server_field_plain(s: Seq<char>, i: int)
    ensures
        no_separator(server_field(s, i)),
{
    lemma_split_no_separator(s);
}

/// Whether two server ID strings agree on every field that is read (all but
/// field 6, the server's unique id, and the fields after 8).
pub open spec fn same_kept_fields(s1: Seq<char>, s2: Seq<char>) -> bool {
    forall|i: int|
        0 <= i <= 8 && i != 6 ==> #[trigger] server_field(s1, i) == server_field(s2, i)
}

/// Server ID strings that agree on the fields that are read give the same
/// `BedrockId`, field by field, and no string field of it holds a `;`.
pub proof fn lemma_server_id_kept_fields(s1: Seq<char>, s2: Seq<char>, id1: BedrockId, id2: BedrockId)
    requires
        is_server_id_of(id1, s1),
        is_server_id_of(id2, s2),
        same_kept_fields(s1, s2),
    ensures
        id1.edition@ == id2.edition@,
        id1.motd1@ == id2.motd1@,
        id1.protocol@ == id2.protocol@,
        id1.version@ == id2.version@,
        id1.online == id2.online,
        id1.max == id2.max,
        id1.motd2@ == id2.motd2@,
        id1.gamemode@ == id2.gamemode@,
        no_separator(id1.edition@) && no_separator(id1.motd1@) && no_separator(id1.protocol@)
            && no_separator(id1.version@) && no_separator(id1.motd2@) && no_separator(
            id1.gamemode@,
        ),
{
    assert(server_field(s1, 0) == server_field(s2, 0));
    assert(server_field(s1, 1) == server_field(s2, 1));
    assert(server_field(s1, 2) == server_field(s2, 2));
    assert(server_field(s1, 3) == server_field(s2, 3));
    assert(server_field(s1, 4) == server_field(s2, 4));
    assert(server_field(s1, 5) == server_field(s2, 5));
    assert(server_field(s1, 7) == server_field(s2, 7));
    assert(server_field(s1, 8) == server_field(s2, 8));
    lemma_split_no_separator(s1);
}

/// An unconnected pong carrying the server ID string `id`.
pub open spec fn pong_bytes(time: u64, server_guid: u64, id: Seq<char>) -> Seq<u8> {
    let bytes = vstd::utf8::encode_utf8(id);
    seq![UNCONNECTED_PONG] + be_u64(time) + be_u64(server_guid) + MAGIC@ + be_u16(
        bytes.len() as u16,
    ) + bytes
}

/// A well-formed pong yields the server ID string that it carries.
pub proof fn lemma_pong_roundtrip(time: u64, server_guid: u64, id: Seq<char>)
    requires
        vstd::utf8::encode_utf8(id).len() <= u16::MAX,
    ensures
        pong_server_id(pong_bytes(time, server_guid, id)) == Ok::<Seq<char>, BedrockError>(id),
{
    let bytes = vstd::utf8::encode_utf8(id);
    let d = pong_bytes(time, server_guid, id);
    let n = bytes.len() as u16;
    assert(d.subrange(17, 33) =~= MAGIC@);
    assert(d[33] == (n / 256) as u8);
    assert(d[34] == (n % 256) as u8);
    assert(d[33] as int * 256 + d[34] as int == bytes.len());
    assert(d.subrange(35, 35 + bytes.len() as int) =~= bytes);
    vstd::utf8::encode_utf8_valid_utf8(id);
    vstd::utf8::encode_utf8_decode_utf8(id);
}

} // verus!
