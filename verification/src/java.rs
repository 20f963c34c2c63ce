//! Java Edition Server List Ping: packet framing, the handshake, status and
//! ping packets, and reading the server's replies.
use vstd::prelude::*;

use crate::varint::{
    VarIntRead, lemma_varint_len, lemma_varint_roundtrip, read_varint_from, varint_of, varint_read,
    write_varint,
};
use crate::chat::{ChatValue, extract_motd, motd_text};
use crate::icon::{data_url_bytes, decode_png};
use crate::text::{chars_of, string_from_chars, utf8_string};
use crate::wire::{be_u16, be_u64, push_be_u16, push_be_u64, push_bytes};

verus! {

/// Protocol version sent in the handshake (accepted by 1.7+ status endpoints).
pub const PROTOCOL_VERSION: i32 = 772;

/// The largest packet length that is read (2 MiB).
pub const MAX_PACKET_LEN: i32 = 2097152;

/// What goes wrong while reading the server's packets.
#[derive(PartialEq, Eq, Structural, Debug, Clone, Copy)]
pub enum JavaError {
    /// The bytes ended inside a VarInt or inside a packet body.
    Truncated,
    /// A VarInt ran past five bytes.
    VarIntTooLong,
    /// A packet length of zero, or above `MAX_PACKET_LEN` (negative lengths
    /// count as above it).
    InvalidLength(i32),
    /// The status response came with another packet id than `0x00`.
    UnexpectedStatusId(i32),
    /// The status JSON is longer than the packet holds.
    StatusJsonTruncated,
    /// The status JSON is not valid UTF-8.
    StatusJsonNotUtf8,
    /// The pong came with another packet id than `0x01`.
    UnexpectedPongId(i32),
}

// ---------------------------------------------------------------------------
// Writing
// ---------------------------------------------------------------------------

/// A packet on the wire: the VarInt length of what follows, then the VarInt
/// packet id and the payload.
pub open spec fn packet_bytes(packet_id: i32, payload: Seq<u8>) -> Seq<u8> {
    let inner = varint_of(packet_id) + payload;
    varint_of(inner.len() as i32) + inner
}

/// A protocol string: its UTF-8 length as a VarInt, then its UTF-8 bytes.
pub open spec fn string_bytes(s: Seq<char>) -> Seq<u8> {
    let bytes = vstd::utf8::encode_utf8(s);
    varint_of(bytes.len() as i32) + bytes
}

/// The handshake payload: protocol version, server host, server port and the
/// next state (1, status).
pub open spec fn handshake_payload_bytes(host: Seq<char>, port: u16) -> Seq<u8> {
    varint_of(PROTOCOL_VERSION) + string_bytes(host) + be_u16(port) + varint_of(1)
}

/// Frames `payload` as the packet `packet_id`.
pub fn write_packet(packet_id: i32, payload: &[u8]) -> (frame: Vec<u8>)
    ensures
        frame@ == packet_bytes(packet_id, payload@),
{
    let mut inner: Vec<u8> = Vec::new();
    write_varint(&mut inner, packet_id);
    push_bytes(&mut inner, payload);
    let mut frame: Vec<u8> = Vec::new();
    write_varint(&mut frame, inner.len() as i32);
    push_bytes(&mut frame, inner.as_slice());
    assert(frame@ =~= packet_bytes(packet_id, payload@));
    frame
}

/// Appends the protocol string `s` to `buf`.
pub fn write_string(buf: &mut Vec<u8>, s: &str)
    ensures
        final(buf)@ == old(buf)@ + string_bytes(s@),
{
    let bytes = s.as_bytes();
    write_varint(buf, bytes.len() as i32);
    push_bytes(buf, bytes);
    assert(buf@ =~= old(buf)@ + string_bytes(s@));
}

/// The handshake payload for `host` and `port`.
pub fn handshake_payload(host: &str, port: u16) -> (hs: Vec<u8>)
    ensures
        hs@ == handshake_payload_bytes(host@, port),
{
    let mut hs: Vec<u8> = Vec::new();
    write_varint(&mut hs, PROTOCOL_VERSION);
    write_string(&mut hs, host);
    push_be_u16(&mut hs, port);
    write_varint(&mut hs, 1);
    assert(hs@ =~= handshake_payload_bytes(host@, port));
    hs
}

/// The handshake packet (id `0x00`) for `host` and `port`.
pub fn handshake_packet(host: &str, port: u16) -> (frame: Vec<u8>)
    ensures
        frame@ == packet_bytes(0, handshake_payload_bytes(host@, port)),
{
    let hs = handshake_payload(host, port);
    write_packet(0, hs.as_slice())
}

/// The status request packet (id `0x00`, empty payload).
pub fn status_request_packet() -> (frame: Vec<u8>)
    ensures
        frame@ == packet_bytes(0, Seq::<u8>::empty()),
{
    let empty: Vec<u8> = Vec::new();
    write_packet(0, empty.as_slice())
}

/// The ping request packet (id `0x01`) carrying `timestamp` as eight
/// big-endian bytes.
pub fn ping_request_packet(timestamp: i64) -> (frame: Vec<u8>)
    ensures
        frame@ == packet_bytes(1, be_u64(timestamp as u64)),
{
    let mut payload: Vec<u8> = Vec::new();
    push_be_u64(&mut payload, timestamp as u64);
    write_packet(1, payload.as_slice())
}

// ---------------------------------------------------------------------------
// Reading
// ---------------------------------------------------------------------------

/// A packet length is accepted when it is positive and at most 2 MiB.
pub open spec fn length_ok(len: i32) -> bool {
    0 < len && len <= MAX_PACKET_LEN
}

/// Checks a packet length read from the wire.
pub fn packet_length(len: i32) -> (r: Result<usize, JavaError>)
    ensures
        length_ok(len) ==> r == Ok::<usize, JavaError>(len as usize),
        !length_ok(len) ==> r == Err::<usize, JavaError>(JavaError::InvalidLength(len)),
{
    if 0 < len && len <= MAX_PACKET_LEN {
        Ok(len as usize)
    } else {
        Err(JavaError::InvalidLength(len))
    }
}

/// A packet body: its VarInt packet id, then the payload.
pub open spec fn split_body_spec(body: Seq<u8>) -> Result<(i32, Seq<u8>), JavaError> {
    match varint_read(body) {
        VarIntRead::Value(id, n) => Ok((id, body.subrange(n as int, body.len() as int))),
        VarIntRead::Truncated => Err(JavaError::Truncated),
        VarIntRead::TooLong => Err(JavaError::VarIntTooLong),
    }
}

/// Splits a packet body into its packet id and payload.
pub fn split_packet_body(body: &[u8]) -> (r: Result<(i32, Vec<u8>), JavaError>)
    ensures
        match r {
            Ok((id, payload)) => split_body_spec(body@) == Ok::<(i32, Seq<u8>), JavaError>(
                (id, payload@),
            ),
            Err(e) => split_body_spec(body@) == Err::<(i32, Seq<u8>), JavaError>(e),
        },
{
    match read_varint_from(body) {
        VarIntRead::Value(id, n) => {
            let payload = slice_bytes(body, n, body.len());
            Ok((id, payload))
        },
        VarIntRead::Truncated => Err(JavaError::Truncated),
        VarIntRead::TooLong => Err(JavaError::VarIntTooLong),
    }
}

/// The bytes `v[start..end]`.
pub fn slice_bytes(v: &[u8], start: usize, end: usize) -> (r: Vec<u8>)
    requires
        start <= end <= v.len(),
    ensures
        r@ == v@.subrange(start as int, end as int),
{
    let mut r: Vec<u8> = Vec::new();
    let mut i: usize = start;
    while i < end
        invariant
            start <= i <= end <= v.len(),
            r@ == v@.subrange(start as int, i as int),
        decreases end - i,
    {
        r.push(v[i]);
        i = i + 1;
        assert(v@.subrange(start as int, i as int) == v@.subrange(start as int, i - 1).push(
            v@[i - 1],
        ));
    }
    r
}

/// Reading one packet from the front of `s`: its length, the checks on the
/// length, then the body's packet id and payload, and the number of bytes
/// the packet took.
pub open spec fn read_packet_spec(s: Seq<u8>) -> Result<(i32, Seq<u8>, nat), JavaError> {
    match varint_read(s) {
        VarIntRead::Value(len, n) => {
            if !length_ok(len) {
                Err(JavaError::InvalidLength(len))
            } else if s.len() < n + len {
                Err(JavaError::Truncated)
            } else {
                match split_body_spec(s.subrange(n as int, n + len)) {
                    Ok((id, payload)) => Ok((id, payload, (n + len) as nat)),
                    Err(e) => Err(e),
                }
            }
        },
        VarIntRead::Truncated => Err(JavaError::Truncated),
        VarIntRead::TooLong => Err(JavaError::VarIntTooLong),
    }
}

/// Reads one packet from the front of `bytes`: its id, its payload and the
/// number of bytes it took.
pub fn read_packet(bytes: &[u8]) -> (r: Result<(i32, Vec<u8>, usize), JavaError>)
    ensures
        match r {
            Ok((id, payload, n)) => read_packet_spec(bytes@) == Ok::<
                (i32, Seq<u8>, nat),
                JavaError,
            >((id, payload@, n as nat)),
            Err(e) => read_packet_spec(bytes@) == Err::<(i32, Seq<u8>, nat), JavaError>(e),
        },
{
    match read_varint_from(bytes) {
        VarIntRead::Value(len, n) => {
            let body_len = packet_length(len)?;
            if bytes.len() - n < body_len {
                return Err(JavaError::Truncated);
            }
            let body = slice_bytes(bytes, n, n + body_len);
            let (id, payload) = split_packet_body(body.as_slice())?;
            Ok((id, payload, n + body_len))
        },
        VarIntRead::Truncated => Err(JavaError::Truncated),
        VarIntRead::TooLong => Err(JavaError::VarIntTooLong),
    }
}

/// Whether the status JSON length of `payload`, added to where the JSON
/// starts, overflows `usize` (a negative length just below zero does): the
/// status response cannot be read then.
pub open spec fn status_length_wraps_spec(payload: Seq<u8>) -> bool {
    match varint_read(payload) {
        VarIntRead::Value(len, n) => n + (len as usize) > usize::MAX,
        _ => false,
    }
}

/// Whether `status_length_wraps_spec` holds of `payload`.
pub fn status_length_wraps(payload: &[u8]) -> (r: bool)
    ensures
        r == status_length_wraps_spec(payload@),
{
    match read_varint_from(payload) {
        VarIntRead::Value(len, n) => {
            let json_len = len as usize;
            json_len > usize::MAX - n
        },
        _ => false,
    }
}

/// The status JSON text carried by the status response with packet id `id`
/// and payload `payload`: the id must be `0x00`; the payload holds the JSON's
/// byte length as a VarInt, then the JSON as UTF-8.
pub open spec fn status_json_spec(id: i32, payload: Seq<u8>) -> Result<Seq<char>, JavaError> {
    if id != 0 {
        Err(JavaError::UnexpectedStatusId(id))
    } else {
        match varint_read(payload) {
            VarIntRead::Value(len, n) => {
                let end = n + (len as usize);
                if end > payload.len() {
                    Err(JavaError::StatusJsonTruncated)
                } else {
                    let bytes = payload.subrange(n as int, end);
                    if vstd::utf8::valid_utf8(bytes) {
                        Ok(vstd::utf8::decode_utf8(bytes))
                    } else {
                        Err(JavaError::StatusJsonNotUtf8)
                    }
                }
            },
            VarIntRead::Truncated => Err(JavaError::Truncated),
            VarIntRead::TooLong => Err(JavaError::VarIntTooLong),
        }
    }
}

/// Reads the status JSON out of the status response packet `id`/`payload`.
pub fn status_json(id: i32, payload: &[u8]) -> (r: Result<String, JavaError>)
    requires
        id == 0 ==> !status_length_wraps_spec(payload@),
    ensures
        match r {
            Ok(s) => status_json_spec(id, payload@) == Ok::<Seq<char>, JavaError>(s@),
            Err(e) => status_json_spec(id, payload@) == Err::<Seq<char>, JavaError>(e),
        },
{
    if id != 0 {
        return Err(JavaError::UnexpectedStatusId(id));
    }
    match read_varint_from(payload) {
        VarIntRead::Value(len, n) => {
            let end = n + (len as usize);
            if end > payload.len() {
                return Err(JavaError::StatusJsonTruncated);
            }
            let bytes = slice_bytes(payload, n, end);
            match utf8_string(bytes.as_slice()) {
                Some(s) => Ok(s),
                None => Err(JavaError::StatusJsonNotUtf8),
            }
        },
        VarIntRead::Truncated => Err(JavaError::Truncated),
        VarIntRead::TooLong => Err(JavaError::VarIntTooLong),
    }
}

/// Checks the packet id of the pong.
pub fn check_pong(id: i32) -> (r: Result<(), JavaError>)
    ensures
        r == (if id == 1 {
            Ok::<(), JavaError>(())
        } else {
            Err(JavaError::UnexpectedPongId(id))
        }),
{
    if id == 1 {
        Ok(())
    } else {
        Err(JavaError::UnexpectedPongId(id))
    }
}

// ---------------------------------------------------------------------------
// The status JSON
// ---------------------------------------------------------------------------

/// The `version` object of the status JSON.
pub struct StatusVersion {
    pub name: Option<String>,
    pub protocol: Option<i32>,
}

/// The `players` object of the status JSON.
pub struct StatusPlayers {
    pub online: Option<i64>,
    pub max: Option<i64>,
}

/// The status JSON: what the ping reads of it.
pub struct StatusResponse {
    pub version: Option<StatusVersion>,
    pub players: Option<StatusPlayers>,
    pub description: Option<ChatValue>,
    pub favicon: Option<String>,
}

/// What a status response tells of a Java server.
pub struct JavaStatus {
    pub version: String,
    pub protocol: Option<i32>,
    pub players_online: Option<i64>,
    pub players_max: Option<i64>,
    pub motd: String,
    pub favicon: Option<Vec<u8>>,
}

/// The PNG bytes of a favicon `data:` URL (`None` when it is not one).
pub fn decode_favicon(data_url: &str) -> (r: Option<Vec<u8>>)
    ensures
        match r {
            Some(v) => data_url_bytes(data_url@) == Some(v@),
            None => data_url_bytes(data_url@) is None,
        },
{
    match decode_png(data_url) {
        Ok(v) => Some(v),
        Err(()) => None,
    }
}

/// The version name of a status (`?` when it has none).
pub open spec fn version_text(status: StatusResponse) -> Seq<char> {
    match status.version {
        Some(v) => match v.name {
            Some(n) => n@,
            None => "?"@,
        },
        None => "?"@,
    }
}

/// The favicon bytes of a status: its `data:` URL decoded, when it has one
/// that decodes.
pub open spec fn favicon_bytes(status: StatusResponse) -> Option<Seq<u8>> {
    match status.favicon {
        Some(f) => data_url_bytes(f@),
        None => None,
    }
}

/// The view of optional bytes.
pub open spec fn opt_bytes(v: Option<Vec<u8>>) -> Option<Seq<u8>> {
    match v {
        Some(b) => Some(b@),
        None => None,
    }
}

/// The summary of a status response: version name (or `?`), protocol,
/// player counts, MOTD as legacy text, and favicon bytes.
pub open spec fn status_summary(status: StatusResponse, st: JavaStatus) -> bool {
    &&& st.version@ == version_text(status)
    &&& st.protocol == (match status.version {
        Some(v) => v.protocol,
        None => None,
    })
    &&& st.players_online == (match status.players {
        Some(p) => p.online,
        None => None,
    })
    &&& st.players_max == (match status.players {
        Some(p) => p.max,
        None => None,
    })
    &&& st.motd@ == motd_text(status.description)
    &&& opt_bytes(st.favicon) == favicon_bytes(status)
}

/// Summarizes a status response.
pub fn java_status(status: &StatusResponse) -> (st: JavaStatus)
    ensures
        status_summary(*status, st),
{
    let version = match &status.version {
        Some(v) => match &v.name {
            Some(n) => n.clone(),
            None => string_from_chars(chars_of("?").as_slice()),
        },
        None => string_from_chars(chars_of("?").as_slice()),
    };
    let protocol = match &status.version {
        Some(v) => v.protocol,
        None => None,
    };
    let (players_online, players_max) = match &status.players {
        Some(p) => (p.online, p.max),
        None => (None, None),
    };
    let motd = extract_motd(&status.description);
    let favicon = match &status.favicon {
        Some(f) => decode_favicon(f.as_str()),
        None => None,
    };
    JavaStatus { version, protocol, players_online, players_max, motd, favicon }
}

// ---------------------------------------------------------------------------
// Laws
// ---------------------------------------------------------------------------

/// A packet that was written reads back as the same packet id and payload,
/// whatever bytes follow it, as long as its body fits the 2 MiB limit.
pub proof fn lemma_packet_roundtrip(packet_id: i32, payload: Seq<u8>, rest: Seq<u8>)
    requires
        varint_of(packet_id).len() + payload.len() <= MAX_PACKET_LEN,
    ensures
        read_packet_spec(packet_bytes(packet_id, payload) + rest) == Ok::<
            (i32, Seq<u8>, nat),
            JavaError,
        >((packet_id, payload, packet_bytes(packet_id, payload).len())),
{
    let inner = varint_of(packet_id) + payload;
    let len = inner.len();
    lemma_varint_len(packet_id);
    let l32 = len as i32;
    assert(l32 as int == len);
    let head = varint_of(l32);
    lemma_varint_len(l32);
    let s = packet_bytes(packet_id, payload) + rest;
    assert(s =~= head + (inner + rest));
    lemma_varint_roundtrip(l32, inner + rest);
    let n = head.len();
    assert(s.subrange(n as int, (n + len) as int) =~= inner);
    lemma_varint_roundtrip(packet_id, payload);
    let m = varint_of(packet_id).len();
    assert(inner.subrange(m as int, len as int) =~= payload);
    assert((n as usize) as int == n);
    assert(split_body_spec(inner) == Ok::<(i32, Seq<u8>), JavaError>((packet_id, payload)));
}

} // verus!
