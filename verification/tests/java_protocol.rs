use mcping::chat::{ChatComponent, ChatValue};
use mcping::java::{
    check_pong, decode_favicon, handshake_packet, java_status, ping_request_packet, read_packet,
    split_packet_body, status_json, status_length_wraps, status_request_packet, write_packet,
    write_string, JavaError, StatusPlayers, StatusResponse, StatusVersion, MAX_PACKET_LEN,
    PROTOCOL_VERSION,
};
use mcping::varint::{read_varint_from, write_varint, VarIntRead};

fn varint(v: i32) -> Vec<u8> {
    let mut buf = Vec::new();
    write_varint(&mut buf, v);
    buf
}

#[test]
fn varint_known_encodings() {
    assert_eq!(varint(0), vec![0x00]);
    assert_eq!(varint(1), vec![0x01]);
    assert_eq!(varint(127), vec![0x7f]);
    assert_eq!(varint(128), vec![0x80, 0x01]);
    assert_eq!(varint(255), vec![0xff, 0x01]);
    assert_eq!(varint(772), vec![0x84, 0x06]);
    assert_eq!(varint(25565), vec![0xdd, 0xc7, 0x01]);
    assert_eq!(varint(2097151), vec![0xff, 0xff, 0x7f]);
    assert_eq!(varint(i32::MAX), vec![0xff, 0xff, 0xff, 0xff, 0x07]);
    assert_eq!(varint(-1), vec![0xff, 0xff, 0xff, 0xff, 0x0f]);
    assert_eq!(varint(i32::MIN), vec![0x80, 0x80, 0x80, 0x80, 0x08]);
}

#[test]
fn varint_appends_to_existing_bytes() {
    let mut buf = vec![0xaa];
    write_varint(&mut buf, 300);
    assert_eq!(buf, vec![0xaa, 0xac, 0x02]);
}

#[test]
fn varint_roundtrip_with_trailing_bytes() {
    for v in [0, 1, 127, 128, 300, 25565, 2097151, i32::MAX, -1, -300, i32::MIN] {
        let mut bytes = varint(v);
        let len = bytes.len();
        assert!(len >= 1 && len <= 5);
        bytes.extend_from_slice(&[0x80, 0xff, 0x01]);
        assert_eq!(read_varint_from(&bytes), VarIntRead::Value(v, len));
    }
}

#[test]
fn varint_truncated_and_too_long() {
    assert_eq!(read_varint_from(&[]), VarIntRead::Truncated);
    assert_eq!(read_varint_from(&[0x80]), VarIntRead::Truncated);
    assert_eq!(read_varint_from(&[0xff, 0xff, 0xff, 0xff, 0xff]), VarIntRead::Truncated);
    assert_eq!(read_varint_from(&[0xff, 0xff, 0xff, 0xff, 0xff, 0x01]), VarIntRead::TooLong);
}

#[test]
fn varint_keeps_low_32_bits() {
    // The fifth byte's high groups fall off the 32-bit value.
    assert_eq!(read_varint_from(&[0xff, 0xff, 0xff, 0xff, 0x7f]), VarIntRead::Value(-1, 5));
    // Non-minimal encodings are read as well.
    assert_eq!(read_varint_from(&[0x80, 0x00]), VarIntRead::Value(0, 2));
}

#[test]
fn packet_framing() {
    assert_eq!(write_packet(0, &[]), vec![0x01, 0x00]);
    assert_eq!(status_request_packet(), vec![0x01, 0x00]);
    assert_eq!(write_packet(1, &[9, 8, 7]), vec![0x04, 0x01, 9, 8, 7]);
}

#[test]
fn string_field() {
    let mut buf = Vec::new();
    write_string(&mut buf, "hé");
    assert_eq!(buf, vec![0x03, b'h', 0xc3, 0xa9]);
}

#[test]
fn handshake_bytes() {
    let mut expected = vec![0x10, 0x00, 0x84, 0x06, 0x09];
    expected.extend_from_slice(b"localhost");
    expected.extend_from_slice(&[0x63, 0xdd, 0x01]);
    assert_eq!(handshake_packet("localhost", 25565), expected);
    assert_eq!(PROTOCOL_VERSION, 772);
}

#[test]
fn ping_packet_bytes() {
    assert_eq!(
        ping_request_packet(0x0102030405060708),
        vec![0x09, 0x01, 1, 2, 3, 4, 5, 6, 7, 8]
    );
    assert_eq!(
        ping_request_packet(-1),
        vec![0x09, 0x01, 0xff, 0xff, 0xff, 0xff, 0xff, 0xff, 0xff, 0xff]
    );
}

#[test]
fn packet_roundtrip() {
    let payload = vec![1u8, 2, 3, 4];
    let mut bytes = write_packet(0x42, &payload);
    let n = bytes.len();
    bytes.extend_from_slice(&[0x05, 0x00]);
    assert_eq!(read_packet(&bytes), Ok((0x42, payload, n)));
    let hs = handshake_packet("example.org", 19132);
    let (id, body, used) = read_packet(&hs).unwrap();
    assert_eq!(id, 0);
    assert_eq!(used, hs.len());
    assert_eq!(body[0..2], [0x84, 0x06]);
}

#[test]
fn packet_read_errors() {
    assert_eq!(read_packet(&[]), Err(JavaError::Truncated));
    assert_eq!(read_packet(&[0x00]), Err(JavaError::InvalidLength(0)));
    // 2 MiB + 1
    assert_eq!(
        read_packet(&[0x81, 0x80, 0x80, 0x01]),
        Err(JavaError::InvalidLength(MAX_PACKET_LEN + 1))
    );
    assert_eq!(
        read_packet(&[0xff, 0xff, 0xff, 0xff, 0x0f]),
        Err(JavaError::InvalidLength(-1))
    );
    assert_eq!(read_packet(&[0x05, 0x00]), Err(JavaError::Truncated));
    assert_eq!(read_packet(&[0x01, 0x80]), Err(JavaError::Truncated));
    assert_eq!(
        read_packet(&[0xff, 0xff, 0xff, 0xff, 0xff, 0xff]),
        Err(JavaError::VarIntTooLong)
    );
    assert_eq!(split_packet_body(&[]), Err(JavaError::Truncated));
    assert_eq!(split_packet_body(&[0x00, 7]), Ok((0, vec![7])));
}

#[test]
fn status_json_reading() {
    assert_eq!(status_json(1, &[]), Err(JavaError::UnexpectedStatusId(1)));
    assert_eq!(status_json(0, &[]), Err(JavaError::Truncated));
    assert_eq!(
        status_json(0, &[0xff, 0xff, 0xff, 0xff, 0xff, 0x01]),
        Err(JavaError::VarIntTooLong)
    );
    assert_eq!(status_json(0, &[0x05, b'a']), Err(JavaError::StatusJsonTruncated));
    assert_eq!(status_json(0, &[0x02, 0xff, 0xfe]), Err(JavaError::StatusJsonNotUtf8));
    assert_eq!(status_json(0, &[0x02, b'{', b'}', b'x']), Ok("{}".to_string()));
    assert_eq!(
        status_json(0, &[0x80, 0x80, 0x80, 0x80, 0x08]),
        Err(JavaError::StatusJsonTruncated)
    );
}

#[test]
fn status_length_wrapping() {
    assert!(status_length_wraps(&[0xff, 0xff, 0xff, 0xff, 0x0f]));
    assert!(!status_length_wraps(&[0x7f]));
    assert!(!status_length_wraps(&[]));
    assert!(!status_length_wraps(&[0x80, 0x80, 0x80, 0x80, 0x08]));
}

#[test]
fn pong_id() {
    assert_eq!(check_pong(1), Ok(()));
    assert_eq!(check_pong(0), Err(JavaError::UnexpectedPongId(0)));
}

#[test]
fn favicon_decoding() {
    assert_eq!(decode_favicon("data:image/png;base64,AAEC"), Some(vec![0, 1, 2]));
    assert_eq!(decode_favicon("data:image/jpeg;base64,AAEC"), None);
    assert_eq!(decode_favicon("data:image/png;base64,!!"), None);
}

#[test]
fn status_summary_defaults() {
    let status = StatusResponse { version: None, players: None, description: None, favicon: None };
    let st = java_status(&status);
    assert_eq!(st.version, "?");
    assert_eq!(st.protocol, None);
    assert_eq!(st.players_online, None);
    assert_eq!(st.players_max, None);
    assert_eq!(st.motd, "");
    assert_eq!(st.favicon, None);
}

#[test]
fn status_summary_full() {
    let component = ChatComponent {
        color: Some("gold".to_string()),
        bold: true,
        italic: false,
        underlined: false,
        strikethrough: false,
        obfuscated: false,
        text: Some("Welcome".to_string()),
        extra: None,
        translate: None,
        with: None,
    };
    let status = StatusResponse {
        version: Some(StatusVersion { name: Some("1.21.8".to_string()), protocol: Some(772) }),
        players: Some(StatusPlayers { online: Some(1), max: Some(100) }),
        description: Some(ChatValue::Component(Box::new(component))),
        favicon: Some("data:image/png;base64,AAEC".to_string()),
    };
    let st = java_status(&status);
    assert_eq!(st.version, "1.21.8");
    assert_eq!(st.protocol, Some(772));
    assert_eq!(st.players_online, Some(1));
    assert_eq!(st.players_max, Some(100));
    assert_eq!(st.motd, "§6§lWelcome");
    assert_eq!(st.favicon, Some(vec![0, 1, 2]));
    let named_only = StatusResponse {
        version: Some(StatusVersion { name: None, protocol: Some(5) }),
        players: Some(StatusPlayers { online: None, max: Some(3) }),
        description: Some(ChatValue::Text("plain".to_string())),
        favicon: Some("nope".to_string()),
    };
    let st = java_status(&named_only);
    assert_eq!(st.version, "?");
    assert_eq!(st.protocol, Some(5));
    assert_eq!(st.players_online, None);
    assert_eq!(st.players_max, Some(3));
    assert_eq!(st.motd, "plain");
    assert_eq!(st.favicon, None);
}
