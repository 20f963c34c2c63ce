use mcping::bedrock::{
    bedrock_status, parse_pong, parse_server_id, read_pong, unconnected_ping, BedrockError,
    MAGIC,
};

fn pong(id: &[u8]) -> Vec<u8> {
    let mut d = vec![0x1c];
    d.extend_from_slice(&[0; 8]);
    d.extend_from_slice(&[1; 8]);
    d.extend_from_slice(&MAGIC);
    d.extend_from_slice(&(id.len() as u16).to_be_bytes());
    d.extend_from_slice(id);
    d
}

const SAMPLE: &str =
    "MCPE;Dedicated Server;390;1.14.60;0;10;13253860892328930865;Bedrock level;Survival;1;19132;19133;";

#[test]
fn server_id_fields() {
    let id = parse_server_id(SAMPLE);
    assert_eq!(id.edition, "MCPE");
    assert_eq!(id.motd1, "Dedicated Server");
    assert_eq!(id.protocol, "390");
    assert_eq!(id.version, "1.14.60");
    assert_eq!(id.online, 0);
    assert_eq!(id.max, 10);
    assert_eq!(id.motd2, "Bedrock level");
    assert_eq!(id.gamemode, "Survival");
}

#[test]
fn server_id_short_and_odd() {
    let id = parse_server_id("");
    assert_eq!(id.edition, "");
    assert_eq!(id.gamemode, "");
    assert_eq!(id.online, 0);
    let id = parse_server_id("MCPE;m;p;v;x;+7");
    assert_eq!(id.online, 0);
    assert_eq!(id.max, 7);
    assert_eq!(id.motd2, "");
    let id = parse_server_id(";;;;-3;99999999999999999999");
    assert_eq!(id.online, -3);
    assert_eq!(id.max, 0);
}

#[test]
fn server_id_roundtrip() {
    let fields = ["MCPE", "motd", "800", "1.21.0", "5", "20", "uid", "second", "Creative"];
    let id = parse_server_id(&fields.join(";"));
    assert_eq!(id.edition, fields[0]);
    assert_eq!(id.motd1, fields[1]);
    assert_eq!(id.protocol, fields[2]);
    assert_eq!(id.version, fields[3]);
    assert_eq!(id.online, 5);
    assert_eq!(id.max, 20);
    assert_eq!(id.motd2, fields[7]);
    assert_eq!(id.gamemode, fields[8]);
}

#[test]
fn ping_packet() {
    let pkt = unconnected_ping(0x0102030405060708);
    let mut expected = vec![0x01, 1, 2, 3, 4, 5, 6, 7, 8];
    expected.extend_from_slice(&MAGIC);
    expected.extend_from_slice(&0x0211_2233_4455_6677i64.to_be_bytes());
    assert_eq!(pkt, expected);
    assert_eq!(pkt.len(), 33);
}

#[test]
fn pong_parsing() {
    assert_eq!(parse_pong(&pong(SAMPLE.as_bytes())), Ok(SAMPLE.to_string()));
    assert_eq!(parse_pong(&pong(b"")), Ok(String::new()));
    let mut with_tail = pong(b"abc");
    with_tail.push(b'!');
    assert_eq!(parse_pong(&with_tail), Ok("abc".to_string()));
}

#[test]
fn pong_errors() {
    assert_eq!(parse_pong(&[]), Err(BedrockError::UnexpectedPacket(0)));
    assert_eq!(parse_pong(&[0x01, 2, 3]), Err(BedrockError::UnexpectedPacket(1)));
    assert_eq!(parse_pong(&[0x1c; 34]), Err(BedrockError::TooShort(34)));
    let mut bad_magic = pong(b"abc");
    bad_magic[20] ^= 1;
    assert_eq!(parse_pong(&bad_magic), Err(BedrockError::MagicMismatch));
    let mut truncated = pong(b"abc");
    truncated.pop();
    assert_eq!(parse_pong(&truncated), Err(BedrockError::IdTruncated));
    assert_eq!(parse_pong(&pong(&[0xff, 0xfe])), Err(BedrockError::IdNotUtf8));
}

#[test]
fn pong_status() {
    let st = read_pong(&pong(SAMPLE.as_bytes())).ok().unwrap();
    assert_eq!(st.players_online, 0);
    assert_eq!(st.players_max, 10);
    assert_eq!(st.version, "1.14.60");
    assert_eq!(st.protocol, Some(390));
    assert_eq!(st.motd, "Dedicated Server");
    assert_eq!(st.motd2, Some("Bedrock level".to_string()));
    assert_eq!(st.gamemode, Some("Survival".to_string()));
    assert_eq!(st.edition_name, Some("MCPE".to_string()));
    let st = bedrock_status(parse_server_id(";m;proto;v"));
    assert_eq!(st.protocol, None);
    assert_eq!(st.motd2, None);
    assert_eq!(st.gamemode, None);
    assert_eq!(st.edition_name, None);
    assert!(read_pong(&[0x00]).is_err());
}

#[test]
fn server_id_fields_hold_no_separator() {
    let id = parse_server_id(SAMPLE);
    for f in [&id.edition, &id.motd1, &id.protocol, &id.version, &id.motd2, &id.gamemode] {
        assert!(!f.contains(';'));
    }
    let a = parse_server_id("E;m;1;v;2;3;uid-one;m2;g;extra");
    let b = parse_server_id("E;m;1;v;2;3;uid-two;m2;g");
    assert_eq!(
        (a.edition, a.motd1, a.protocol, a.version, a.online, a.max, a.motd2, a.gamemode),
        (b.edition, b.motd1, b.protocol, b.version, b.online, b.max, b.motd2, b.gamemode)
    );
}
