use mcping::dns::{
    bedrock_port, java_endpoint, select_srv, srv_name, srv_target, trim_trailing_dots, SrvRecord,
};
use mcping::ping::{
    after_attempt, fallback_probe, first_probe, mode_from_cli, reply_details, retry_port,
    AttemptStep, Edition, Mode, Probe,
};
use mcping::target::{parse_target, TargetError};

fn target(raw: &str) -> (String, Option<u16>) {
    let t = parse_target(raw).unwrap();
    (t.host, t.port)
}

fn err(raw: &str) -> TargetError {
    match parse_target(raw) {
        Ok(t) => panic!("accepted {raw}: {t:?}"),
        Err(e) => e,
    }
}

#[test]
fn targets() {
    assert_eq!(target("example.com"), ("example.com".to_string(), None));
    assert_eq!(target("example.com:25566"), ("example.com".to_string(), Some(25566)));
    assert_eq!(target("10.0.0.1:19132"), ("10.0.0.1".to_string(), Some(19132)));
    assert_eq!(target("[::1]:19132"), ("::1".to_string(), Some(19132)));
    assert_eq!(target("[::1]"), ("::1".to_string(), None));
    assert_eq!(target("[::1]:+80"), ("::1".to_string(), Some(80)));
    assert_eq!(target("::1"), ("::1".to_string(), None));
    assert_eq!(target("fe80::1:25565"), ("fe80::1:25565".to_string(), None));
    assert_eq!(target("host:"), ("host:".to_string(), None));
    assert_eq!(target("host:99999"), ("host:99999".to_string(), None));
    assert_eq!(target("host:+80"), ("host:+80".to_string(), None));
    assert_eq!(target(":80"), (":80".to_string(), None));
}

#[test]
fn target_errors() {
    assert_eq!(err("[::1"), TargetError::MissingBracket);
    assert_eq!(err("[::1]x"), TargetError::MissingPortColon);
    assert_eq!(err("[::1]:99999"), TargetError::InvalidPort);
    assert_eq!(err("[::1]:"), TargetError::InvalidPort);
    assert_eq!(
        TargetError::MissingBracket.message(),
        "invalid IPv6 target, expected [addr] or [addr]:port"
    );
    assert_eq!(TargetError::MissingPortColon.message(), "invalid IPv6 target, expected [addr]:port");
    assert_eq!(TargetError::InvalidPort.message(), "invalid port");
}

#[test]
fn modes() {
    assert_eq!(mode_from_cli(true, false, Some(19132)), Mode::Java);
    assert_eq!(mode_from_cli(false, true, Some(25565)), Mode::Bedrock);
    assert_eq!(mode_from_cli(false, false, Some(19132)), Mode::Bedrock);
    assert_eq!(mode_from_cli(false, false, Some(19133)), Mode::Bedrock);
    assert_eq!(mode_from_cli(false, false, Some(25566)), Mode::Java);
    assert_eq!(mode_from_cli(false, false, Some(25565)), Mode::Java);
    assert_eq!(mode_from_cli(false, false, None), Mode::Auto);
}

#[test]
fn probes() {
    assert_eq!(first_probe(Mode::Auto, None), Probe::Java(None));
    assert_eq!(first_probe(Mode::Java, Some(1)), Probe::Java(Some(1)));
    assert_eq!(first_probe(Mode::Bedrock, Some(2)), Probe::Bedrock(Some(2)));
    assert_eq!(fallback_probe(Mode::Auto, Probe::Java(Some(5))), Some(Probe::Bedrock(None)));
    assert_eq!(fallback_probe(Mode::Auto, Probe::Bedrock(None)), None);
    assert_eq!(fallback_probe(Mode::Java, Probe::Java(None)), None);
    assert_eq!(fallback_probe(Mode::Bedrock, Probe::Bedrock(Some(19132))), None);
    assert_eq!(first_probe(Mode::Bedrock, Some(19133)), Probe::Bedrock(Some(19133)));
    assert_eq!(retry_port(None, 25565), Some(25565));
    assert_eq!(retry_port(Some(1), 25565), Some(1));
}

#[test]
fn address_steps() {
    assert_eq!(after_attempt(true, 0, 3), AttemptStep::Done);
    assert_eq!(after_attempt(false, 0, 3), AttemptStep::Next(1));
    assert_eq!(after_attempt(false, 2, 3), AttemptStep::GiveUp);
    assert_eq!(after_attempt(true, 2, 3), AttemptStep::Done);
}

#[test]
fn editions() {
    assert_eq!(Edition::Java.name(), "java");
    assert_eq!(Edition::Bedrock.name(), "bedrock");
}

#[test]
fn reply_lines() {
    assert_eq!(reply_details(Some(1), Some(100), "1.21.8", None, None), "players=1/100 ver=1.21.8");
    assert_eq!(reply_details(Some(3), None, "?", None, None), "players=3/? ver=?");
    assert_eq!(reply_details(None, Some(5), "x", None, None), "players=?/? ver=x");
    assert_eq!(
        reply_details(Some(-1), Some(i64::MIN), "v", Some("Survival"), Some("MCPE")),
        "players=-1/-9223372036854775808 ver=v gamemode=Survival edition=MCPE"
    );
}

fn rec(priority: u16, weight: u16, port: u16, target: &str) -> SrvRecord {
    SrvRecord { priority, weight, port, target: target.to_string() }
}

#[test]
fn srv_selection() {
    assert_eq!(srv_name("example.com"), "_minecraft._tcp.example.com");
    assert_eq!(select_srv(&[]), None);
    let recs = [rec(10, 5, 1, "a."), rec(5, 9, 2, "b."), rec(5, 1, 3, "c."), rec(5, 1, 4, "d.")];
    assert_eq!(select_srv(&recs), Some(2));
    assert_eq!(srv_target(&recs), Some(("c".to_string(), 3)));
    assert_eq!(srv_target(&[]), None);
    assert_eq!(trim_trailing_dots("mc.example.com."), "mc.example.com");
    assert_eq!(trim_trailing_dots("a.."), "a");
    assert_eq!(trim_trailing_dots("..."), "");
    assert_eq!(trim_trailing_dots("a.b"), "a.b");
}

#[test]
fn endpoints() {
    assert_eq!(java_endpoint("h", Some(1), Some(("t".to_string(), 2))), ("h".to_string(), 1));
    assert_eq!(java_endpoint("h", None, Some(("t".to_string(), 2))), ("t".to_string(), 2));
    assert_eq!(java_endpoint("h", None, None), ("h".to_string(), 25565));
    assert_eq!(bedrock_port(None), 19132);
    assert_eq!(bedrock_port(Some(7)), 7);
}
