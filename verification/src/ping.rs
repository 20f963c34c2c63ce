//! Which edition to ping, what to try after a failure, and the details of a
//! reply line.
use vstd::prelude::*;

use crate::text::{push_signed_decimal, push_str_chars, signed_decimal, string_from_chars};

verus! {

/// A Minecraft edition.
#[derive(PartialEq, Eq, Structural, Debug, Clone, Copy)]
pub enum Edition {
    Java,
    Bedrock,
}

impl Edition {
    /// The edition's name as printed (`java`, `bedrock`).
    pub fn name(&self) -> (s: &'static str)
        ensures
            s@ == edition_name(*self),
    {
        match self {
            Edition::Java => "java",
            Edition::Bedrock => "bedrock",
        }
    }
}

/// The printed name of an edition.
pub open spec fn edition_name(e: Edition) -> Seq<char> {
    match e {
        Edition::Java => "java"@,
        Edition::Bedrock => "bedrock"@,
    }
}

/// Which edition to ping.
#[derive(PartialEq, Eq, Structural, Debug, Clone, Copy)]
pub enum Mode {
    /// Java first, then Bedrock on its default port.
    Auto,
    /// Java only.
    Java,
    /// Bedrock only.
    Bedrock,
}

/// The mode chosen by the flags and the explicit port: a flag forces its
/// edition (`--java` first); else the Bedrock ports 19132 and 19133 choose
/// Bedrock, any other explicit port Java, and no port the automatic mode.
pub open spec fn mode_spec(java: bool, bedrock: bool, port: Option<u16>) -> Mode {
    if java {
        Mode::Java
    } else if bedrock {
        Mode::Bedrock
    } else {
        match port {
            Some(p) => if p == 19132 || p == 19133 {
                Mode::Bedrock
            } else {
                Mode::Java
            },
            None => Mode::Auto,
        }
    }
}

/// Chooses the mode from the `--java` / `--bedrock` flags and the explicit
/// port.
pub fn mode_from_cli(java: bool, bedrock: bool, port: Option<u16>) -> (m: Mode)
    ensures
        m == mode_spec(java, bedrock, port),
{
    if java {
        return Mode::Java;
    }
    if bedrock {
        return Mode::Bedrock;
    }
    match port {
        Some(19132) | Some(19133) => Mode::Bedrock,
        Some(_) => Mode::Java,
        None => Mode::Auto,
    }
}

/// One probe: an edition and the explicit port to resolve it with.
#[derive(PartialEq, Eq, Structural, Debug, Clone, Copy)]
pub enum Probe {
    Java(Option<u16>),
    Bedrock(Option<u16>),
}

/// The first probe of a mode, with the explicit port: Bedrock in the Bedrock
/// mode, Java otherwise (the automatic mode tries Java first).
pub fn first_probe(mode: Mode, port: Option<u16>) -> (p: Probe)
    ensures
        p == (match mode {
            Mode::Bedrock => Probe::Bedrock(port),
            _ => Probe::Java(port),
        }),
{
    match mode {
        Mode::Bedrock => Probe::Bedrock(port),
        _ => Probe::Java(port),
    }
}

/// The probe after `failed` failed: in the automatic mode a failed Java probe
/// is followed by Bedrock on its default port; otherwise nothing is left.
pub fn fallback_probe(mode: Mode, failed: Probe) -> (p: Option<Probe>)
    ensures
        p == (match (mode, failed) {
            (Mode::Auto, Probe::Java(_)) => Some(Probe::Bedrock(None)),
            _ => None,
        }),
{
    match (mode, failed) {
        (Mode::Auto, Probe::Java(_)) => Some(Probe::Bedrock(None)),
        _ => None,
    }
}

/// What to do after pinging address `i` of `n`.
#[derive(PartialEq, Eq, Structural, Debug, Clone, Copy)]
pub enum AttemptStep {
    /// The address answered: stop with its reply.
    Done,
    /// Try the address with this index.
    Next(usize),
    /// Every address failed: give up with the last error.
    GiveUp,
}

/// The step after pinging address `i` of `n`: stop at the first reply,
/// else go on to the next address, else give up.
pub fn after_attempt(succeeded: bool, i: usize, n: usize) -> (step: AttemptStep)
    requires
        i < n,
    ensures
        step == (if succeeded {
            AttemptStep::Done
        } else if i + 1 < n {
            AttemptStep::Next((i + 1) as usize)
        } else {
            AttemptStep::GiveUp
        }),
{
    if succeeded {
        AttemptStep::Done
    } else if i + 1 < n {
        AttemptStep::Next(i + 1)
    } else {
        AttemptStep::GiveUp
    }
}

/// The port to resolve again with when a later ping of the address that
/// first answered fails: the explicit port, else that address's port.
pub fn retry_port(port: Option<u16>, answered_port: u16) -> (r: Option<u16>)
    ensures
        r == Some(
            match port {
                Some(p) => p,
                None => answered_port,
            },
        ),
{
    match port {
        Some(p) => Some(p),
        None => Some(answered_port),
    }
}

/// `players=online/max`, with `?` for an unknown count (both `?` when the
/// online count is unknown).
pub open spec fn players_text(online: Option<i64>, max: Option<i64>) -> Seq<char> {
    match (online, max) {
        (Some(o), Some(m)) => "players="@ + signed_decimal(o as int) + seq!['/'] + signed_decimal(
            m as int,
        ),
        (Some(o), None) => "players="@ + signed_decimal(o as int) + "/?"@,
        _ => "players=?/?"@,
    }
}

/// ` key=value` when there is a value, else nothing.
pub open spec fn optional_field(key: Seq<char>, value: Option<Seq<char>>) -> Seq<char> {
    match value {
        Some(v) => seq![' '] + key + seq!['='] + v,
        None => Seq::empty(),
    }
}

/// The view of an optional borrowed string.
pub open spec fn opt_str(s: Option<&str>) -> Option<Seq<char>> {
    match s {
        Some(t) => Some(t@),
        None => None,
    }
}

/// The details that end a reply line: the player counts, the version, then
/// the game mode and edition when known.
pub open spec fn reply_details_text(
    online: Option<i64>,
    max: Option<i64>,
    version: Seq<char>,
    gamemode: Option<Seq<char>>,
    edition: Option<Seq<char>>,
) -> Seq<char> {
    players_text(online, max) + " ver="@ + version + optional_field("gamemode"@, gamemode)
        + optional_field("edition"@, edition)
}

fn push_optional_field(out: &mut Vec<char>, key: &str, value: Option<&str>)
    ensures
        final(out)@ == old(out)@ + optional_field(key@, opt_str(value)),
{
    if let Some(v) = value {
        out.push(' ');
        push_str_chars(out, key);
        out.push('=');
        push_str_chars(out, v);
    }
    assert(out@ =~= old(out)@ + optional_field(key@, opt_str(value)));
}

/// The details that end a reply line.
pub fn reply_details(
    online: Option<i64>,
    max: Option<i64>,
    version: &str,
    gamemode: Option<&str>,
    edition: Option<&str>,
) -> (s: String)
    ensures
        s@ == reply_details_text(online, max, version@, opt_str(gamemode), opt_str(edition)),
{
    let mut out: Vec<char> = Vec::new();
    match (online, max) {
        (Some(o), Some(m)) => {
            push_str_chars(&mut out, "players=");
            push_signed_decimal(&mut out, o);
            out.push('/');
            push_signed_decimal(&mut out, m);
        },
        (Some(o), None) => {
            push_str_chars(&mut out, "players=");
            push_signed_decimal(&mut out, o);
            push_str_chars(&mut out, "/?");
        },
        _ => {
            push_str_chars(&mut out, "players=?/?");
        },
    }
    assert(out@ =~= players_text(online, max));
    push_str_chars(&mut out, " ver=");
    push_str_chars(&mut out, version);
    push_optional_field(&mut out, "gamemode", gamemode);
    push_optional_field(&mut out, "edition", edition);
    assert(out@ =~= reply_details_text(
        online,
        max,
        version@,
        opt_str(gamemode),
        opt_str(edition),
    ));
    string_from_chars(out.as_slice())
}

// ---------------------------------------------------------------------------
// Laws
// ---------------------------------------------------------------------------

/// A flag forces its edition whatever the port (`--java` first); without a
/// flag the Bedrock ports 19132 and 19133 choose Bedrock, every other explicit
/// port Java, and no port the automatic mode.
pub proof fn lemma_mode_choice(bedrock: bool, port: Option<u16>)
    ensures
        mode_spec(true, bedrock, port) == Mode::Java,
        mode_spec(false, true, port) == Mode::Bedrock,
        mode_spec(false, false, None) == Mode::Auto,
        mode_spec(false, false, Some(19132)) == Mode::Bedrock,
        mode_spec(false, false, Some(19133)) == Mode::Bedrock,
        forall|p: u16|
            p != 19132 && p != 19133 ==> #[trigger] mode_spec(false, false, Some(p)) == Mode::Java,
{
}

/// The details of a reply line: the player counts, ` ver=` and the version;
/// then ` gamemode=` and the game mode when it is known; then ` edition=` and
/// the edition when it is known, whether or not the game mode is.
pub proof fn lemma_reply_fields(
    online: Option<i64>,
    max: Option<i64>,
    version: Seq<char>,
    gamemode: Option<Seq<char>>,
    g: Seq<char>,
    e: Seq<char>,
)
    ensures
        reply_details_text(online, max, version, None, None) == players_text(online, max)
            + seq![' ', 'v', 'e', 'r', '='] + version,
        reply_details_text(online, max, version, Some(g), None) == reply_details_text(
            online,
            max,
            version,
            None,
            None,
        ) + seq![' ', 'g', 'a', 'm', 'e', 'm', 'o', 'd', 'e', '='] + g,
        reply_details_text(online, max, version, gamemode, Some(e)) == reply_details_text(
            online,
            max,
            version,
            gamemode,
            None,
        ) + seq![' ', 'e', 'd', 'i', 't', 'i', 'o', 'n', '='] + e,
{
    reveal_strlit(" ver=");
    reveal_strlit("gamemode");
    reveal_strlit("edition");
    assert(reply_details_text(online, max, version, None, None) =~= players_text(online, max)
        + seq![' ', 'v', 'e', 'r', '='] + version);
    assert(reply_details_text(online, max, version, Some(g), None) =~= reply_details_text(
        online,
        max,
        version,
        None,
        None,
    ) + seq![' ', 'g', 'a', 'm', 'e', 'm', 'o', 'd', 'e', '='] + g);
    assert(reply_details_text(online, max, version, gamemode, Some(e)) =~= reply_details_text(
        online,
        max,
        version,
        gamemode,
        None,
    ) + seq![' ', 'e', 'd', 'i', 't', 'i', 'o', 'n', '='] + e);
}

/// The player counts: `players=online/max` in decimal, `?` for an unknown
/// maximum, and `players=?/?` when the online count is unknown.
pub proof fn lemma_players_text(online: i64, max: i64, m: Option<i64>)
    ensures
        players_text(Some(online), Some(max)) == seq!['p', 'l', 'a', 'y', 'e', 'r', 's', '='] + signed_decimal(online as int)
            + seq!['/'] + signed_decimal(max as int),
        players_text(Some(online), None) == seq!['p', 'l', 'a', 'y', 'e', 'r', 's', '='] + signed_decimal(online as int)
            + seq!['/', '?'],
        players_text(None, m) == seq!['p', 'l', 'a', 'y', 'e', 'r', 's', '=', '?', '/', '?'],
{
    reveal_strlit("players=");
    reveal_strlit("/?");
    reveal_strlit("players=?/?");
    assert(players_text(Some(online), None) =~= seq!['p', 'l', 'a', 'y', 'e', 'r', 's', '='] + signed_decimal(online as int)
        + seq!['/', '?']);
}

} // verus!
