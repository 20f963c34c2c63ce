use mcping::chat::{
    chat_component_to_legacy, extract_motd, named_color_to_code, ChatComponent, ChatValue,
};
use mcping::motd::{color_fg, format_code, strip, to_ansi};
use mcping::text::{parse_i32, parse_i64, parse_u16};

fn chars(s: &str) -> Vec<char> {
    s.chars().collect()
}

fn component(text: &str) -> ChatComponent {
    ChatComponent {
        color: None,
        bold: false,
        italic: false,
        underlined: false,
        strikethrough: false,
        obfuscated: false,
        text: Some(text.to_string()),
        extra: None,
        translate: None,
        with: None,
    }
}

#[test]
fn integer_parsing() {
    assert_eq!(parse_i64(&chars("9223372036854775807")), Some(i64::MAX));
    assert_eq!(parse_i64(&chars("-9223372036854775808")), Some(i64::MIN));
    assert_eq!(parse_i64(&chars("9223372036854775808")), None);
    assert_eq!(parse_i64(&chars("+42")), Some(42));
    assert_eq!(parse_i64(&chars("0007")), Some(7));
    assert_eq!(parse_i64(&chars("")), None);
    assert_eq!(parse_i64(&chars("+")), None);
    assert_eq!(parse_i64(&chars("-")), None);
    assert_eq!(parse_i64(&chars("12a")), None);
    assert_eq!(parse_i64(&chars(" 1")), None);
    assert_eq!(parse_i32(&chars("-2147483648")), Some(i32::MIN));
    assert_eq!(parse_i32(&chars("2147483648")), None);
    assert_eq!(parse_u16(&chars("65535")), Some(65535));
    assert_eq!(parse_u16(&chars("65536")), None);
    assert_eq!(parse_u16(&chars("+0")), Some(0));
    assert_eq!(parse_u16(&chars("-0")), None);
    assert_eq!(parse_u16(&chars("99999999999999999999999")), None);
}

#[test]
fn named_colors() {
    assert_eq!(named_color_to_code("gold"), Some('6'));
    assert_eq!(named_color_to_code("dark_yellow"), Some('6'));
    assert_eq!(named_color_to_code("dark_cyan"), Some('3'));
    assert_eq!(named_color_to_code("grey"), Some('7'));
    assert_eq!(named_color_to_code("magenta"), Some('d'));
    assert_eq!(named_color_to_code("white"), Some('f'));
    assert_eq!(named_color_to_code("#ff0000"), None);
    assert_eq!(named_color_to_code("Gold"), None);
}

#[test]
fn chat_flattening() {
    let mut inner = component("!");
    inner.color = None;
    let mut top = component("Hi");
    top.color = Some("red".to_string());
    top.bold = true;
    top.extra = Some(ChatValue::List(vec![
        ChatValue::Text(" there".to_string()),
        ChatValue::Component(Box::new(inner)),
        ChatValue::Other,
    ]));
    let v = ChatValue::Component(Box::new(top));
    assert_eq!(chat_component_to_legacy(&v), "§c§lHi there§c!");
}

#[test]
fn chat_translation_and_styles() {
    let mut arg = component("b");
    arg.color = Some("blue".to_string());
    let mut t = ChatComponent { text: None, ..component("") };
    t.translate = Some("chat.type".to_string());
    t.with = Some(vec![ChatValue::Text("a".to_string()), ChatValue::Component(Box::new(arg))]);
    t.italic = true;
    t.underlined = true;
    t.strikethrough = true;
    t.obfuscated = true;
    t.color = Some("#123456".to_string());
    let v = ChatValue::Component(Box::new(t));
    assert_eq!(chat_component_to_legacy(&v), "§o§n§m§kchat.type a §9b");
}

#[test]
fn motd_extraction() {
    assert_eq!(extract_motd(&None), "");
    assert_eq!(extract_motd(&Some(ChatValue::Text("§aHello".to_string()))), "§aHello");
    assert_eq!(extract_motd(&Some(ChatValue::Other)), "");
    assert_eq!(
        extract_motd(&Some(ChatValue::List(vec![
            ChatValue::Text("a".to_string()),
            ChatValue::Text("b".to_string())
        ]))),
        "ab"
    );
}

#[test]
fn legacy_codes() {
    assert_eq!(color_fg('a'), Some("\x1b[92m"));
    assert_eq!(color_fg('A'), Some("\x1b[92m"));
    assert_eq!(color_fg('g'), None);
    assert_eq!(format_code('k'), Some(""));
    assert_eq!(format_code('R'), Some("\x1b[0m"));
    assert_eq!(format_code('0'), None);
}

#[test]
fn ansi_conversion() {
    assert_eq!(to_ansi("§aHello"), "\x1b[92mHello\x1b[0m");
    assert_eq!(to_ansi("&lBold&r"), "\x1b[1mBold\x1b[0m\x1b[0m");
    assert_eq!(to_ansi("§z"), "§z\x1b[0m");
    assert_eq!(to_ansi("end§"), "end§\x1b[0m");
    assert_eq!(to_ansi("§kx"), "x\x1b[0m");
    assert_eq!(to_ansi("line1\nline2"), "line1\nline2\x1b[0m");
    assert_eq!(to_ansi(""), "\x1b[0m");
}

#[test]
fn plain_text_law() {
    for s in ["plain text", "", "a:b;c", "ümlaut"] {
        assert_eq!(to_ansi(s), format!("{s}\x1b[0m"));
        assert_eq!(strip(s), s);
    }
}

#[test]
fn stripping() {
    assert_eq!(strip("§aHi&r"), "Hi");
    assert_eq!(strip("§§aa"), "§a");
    assert_eq!(strip("§z"), "§z");
    assert_eq!(strip("x§"), "x§");
    assert!(strip("§a§b§c").chars().count() <= "§a§b§c".chars().count());
}

#[test]
fn decimal_text_parses_back() {
    for p in [0u16, 1, 9, 10, 80, 25565, 65535] {
        assert_eq!(parse_u16(&chars(&p.to_string())), Some(p));
    }
    for v in [0i64, 7, -7, i64::MAX, i64::MIN] {
        assert_eq!(parse_i64(&chars(&v.to_string())), Some(v));
    }
}

/// Deletes every `ESC [ [0-9;]* m` sequence, scanning from the left.
fn remove_sgr(t: &str) -> String {
    let c: Vec<char> = t.chars().collect();
    let mut out = String::new();
    let mut i = 0;
    while i < c.len() {
        if c[i] == '\x1b' && i + 1 < c.len() && c[i + 1] == '[' {
            let mut e = i + 2;
            while e < c.len() && (c[e].is_ascii_digit() || c[e] == ';') {
                e += 1;
            }
            if e < c.len() && c[e] == 'm' {
                i = e + 1;
                continue;
            }
        }
        out.push(c[i]);
        i += 1;
    }
    out
}

#[test]
fn ansi_without_escapes_is_stripped_text() {
    for s in ["§aHello &lworld&r", "§§aa", "§z§kx&", "plain", "", "&0&1&2&3&4&5&6&7&8&9&f&m&n&o"] {
        assert_eq!(remove_sgr(&to_ansi(s)), strip(s), "{s:?}");
    }
}
