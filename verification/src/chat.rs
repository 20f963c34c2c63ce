//! Chat components of a status description, flattened to legacy `§`-coded
//! text.
use vstd::prelude::*;

use crate::text::{chars_eq_str, chars_of, push_str_chars, string_from_chars};

verus! {

/// A JSON chat value, holding what the flattening reads of it.
pub enum ChatValue {
    /// A JSON string.
    Text(String),
    /// A JSON array.
    List(Vec<ChatValue>),
    /// A JSON object.
    Component(Box<ChatComponent>),
    /// A number, a boolean or `null`.
    Other,
}

/// A JSON chat object: its `color`, `text` and `translate` members when they
/// are strings, whether each style member is `true`, its `extra` member (any
/// value), and its `with` member when it is an array.
pub struct ChatComponent {
    pub color: Option<String>,
    pub bold: bool,
    pub italic: bool,
    pub underlined: bool,
    pub strikethrough: bool,
    pub obfuscated: bool,
    pub text: Option<String>,
    pub extra: Option<ChatValue>,
    pub translate: Option<String>,
    pub with: Option<Vec<ChatValue>>,
}

/// The legacy code of a named chat color.
pub open spec fn named_color_code(name: Seq<char>) -> Option<char> {
    if name == "black"@ {
        Some('0')
    } else if name == "dark_blue"@ {
        Some('1')
    } else if name == "dark_green"@ {
        Some('2')
    } else if name == "dark_aqua"@ || name == "dark_cyan"@ {
        Some('3')
    } else if name == "dark_red"@ {
        Some('4')
    } else if name == "dark_purple"@ {
        Some('5')
    } else if name == "gold"@ || name == "dark_yellow"@ {
        Some('6')
    } else if name == "gray"@ || name == "grey"@ {
        Some('7')
    } else if name == "dark_gray"@ || name == "dark_grey"@ {
        Some('8')
    } else if name == "blue"@ {
        Some('9')
    } else if name == "green"@ {
        Some('a')
    } else if name == "aqua"@ || name == "cyan"@ {
        Some('b')
    } else if name == "red"@ {
        Some('c')
    } else if name == "light_purple"@ || name == "purple"@ || name == "magenta"@ {
        Some('d')
    } else if name == "yellow"@ {
        Some('e')
    } else if name == "white"@ {
        Some('f')
    } else {
        None
    }
}

/// The legacy code of a named chat color (`None` for unknown names and for
/// `#rrggbb` colors).
pub fn named_color_to_code(name: &str) -> (r: Option<char>)
    ensures
        r == named_color_code(name@),
{
    let n = chars_of(name);
    let v = n.as_slice();
    if chars_eq_str(v, "black") {
        Some('0')
    } else if chars_eq_str(v, "dark_blue") {
        Some('1')
    } else if chars_eq_str(v, "dark_green") {
        Some('2')
    } else if chars_eq_str(v, "dark_aqua") || chars_eq_str(v, "dark_cyan") {
        Some('3')
    } else if chars_eq_str(v, "dark_red") {
        Some('4')
    } else if chars_eq_str(v, "dark_purple") {
        Some('5')
    } else if chars_eq_str(v, "gold") || chars_eq_str(v, "dark_yellow") {
        Some('6')
    } else if chars_eq_str(v, "gray") || chars_eq_str(v, "grey") {
        Some('7')
    } else if chars_eq_str(v, "dark_gray") || chars_eq_str(v, "dark_grey") {
        Some('8')
    } else if chars_eq_str(v, "blue") {
        Some('9')
    } else if chars_eq_str(v, "green") {
        Some('a')
    } else if chars_eq_str(v, "aqua") || chars_eq_str(v, "cyan") {
        Some('b')
    } else if chars_eq_str(v, "red") {
        Some('c')
    } else if chars_eq_str(v, "light_purple") || chars_eq_str(v, "purple") || chars_eq_str(
        v,
        "magenta",
    ) {
        Some('d')
    } else if chars_eq_str(v, "yellow") {
        Some('e')
    } else if chars_eq_str(v, "white") {
        Some('f')
    } else {
        None
    }
}

/// The view of an optional string.
pub open spec fn opt_chars(s: Option<String>) -> Option<Seq<char>> {
    match s {
        Some(t) => Some(t@),
        None => None,
    }
}

/// `s` when `on`, else nothing.
pub open spec fn when(on: bool, s: Seq<char>) -> Seq<char> {
    if on {
        s
    } else {
        Seq::empty()
    }
}

/// The `§` code of a component's color, when it is a known name.
pub open spec fn color_code_text(color: Option<Seq<char>>) -> Seq<char> {
    match color {
        Some(name) => match named_color_code(name) {
            Some(k) => seq!['§', k],
            None => Seq::empty(),
        },
        None => Seq::empty(),
    }
}

/// The style codes of a component, in the order bold, italic, underlined,
/// strikethrough, obfuscated.
pub open spec fn style_text(c: ChatComponent) -> Seq<char> {
    when(c.bold, "§l"@) + when(c.italic, "§o"@) + when(c.underlined, "§n"@) + when(
        c.strikethrough,
        "§m"@,
    ) + when(c.obfuscated, "§k"@)
}

/// The legacy text of a chat value whose enclosing component has the color
/// `parent`: strings as they are, arrays item after item, objects as
/// `component_text` says; other values add nothing.
pub open spec fn chat_text(v: ChatValue, parent: Option<Seq<char>>) -> Seq<char>
    decreases v,
{
    match v {
        ChatValue::Text(s) => s@,
        ChatValue::List(items) => chat_list(items@, parent, false),
        ChatValue::Component(c) => component_text(*c, parent),
        ChatValue::Other => Seq::empty(),
    }
}

/// The legacy text of a chat object whose enclosing component has the color
/// `parent`: its color code (its own `color`, else the inherited one, when it
/// is a known name), style codes, `text`, `extra` (inheriting the color),
/// then `translate` followed by each `with` argument after a space.
pub open spec fn component_text(c: ChatComponent, parent: Option<Seq<char>>) -> Seq<char>
    decreases c,
{
    let color = match c.color {
        Some(s) => Some(s@),
        None => parent,
    };
    let code = color_code_text(color);
    let styles = style_text(c);
    code + styles + opt_text(c.text) + extra_text(c, color) + translation_text(c, color)
}

/// A component's `extra` value with the component's color (nothing without
/// `extra`).
pub open spec fn extra_text(c: ChatComponent, color: Option<Seq<char>>) -> Seq<char>
    decreases c, 0int,
{
    match c.extra {
        Some(e) => chat_text(e, color),
        None => Seq::empty(),
    }
}

/// A component's `translate` text followed by each of its `with` arguments
/// after a space (nothing without `translate`).
pub open spec fn translation_text(c: ChatComponent, color: Option<Seq<char>>) -> Seq<char>
    decreases c, 0int,
{
    match c.translate {
        Some(t) => t@ + match c.with {
            Some(args) => chat_list(args@, color, true),
            None => Seq::empty(),
        },
        None => Seq::empty(),
    }
}

/// The legacy text of the chat values `items` one after another, each after
/// a space when `spaced`.
pub open spec fn chat_list(items: Seq<ChatValue>, parent: Option<Seq<char>>, spaced: bool) -> Seq<
    char,
>
    decreases items,
{
    if items.len() == 0 {
        Seq::empty()
    } else {
        chat_list(items.subrange(0, items.len() - 1), parent, spaced) + when(spaced, seq![' '])
            + chat_text(items[items.len() - 1], parent)
    }
}

/// The view of an optional borrowed string.
pub open spec fn opt_ref_chars(s: Option<&String>) -> Option<Seq<char>> {
    match s {
        Some(t) => Some(t@),
        None => None,
    }
}

fn append_color_code(out: &mut Vec<char>, color: Option<&String>)
    ensures
        final(out)@ == old(out)@ + color_code_text(opt_ref_chars(color)),
{
    if let Some(name) = color {
        if let Some(code) = named_color_to_code(name.as_str()) {
            out.push('§');
            out.push(code);
        }
    }
    assert(out@ =~= old(out)@ + color_code_text(opt_ref_chars(color)));
}

fn append_styles(out: &mut Vec<char>, c: &ChatComponent)
    ensures
        final(out)@ == old(out)@ + style_text(*c),
{
    if c.bold {
        push_str_chars(out, "§l");
    }
    let ghost a = out@;
    if c.italic {
        push_str_chars(out, "§o");
    }
    let ghost b = out@;
    if c.underlined {
        push_str_chars(out, "§n");
    }
    let ghost d = out@;
    if c.strikethrough {
        push_str_chars(out, "§m");
    }
    let ghost e = out@;
    if c.obfuscated {
        push_str_chars(out, "§k");
    }
    assert(a =~= old(out)@ + when(c.bold, "§l"@));
    assert(b =~= a + when(c.italic, "§o"@));
    assert(d =~= b + when(c.underlined, "§n"@));
    assert(e =~= d + when(c.strikethrough, "§m"@));
    assert(out@ =~= e + when(c.obfuscated, "§k"@));
    assert(out@ =~= old(out)@ + style_text(*c));
}

/// Appends the legacy text of the chat value `v` to `out`, the enclosing
/// component having the color `parent_color`.
pub fn append_chat(v: &ChatValue, out: &mut Vec<char>, parent_color: Option<&String>)
    ensures
        final(out)@ == old(out)@ + chat_text(*v, opt_ref_chars(parent_color)),
    decreases v,
{
    match v {
        ChatValue::Text(s) => {
            push_str_chars(out, s.as_str());
        },
        ChatValue::List(items) => {
            proof {
                assert(decreases_to!(*v => v->List_0));
            }
            append_list(items, out, parent_color, false);
        },
        ChatValue::Component(c) => {
            proof {
                assert(decreases_to!(*v => v->Component_0));
            }
            append_component(c, out, parent_color);
        },
        ChatValue::Other => {
            assert(out@ =~= old(out)@ + chat_text(*v, opt_ref_chars(parent_color)));
        },
    }
}

/// Appends the legacy text of the chat values `items` to `out`, each after a
/// space when `spaced`.
fn append_list(
    items: &Vec<ChatValue>,
    out: &mut Vec<char>,
    parent_color: Option<&String>,
    spaced: bool,
)
    ensures
        final(out)@ == old(out)@ + chat_list(items@, opt_ref_chars(parent_color), spaced),
    decreases items,
{
    let ghost parent = opt_ref_chars(parent_color);
    let mut i: usize = 0;
    while i < items.len()
        invariant
            0 <= i <= items.len(),
            parent == opt_ref_chars(parent_color),
            out@ == old(out)@ + chat_list(items@.take(i as int), parent, spaced),
        decreases items.len() - i,
    {
        proof {
            assert(decreases_to!(*items => items@));
            assert(decreases_to!(items@ => items@[i as int]));
        }
        if spaced {
            out.push(' ');
        }
        append_chat(&items[i], out, parent_color);
        let ghost next = items@.take(i + 1);
        assert(next.subrange(0, i as int) =~= items@.take(i as int));
        assert(next[i as int] == items@[i as int]);
        i = i + 1;
    }
    assert(items@.take(items.len() as int) =~= items@);
}

/// Appends the legacy text of the chat object `c` to `out`.
fn append_component(c: &ChatComponent, out: &mut Vec<char>, parent_color: Option<&String>)
    ensures
        final(out)@ == old(out)@ + component_text(*c, opt_ref_chars(parent_color)),
    decreases c,
{
    let color: Option<&String> = match &c.color {
        Some(s) => Some(s),
        None => parent_color,
    };
    let ghost cv = opt_ref_chars(color);
    let ghost p0 = out@;
    append_color_code(out, color);
    append_styles(out, c);
    append_opt_text(out, &c.text);
    let ghost p3 = out@;
    if let Some(e) = &c.extra {
        proof {
            assert(decreases_to!(*c => c.extra));
            assert(decreases_to!(c.extra => c.extra->Some_0));
        }
        append_chat(e, out, color);
    }
    let ghost p4 = out@;
    proof {
        if c.extra is None {
            assert(p4 =~= p3 + Seq::<char>::empty());
        }
    }
    append_translation(c, out, color);
    proof {
        let code = color_code_text(cv);
        let styles = style_text(*c);
        let text = opt_text(c.text);
        let extra = extra_text(*c, cv);
        assert(p4 == p3 + extra);
        assert(out@ =~= p0 + (code + styles + text + extra + translation_text(*c, cv)));
    }
}

/// An optional text, or nothing.
pub open spec fn opt_text(t: Option<String>) -> Seq<char> {
    match t {
        Some(s) => s@,
        None => Seq::empty(),
    }
}

fn append_opt_text(out: &mut Vec<char>, t: &Option<String>)
    ensures
        final(out)@ == old(out)@ + opt_text(*t),
{
    if let Some(s) = t {
        push_str_chars(out, s.as_str());
    } else {
        assert(out@ =~= old(out)@ + opt_text(*t));
    }
}

fn append_translation(c: &ChatComponent, out: &mut Vec<char>, color: Option<&String>)
    ensures
        final(out)@ == old(out)@ + translation_text(*c, opt_ref_chars(color)),
    decreases c, 0int,
{
    if let Some(t) = &c.translate {
        push_str_chars(out, t.as_str());
        if let Some(args) = &c.with {
            proof {
                assert(decreases_to!(*c => c.with));
                assert(decreases_to!(c.with => c.with->Some_0));
            }
            append_list(args, out, color, true);
        } else {
            assert(out@ =~= old(out)@ + translation_text(*c, opt_ref_chars(color)));
        }
    } else {
        assert(out@ =~= old(out)@ + translation_text(*c, opt_ref_chars(color)));
    }
}

/// The legacy text of a chat value.
pub fn chat_component_to_legacy(v: &ChatValue) -> (s: String)
    ensures
        s@ == chat_text(*v, None),
{
    let mut out: Vec<char> = Vec::new();
    append_chat(v, &mut out, None);
    assert(out@ =~= chat_text(*v, None));
    string_from_chars(out.as_slice())
}

/// The MOTD text of a status description (empty when there is none).
pub open spec fn motd_text(description: Option<ChatValue>) -> Seq<char> {
    match description {
        Some(v) => chat_text(v, None),
        None => Seq::empty(),
    }
}

/// The MOTD of a status description, as legacy `§`-coded text: a plain
/// string as it is, a chat component flattened, nothing when absent.
pub fn extract_motd(description: &Option<ChatValue>) -> (s: String)
    ensures
        s@ == motd_text(*description),
{
    match description {
        None => string_from_chars(Vec::<char>::new().as_slice()),
        Some(ChatValue::Text(s)) => s.clone(),
        Some(other) => chat_component_to_legacy(other),
    }
}

// ---------------------------------------------------------------------------
// Laws
// ---------------------------------------------------------------------------

/// Each named chat color has its fixed legacy code: black 0, dark_blue 1,
/// dark_green 2, dark_aqua (dark_cyan) 3, dark_red 4, dark_purple 5, gold
/// (dark_yellow) 6, gray (grey) 7, dark_gray (dark_grey) 8, blue 9, green a,
/// aqua (cyan) b, red c, light_purple (purple, magenta) d, yellow e, white f.
pub proof fn lemma_named_color_table()
    ensures
        named_color_code("black"@) == Some('0'),
        named_color_code("dark_blue"@) == Some('1'),
        named_color_code("dark_green"@) == Some('2'),
        named_color_code("dark_aqua"@) == Some('3'),
        named_color_code("dark_cyan"@) == Some('3'),
        named_color_code("dark_red"@) == Some('4'),
        named_color_code("dark_purple"@) == Some('5'),
        named_color_code("gold"@) == Some('6'),
        named_color_code("dark_yellow"@) == Some('6'),
        named_color_code("gray"@) == Some('7'),
        named_color_code("grey"@) == Some('7'),
        named_color_code("dark_gray"@) == Some('8'),
        named_color_code("dark_grey"@) == Some('8'),
        named_color_code("blue"@) == Some('9'),
        named_color_code("green"@) == Some('a'),
        named_color_code("aqua"@) == Some('b'),
        named_color_code("cyan"@) == Some('b'),
        named_color_code("red"@) == Some('c'),
        named_color_code("light_purple"@) == Some('d'),
        named_color_code("purple"@) == Some('d'),
        named_color_code("magenta"@) == Some('d'),
        named_color_code("yellow"@) == Some('e'),
        named_color_code("white"@) == Some('f'),
{
    assert(named_color_code("black"@) == Some('0')) by {
        reveal_strlit("black");
    }
    assert(named_color_code("dark_blue"@) == Some('1')) by {
        reveal_strlit("dark_blue");
        reveal_strlit("black");
        assert("dark_blue"@.len() != "black"@.len());
    }
    assert(named_color_code("dark_green"@) == Some('2')) by {
        reveal_strlit("dark_green");
        reveal_strlit("black");
        assert("dark_green"@.len() != "black"@.len());
        reveal_strlit("dark_blue");
        assert("dark_green"@.len() != "dark_blue"@.len());
    }
    assert(named_color_code("dark_aqua"@) == Some('3')) by {
        reveal_strlit("dark_aqua");
        reveal_strlit("black");
        assert("dark_aqua"@.len() != "black"@.len());
        reveal_strlit("dark_blue");
        assert("dark_aqua"@[5] != "dark_blue"@[5]);
        reveal_strlit("dark_green");
        assert("dark_aqua"@.len() != "dark_green"@.len());
    }
    assert(named_color_code("dark_cyan"@) == Some('3')) by {
        reveal_strlit("dark_cyan");
        reveal_strlit("black");
        assert("dark_cyan"@.len() != "black"@.len());
        reveal_strlit("dark_blue");
        assert("dark_cyan"@[5] != "dark_blue"@[5]);
        reveal_strlit("dark_green");
        assert("dark_cyan"@.len() != "dark_green"@.len());
        reveal_strlit("dark_aqua");
        assert("dark_cyan"@[5] != "dark_aqua"@[5]);
    }
    assert(named_color_code("dark_red"@) == Some('4')) by {
        reveal_strlit("dark_red");
        reveal_strlit("black");
        assert("dark_red"@.len() != "black"@.len());
        reveal_strlit("dark_blue");
        assert("dark_red"@.len() != "dark_blue"@.len());
        reveal_strlit("dark_green");
        assert("dark_red"@.len() != "dark_green"@.len());
        reveal_strlit("dark_aqua");
        assert("dark_red"@.len() != "dark_aqua"@.len());
        reveal_strlit("dark_cyan");
        assert("dark_red"@.len() != "dark_cyan"@.len());
    }
    assert(named_color_code("dark_purple"@) == Some('5')) by {
        reveal_strlit("dark_purple");
        reveal_strlit("black");
        assert("dark_purple"@.len() != "black"@.len());
        reveal_strlit("dark_blue");
        assert("dark_purple"@.len() != "dark_blue"@.len());
        reveal_strlit("dark_green");
        assert("dark_purple"@.len() != "dark_green"@.len());
        reveal_strlit("dark_aqua");
        assert("dark_purple"@.len() != "dark_aqua"@.len());
        reveal_strlit("dark_cyan");
        assert("dark_purple"@.len() != "dark_cyan"@.len());
        reveal_strlit("dark_red");
        assert("dark_purple"@.len() != "dark_red"@.len());
    }
    assert(named_color_code("gold"@) == Some('6')) by {
        reveal_strlit("gold");
        reveal_strlit("black");
        assert("gold"@.len() != "black"@.len());
        reveal_strlit("dark_blue");
        assert("gold"@.len() != "dark_blue"@.len());
        reveal_strlit("dark_green");
        assert("gold"@.len() != "dark_green"@.len());
        reveal_strlit("dark_aqua");
        assert("gold"@.len() != "dark_aqua"@.len());
        reveal_strlit("dark_cyan");
        assert("gold"@.len() != "dark_cyan"@.len());
        reveal_strlit("dark_red");
        assert("gold"@.len() != "dark_red"@.len());
        reveal_strlit("dark_purple");
        assert("gold"@.len() != "dark_purple"@.len());
    }
    assert(named_color_code("dark_yellow"@) == Some('6')) by {
        reveal_strlit("dark_yellow");
        reveal_strlit("black");
        assert("dark_yellow"@.len() != "black"@.len());
        reveal_strlit("dark_blue");
        assert("dark_yellow"@.len() != "dark_blue"@.len());
        reveal_strlit("dark_green");
        assert("dark_yellow"@.len() != "dark_green"@.len());
        reveal_strlit("dark_aqua");
        assert("dark_yellow"@.len() != "dark_aqua"@.len());
        reveal_strlit("dark_cyan");
        assert("dark_yellow"@.len() != "dark_cyan"@.len());
        reveal_strlit("dark_red");
        assert("dark_yellow"@.len() != "dark_red"@.len());
        reveal_strlit("dark_purple");
        assert("dark_yellow"@[5] != "dark_purple"@[5]);
        reveal_strlit("gold");
        assert("dark_yellow"@.len() != "gold"@.len());
    }
    assert(named_color_code("gray"@) == Some('7')) by {
        reveal_strlit("gray");
        reveal_strlit("black");
        assert("gray"@.len() != "black"@.len());
        reveal_strlit("dark_blue");
        assert("gray"@.len() != "dark_blue"@.len());
        reveal_strlit("dark_green");
        assert("gray"@.len() != "dark_green"@.len());
        reveal_strlit("dark_aqua");
        assert("gray"@.len() != "dark_aqua"@.len());
        reveal_strlit("dark_cyan");
        assert("gray"@.len() != "dark_cyan"@.len());
        reveal_strlit("dark_red");
        assert("gray"@.len() != "dark_red"@.len());
        reveal_strlit("dark_purple");
        assert("gray"@.len() != "dark_purple"@.len());
        reveal_strlit("gold");
        assert("gray"@[1] != "gold"@[1]);
        reveal_strlit("dark_yellow");
        assert("gray"@.len() != "dark_yellow"@.len());
    }
    assert(named_color_code("grey"@) == Some('7')) by {
        reveal_strlit("grey");
        reveal_strlit("black");
        assert("grey"@.len() != "black"@.len());
        reveal_strlit("dark_blue");
        assert("grey"@.len() != "dark_blue"@.len());
        reveal_strlit("dark_green");
        assert("grey"@.len() != "dark_green"@.len());
        reveal_strlit("dark_aqua");
        assert("grey"@.len() != "dark_aqua"@.len());
        reveal_strlit("dark_cyan");
        assert("grey"@.len() != "dark_cyan"@.len());
        reveal_strlit("dark_red");
        assert("grey"@.len() != "dark_red"@.len());
        reveal_strlit("dark_purple");
        assert("grey"@.len() != "dark_purple"@.len());
        reveal_strlit("gold");
        assert("grey"@[1] != "gold"@[1]);
        reveal_strlit("dark_yellow");
        assert("grey"@.len() != "dark_yellow"@.len());
        reveal_strlit("gray");
        assert("grey"@[2] != "gray"@[2]);
    }
    assert(named_color_code("dark_gray"@) == Some('8')) by {
        reveal_strlit("dark_gray");
        reveal_strlit("black");
        assert("dark_gray"@.len() != "black"@.len());
        reveal_strlit("dark_blue");
        assert("dark_gray"@[5] != "dark_blue"@[5]);
        reveal_strlit("dark_green");
        assert("dark_gray"@.len() != "dark_green"@.len());
        reveal_strlit("dark_aqua");
        assert("dark_gray"@[5] != "dark_aqua"@[5]);
        reveal_strlit("dark_cyan");
        assert("dark_gray"@[5] != "dark_cyan"@[5]);
        reveal_strlit("dark_red");
        assert("dark_gray"@.len() != "dark_red"@.len());
        reveal_strlit("dark_purple");
        assert("dark_gray"@.len() != "dark_purple"@.len());
        reveal_strlit("gold");
        assert("dark_gray"@.len() != "gold"@.len());
        reveal_strlit("dark_yellow");
        assert("dark_gray"@.len() != "dark_yellow"@.len());
        reveal_strlit("gray");
        assert("dark_gray"@.len() != "gray"@.len());
        reveal_strlit("grey");
        assert("dark_gray"@.len() != "grey"@.len());
    }
    assert(named_color_code("dark_grey"@) == Some('8')) by {
        reveal_strlit("dark_grey");
        reveal_strlit("black");
        assert("dark_grey"@.len() != "black"@.len());
        reveal_strlit("dark_blue");
        assert("dark_grey"@[5] != "dark_blue"@[5]);
        reveal_strlit("dark_green");
        assert("dark_grey"@.len() != "dark_green"@.len());
        reveal_strlit("dark_aqua");
        assert("dark_grey"@[5] != "dark_aqua"@[5]);
        reveal_strlit("dark_cyan");
        assert("dark_grey"@[5] != "dark_cyan"@[5]);
        reveal_strlit("dark_red");
        assert("dark_grey"@.len() != "dark_red"@.len());
        reveal_strlit("dark_purple");
        assert("dark_grey"@.len() != "dark_purple"@.len());
        reveal_strlit("gold");
        assert("dark_grey"@.len() != "gold"@.len());
        reveal_strlit("dark_yellow");
        assert("dark_grey"@.len() != "dark_yellow"@.len());
        reveal_strlit("gray");
        assert("dark_grey"@.len() != "gray"@.len());
        reveal_strlit("grey");
        assert("dark_grey"@.len() != "grey"@.len());
        reveal_strlit("dark_gray");
        assert("dark_grey"@[7] != "dark_gray"@[7]);
    }
    assert(named_color_code("blue"@) == Some('9')) by {
        reveal_strlit("blue");
        reveal_strlit("black");
        assert("blue"@.len() != "black"@.len());
        reveal_strlit("dark_blue");
        assert("blue"@.len() != "dark_blue"@.len());
        reveal_strlit("dark_green");
        assert("blue"@.len() != "dark_green"@.len());
        reveal_strlit("dark_aqua");
        assert("blue"@.len() != "dark_aqua"@.len());
        reveal_strlit("dark_cyan");
        assert("blue"@.len() != "dark_cyan"@.len());
        reveal_strlit("dark_red");
        assert("blue"@.len() != "dark_red"@.len());
        reveal_strlit("dark_purple");
        assert("blue"@.len() != "dark_purple"@.len());
        reveal_strlit("gold");
        assert("blue"@[0] != "gold"@[0]);
        reveal_strlit("dark_yellow");
        assert("blue"@.len() != "dark_yellow"@.len());
        reveal_strlit("gray");
        assert("blue"@[0] != "gray"@[0]);
        reveal_strlit("grey");
        assert("blue"@[0] != "grey"@[0]);
        reveal_strlit("dark_gray");
        assert("blue"@.len() != "dark_gray"@.len());
        reveal_strlit("dark_grey");
        assert("blue"@.len() != "dark_grey"@.len());
    }
    assert(named_color_code("green"@) == Some('a')) by {
        reveal_strlit("green");
        reveal_strlit("black");
        assert("green"@[0] != "black"@[0]);
        reveal_strlit("dark_blue");
        assert("green"@.len() != "dark_blue"@.len());
        reveal_strlit("dark_green");
        assert("green"@.len() != "dark_green"@.len());
        reveal_strlit("dark_aqua");
        assert("green"@.len() != "dark_aqua"@.len());
        reveal_strlit("dark_cyan");
        assert("green"@.len() != "dark_cyan"@.len());
        reveal_strlit("dark_red");
        assert("green"@.len() != "dark_red"@.len());
        reveal_strlit("dark_purple");
        assert("green"@.len() != "dark_purple"@.len());
        reveal_strlit("gold");
        assert("green"@.len() != "gold"@.len());
        reveal_strlit("dark_yellow");
        assert("green"@.len() != "dark_yellow"@.len());
        reveal_strlit("gray");
        assert("green"@.len() != "gray"@.len());
        reveal_strlit("grey");
        assert("green"@.len() != "grey"@.len());
        reveal_strlit("dark_gray");
        assert("green"@.len() != "dark_gray"@.len());
        reveal_strlit("dark_grey");
        assert("green"@.len() != "dark_grey"@.len());
        reveal_strlit("blue");
        assert("green"@.len() != "blue"@.len());
    }
    assert(named_color_code("aqua"@) == Some('b')) by {
        reveal_strlit("aqua");
        reveal_strlit("black");
        assert("aqua"@.len() != "black"@.len());
        reveal_strlit("dark_blue");
        assert("aqua"@.len() != "dark_blue"@.len());
        reveal_strlit("dark_green");
        assert("aqua"@.len() != "dark_green"@.len());
        reveal_strlit("dark_aqua");
        assert("aqua"@.len() != "dark_aqua"@.len());
        reveal_strlit("dark_cyan");
        assert("aqua"@.len() != "dark_cyan"@.len());
        reveal_strlit("dark_red");
        assert("aqua"@.len() != "dark_red"@.len());
        reveal_strlit("dark_purple");
        assert("aqua"@.len() != "dark_purple"@.len());
        reveal_strlit("gold");
        assert("aqua"@[0] != "gold"@[0]);
        reveal_strlit("dark_yellow");
        assert("aqua"@.len() != "dark_yellow"@.len());
        reveal_strlit("gray");
        assert("aqua"@[0] != "gray"@[0]);
        reveal_strlit("grey");
        assert("aqua"@[0] != "grey"@[0]);
        reveal_strlit("dark_gray");
        assert("aqua"@.len() != "dark_gray"@.len());
        reveal_strlit("dark_grey");
        assert("aqua"@.len() != "dark_grey"@.len());
        reveal_strlit("blue");
        assert("aqua"@[0] != "blue"@[0]);
        reveal_strlit("green");
        assert("aqua"@.len() != "green"@.len());
    }
    assert(named_color_code("cyan"@) == Some('b')) by {
        reveal_strlit("cyan");
        reveal_strlit("black");
        assert("cyan"@.len() != "black"@.len());
        reveal_strlit("dark_blue");
        assert("cyan"@.len() != "dark_blue"@.len());
        reveal_strlit("dark_green");
        assert("cyan"@.len() != "dark_green"@.len());
        reveal_strlit("dark_aqua");
        assert("cyan"@.len() != "dark_aqua"@.len());
        reveal_strlit("dark_cyan");
        assert("cyan"@.len() != "dark_cyan"@.len());
        reveal_strlit("dark_red");
        assert("cyan"@.len() != "dark_red"@.len());
        reveal_strlit("dark_purple");
        assert("cyan"@.len() != "dark_purple"@.len());
        reveal_strlit("gold");
        assert("cyan"@[0] != "gold"@[0]);
        reveal_strlit("dark_yellow");
        assert("cyan"@.len() != "dark_yellow"@.len());
        reveal_strlit("gray");
        assert("cyan"@[0] != "gray"@[0]);
        reveal_strlit("grey");
        assert("cyan"@[0] != "grey"@[0]);
        reveal_strlit("dark_gray");
        assert("cyan"@.len() != "dark_gray"@.len());
        reveal_strlit("dark_grey");
        assert("cyan"@.len() != "dark_grey"@.len());
        reveal_strlit("blue");
        assert("cyan"@[0] != "blue"@[0]);
        reveal_strlit("green");
        assert("cyan"@.len() != "green"@.len());
        reveal_strlit("aqua");
        assert("cyan"@[0] != "aqua"@[0]);
    }
    assert(named_color_code("red"@) == Some('c')) by {
        reveal_strlit("red");
        reveal_strlit("black");
        assert("red"@.len() != "black"@.len());
        reveal_strlit("dark_blue");
        assert("red"@.len() != "dark_blue"@.len());
        reveal_strlit("dark_green");
        assert("red"@.len() != "dark_green"@.len());
        reveal_strlit("dark_aqua");
        assert("red"@.len() != "dark_aqua"@.len());
        reveal_strlit("dark_cyan");
        assert("red"@.len() != "dark_cyan"@.len());
        reveal_strlit("dark_red");
        assert("red"@.len() != "dark_red"@.len());
        reveal_strlit("dark_purple");
        assert("red"@.len() != "dark_purple"@.len());
        reveal_strlit("gold");
        assert("red"@.len() != "gold"@.len());
        reveal_strlit("dark_yellow");
        assert("red"@.len() != "dark_yellow"@.len());
        reveal_strlit("gray");
        assert("red"@.len() != "gray"@.len());
        reveal_strlit("grey");
        assert("red"@.len() != "grey"@.len());
        reveal_strlit("dark_gray");
        assert("red"@.len() != "dark_gray"@.len());
        reveal_strlit("dark_grey");
        assert("red"@.len() != "dark_grey"@.len());
        reveal_strlit("blue");
        assert("red"@.len() != "blue"@.len());
        reveal_strlit("green");
        assert("red"@.len() != "green"@.len());
        reveal_strlit("aqua");
        assert("red"@.len() != "aqua"@.len());
        reveal_strlit("cyan");
        assert("red"@.len() != "cyan"@.len());
    }
    assert(named_color_code("light_purple"@) == Some('d')) by {
        reveal_strlit("light_purple");
        reveal_strlit("black");
        assert("light_purple"@.len() != "black"@.len());
        reveal_strlit("dark_blue");
        assert("light_purple"@.len() != "dark_blue"@.len());
        reveal_strlit("dark_green");
        assert("light_purple"@.len() != "dark_green"@.len());
        reveal_strlit("dark_aqua");
        assert("light_purple"@.len() != "dark_aqua"@.len());
        reveal_strlit("dark_cyan");
        assert("light_purple"@.len() != "dark_cyan"@.len());
        reveal_strlit("dark_red");
        assert("light_purple"@.len() != "dark_red"@.len());
        reveal_strlit("dark_purple");
        assert("light_purple"@.len() != "dark_purple"@.len());
        reveal_strlit("gold");
        assert("light_purple"@.len() != "gold"@.len());
        reveal_strlit("dark_yellow");
        assert("light_purple"@.len() != "dark_yellow"@.len());
        reveal_strlit("gray");
        assert("light_purple"@.len() != "gray"@.len());
        reveal_strlit("grey");
        assert("light_purple"@.len() != "grey"@.len());
        reveal_strlit("dark_gray");
        assert("light_purple"@.len() != "dark_gray"@.len());
        reveal_strlit("dark_grey");
        assert("light_purple"@.len() != "dark_grey"@.len());
        reveal_strlit("blue");
        assert("light_purple"@.len() != "blue"@.len());
        reveal_strlit("green");
        assert("light_purple"@.len() != "green"@.len());
        reveal_strlit("aqua");
        assert("light_purple"@.len() != "aqua"@.len());
        reveal_strlit("cyan");
        assert("light_purple"@.len() != "cyan"@.len());
        reveal_strlit("red");
        assert("light_purple"@.len() != "red"@.len());
    }
    assert(named_color_code("purple"@) == Some('d')) by {
        reveal_strlit("purple");
        reveal_strlit("black");
        assert("purple"@.len() != "black"@.len());
        reveal_strlit("dark_blue");
        assert("purple"@.len() != "dark_blue"@.len());
        reveal_strlit("dark_green");
        assert("purple"@.len() != "dark_green"@.len());
        reveal_strlit("dark_aqua");
        assert("purple"@.len() != "dark_aqua"@.len());
        reveal_strlit("dark_cyan");
        assert("purple"@.len() != "dark_cyan"@.len());
        reveal_strlit("dark_red");
        assert("purple"@.len() != "dark_red"@.len());
        reveal_strlit("dark_purple");
        assert("purple"@.len() != "dark_purple"@.len());
        reveal_strlit("gold");
        assert("purple"@.len() != "gold"@.len());
        reveal_strlit("dark_yellow");
        assert("purple"@.len() != "dark_yellow"@.len());
        reveal_strlit("gray");
        assert("purple"@.len() != "gray"@.len());
        reveal_strlit("grey");
        assert("purple"@.len() != "grey"@.len());
        reveal_strlit("dark_gray");
        assert("purple"@.len() != "dark_gray"@.len());
        reveal_strlit("dark_grey");
        assert("purple"@.len() != "dark_grey"@.len());
        reveal_strlit("blue");
        assert("purple"@.len() != "blue"@.len());
        reveal_strlit("green");
        assert("purple"@.len() != "green"@.len());
        reveal_strlit("aqua");
        assert("purple"@.len() != "aqua"@.len());
        reveal_strlit("cyan");
        assert("purple"@.len() != "cyan"@.len());
        reveal_strlit("red");
        assert("purple"@.len() != "red"@.len());
        reveal_strlit("light_purple");
        assert("purple"@.len() != "light_purple"@.len());
    }
    assert(named_color_code("magenta"@) == Some('d')) by {
        reveal_strlit("magenta");
        reveal_strlit("black");
        assert("magenta"@.len() != "black"@.len());
        reveal_strlit("dark_blue");
        assert("magenta"@.len() != "dark_blue"@.len());
        reveal_strlit("dark_green");
        assert("magenta"@.len() != "dark_green"@.len());
        reveal_strlit("dark_aqua");
        assert("magenta"@.len() != "dark_aqua"@.len());
        reveal_strlit("dark_cyan");
        assert("magenta"@.len() != "dark_cyan"@.len());
        reveal_strlit("dark_red");
        assert("magenta"@.len() != "dark_red"@.len());
        reveal_strlit("dark_purple");
        assert("magenta"@.len() != "dark_purple"@.len());
        reveal_strlit("gold");
        assert("magenta"@.len() != "gold"@.len());
        reveal_strlit("dark_yellow");
        assert("magenta"@.len() != "dark_yellow"@.len());
        reveal_strlit("gray");
        assert("magenta"@.len() != "gray"@.len());
        reveal_strlit("grey");
        assert("magenta"@.len() != "grey"@.len());
        reveal_strlit("dark_gray");
        assert("magenta"@.len() != "dark_gray"@.len());
        reveal_strlit("dark_grey");
        assert("magenta"@.len() != "dark_grey"@.len());
        reveal_strlit("blue");
        assert("magenta"@.len() != "blue"@.len());
        reveal_strlit("green");
        assert("magenta"@.len() != "green"@.len());
        reveal_strlit("aqua");
        assert("magenta"@.len() != "aqua"@.len());
        reveal_strlit("cyan");
        assert("magenta"@.len() != "cyan"@.len());
        reveal_strlit("red");
        assert("magenta"@.len() != "red"@.len());
        reveal_strlit("light_purple");
        assert("magenta"@.len() != "light_purple"@.len());
        reveal_strlit("purple");
        assert("magenta"@.len() != "purple"@.len());
    }
    assert(named_color_code("yellow"@) == Some('e')) by {
        reveal_strlit("yellow");
        reveal_strlit("black");
        assert("yellow"@.len() != "black"@.len());
        reveal_strlit("dark_blue");
        assert("yellow"@.len() != "dark_blue"@.len());
        reveal_strlit("dark_green");
        assert("yellow"@.len() != "dark_green"@.len());
        reveal_strlit("dark_aqua");
        assert("yellow"@.len() != "dark_aqua"@.len());
        reveal_strlit("dark_cyan");
        assert("yellow"@.len() != "dark_cyan"@.len());
        reveal_strlit("dark_red");
        assert("yellow"@.len() != "dark_red"@.len());
        reveal_strlit("dark_purple");
        assert("yellow"@.len() != "dark_purple"@.len());
        reveal_strlit("gold");
        assert("yellow"@.len() != "gold"@.len());
        reveal_strlit("dark_yellow");
        assert("yellow"@.len() != "dark_yellow"@.len());
        reveal_strlit("gray");
        assert("yellow"@.len() != "gray"@.len());
        reveal_strlit("grey");
        assert("yellow"@.len() != "grey"@.len());
        reveal_strlit("dark_gray");
        assert("yellow"@.len() != "dark_gray"@.len());
        reveal_strlit("dark_grey");
        assert("yellow"@.len() != "dark_grey"@.len());
        reveal_strlit("blue");
        assert("yellow"@.len() != "blue"@.len());
        reveal_strlit("green");
        assert("yellow"@.len() != "green"@.len());
        reveal_strlit("aqua");
        assert("yellow"@.len() != "aqua"@.len());
        reveal_strlit("cyan");
        assert("yellow"@.len() != "cyan"@.len());
        reveal_strlit("red");
        assert("yellow"@.len() != "red"@.len());
        reveal_strlit("light_purple");
        assert("yellow"@.len() != "light_purple"@.len());
        reveal_strlit("purple");
        assert("yellow"@[0] != "purple"@[0]);
        reveal_strlit("magenta");
        assert("yellow"@.len() != "magenta"@.len());
    }
    assert(named_color_code("white"@) == Some('f')) by {
        reveal_strlit("white");
        reveal_strlit("black");
        assert("white"@[0] != "black"@[0]);
        reveal_strlit("dark_blue");
        assert("white"@.len() != "dark_blue"@.len());
        reveal_strlit("dark_green");
        assert("white"@.len() != "dark_green"@.len());
        reveal_strlit("dark_aqua");
        assert("white"@.len() != "dark_aqua"@.len());
        reveal_strlit("dark_cyan");
        assert("white"@.len() != "dark_cyan"@.len());
        reveal_strlit("dark_red");
        assert("white"@.len() != "dark_red"@.len());
        reveal_strlit("dark_purple");
        assert("white"@.len() != "dark_purple"@.len());
        reveal_strlit("gold");
        assert("white"@.len() != "gold"@.len());
        reveal_strlit("dark_yellow");
        assert("white"@.len() != "dark_yellow"@.len());
        reveal_strlit("gray");
        assert("white"@.len() != "gray"@.len());
        reveal_strlit("grey");
        assert("white"@.len() != "grey"@.len());
        reveal_strlit("dark_gray");
        assert("white"@.len() != "dark_gray"@.len());
        reveal_strlit("dark_grey");
        assert("white"@.len() != "dark_grey"@.len());
        reveal_strlit("blue");
        assert("white"@.len() != "blue"@.len());
        reveal_strlit("green");
        assert("white"@[0] != "green"@[0]);
        reveal_strlit("aqua");
        assert("white"@.len() != "aqua"@.len());
        reveal_strlit("cyan");
        assert("white"@.len() != "cyan"@.len());
        reveal_strlit("red");
        assert("white"@.len() != "red"@.len());
        reveal_strlit("light_purple");
        assert("white"@.len() != "light_purple"@.len());
        reveal_strlit("purple");
        assert("white"@.len() != "purple"@.len());
        reveal_strlit("magenta");
        assert("white"@.len() != "magenta"@.len());
        reveal_strlit("yellow");
        assert("white"@.len() != "yellow"@.len());
    }
}

/// A name outside the color table, such as a `#rrggbb` color, has no code.
pub proof fn lemma_unknown_color(name: Seq<char>)
    requires
        name.len() > 0,
        name[0] == '#',
    ensures
        named_color_code(name) is None,
{
    reveal_strlit("black");
    reveal_strlit("dark_blue");
    reveal_strlit("dark_green");
    reveal_strlit("dark_aqua");
    reveal_strlit("dark_cyan");
    reveal_strlit("dark_red");
    reveal_strlit("dark_purple");
    reveal_strlit("gold");
    reveal_strlit("dark_yellow");
    reveal_strlit("gray");
    reveal_strlit("grey");
    reveal_strlit("dark_gray");
    reveal_strlit("dark_grey");
    reveal_strlit("blue");
    reveal_strlit("green");
    reveal_strlit("aqua");
    reveal_strlit("cyan");
    reveal_strlit("red");
    reveal_strlit("light_purple");
    reveal_strlit("purple");
    reveal_strlit("magenta");
    reveal_strlit("yellow");
    reveal_strlit("white");
}

/// The style codes of a component: `§l` for bold, `§o` for italic, `§n` for
/// underlined, `§m` for strikethrough and `§k` for obfuscated, in that order.
pub proof fn lemma_style_codes(c: ChatComponent)
    ensures
        style_text(c) == (if c.bold { seq!['§', 'l'] } else { Seq::empty() }) + (if c.italic {
            seq!['§', 'o']
        } else {
            Seq::empty()
        }) + (if c.underlined { seq!['§', 'n'] } else { Seq::empty() }) + (if c.strikethrough {
            seq!['§', 'm']
        } else {
            Seq::empty()
        }) + (if c.obfuscated { seq!['§', 'k'] } else { Seq::empty() }),
{
    reveal_strlit("§l");
    reveal_strlit("§o");
    reveal_strlit("§n");
    reveal_strlit("§m");
    reveal_strlit("§k");
    assert(style_text(c) =~= (if c.bold { seq!['§', 'l'] } else { Seq::empty() }) + (if c.italic {
        seq!['§', 'o']
    } else {
        Seq::empty()
    }) + (if c.underlined { seq!['§', 'n'] } else { Seq::empty() }) + (if c.strikethrough {
        seq!['§', 'm']
    } else {
        Seq::empty()
    }) + (if c.obfuscated { seq!['§', 'k'] } else { Seq::empty() }));
}

/// A component that holds only a text and a known color name flattens to
/// `§`, the color's code, then the text, whatever color it inherits.
pub proof fn lemma_colored_text(c: ChatComponent, parent: Option<Seq<char>>, k: char)
    requires
        c.color matches Some(name) && named_color_code(name@) == Some(k),
        !c.bold && !c.italic && !c.underlined && !c.strikethrough && !c.obfuscated,
        c.text is Some,
        c.extra is None,
        c.translate is None,
    ensures
        component_text(c, parent) == seq!['§', k] + c.text->Some_0@,
{
    lemma_style_codes(c);
    assert(component_text(c, parent) =~= seq!['§', k] + c.text->Some_0@);
}

/// A text without a color, inside a component of a known color, takes that
/// color: `{text: t}` inside a component colored `name` flattens to `§`, the
/// code of `name`, then `t`.
pub proof fn lemma_inherited_color(c: ChatComponent, parent: Seq<char>, k: char)
    requires
        c.color is None,
        named_color_code(parent) == Some(k),
        !c.bold && !c.italic && !c.underlined && !c.strikethrough && !c.obfuscated,
        c.text is Some,
        c.extra is None,
        c.translate is None,
    ensures
        component_text(c, Some(parent)) == seq!['§', k] + c.text->Some_0@,
{
    lemma_style_codes(c);
    assert(component_text(c, Some(parent)) =~= seq!['§', k] + c.text->Some_0@);
}

} // verus!
