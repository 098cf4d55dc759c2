//! Translation of window-system keystrokes into key events for the terminal
//! core's key encoder.

use vstd::prelude::*;

use crate::ghostty::{Action, Key, Mods, MODS_ALT, MODS_CTRL, MODS_SHIFT, MODS_SUPER};
use crate::keystroke::{
    ascii_lower, eq_ignore_ascii_case, only_char, single_char, str_eq, to_ascii_lower, Keystroke,
    KeystrokeModifiers,
};

verus! {

/// The key that a one-character key name stands for.
pub open spec fn char_key(c: char) -> Key {
    let lower = ascii_lower(c);
    if 'a' <= lower <= 'z' {
        if c == 'a' {
            Key::A
        } else if c == 'b' {
            Key::B
        } else if c == 'c' {
            Key::C
        } else if c == 'd' {
            Key::D
        } else if c == 'e' {
            Key::E
        } else if c == 'f' {
            Key::F
        } else if c == 'g' {
            Key::G
        } else if c == 'h' {
            Key::H
        } else if c == 'i' {
            Key::I
        } else if c == 'j' {
            Key::J
        } else if c == 'k' {
            Key::K
        } else if c == 'l' {
            Key::L
        } else if c == 'm' {
            Key::M
        } else if c == 'n' {
            Key::N
        } else if c == 'o' {
            Key::O
        } else if c == 'p' {
            Key::P
        } else if c == 'q' {
            Key::Q
        } else if c == 'r' {
            Key::R
        } else if c == 's' {
            Key::S
        } else if c == 't' {
            Key::T
        } else if c == 'u' {
            Key::U
        } else if c == 'v' {
            Key::V
        } else if c == 'w' {
            Key::W
        } else if c == 'x' {
            Key::X
        } else if c == 'y' {
            Key::Y
        } else if c == 'z' {
            Key::Z
        } else {
            Key::Unidentified
        }
    } else if lower == '0' {
        Key::Digit0
    } else if lower == '1' {
        Key::Digit1
    } else if lower == '2' {
        Key::Digit2
    } else if lower == '3' {
        Key::Digit3
    } else if lower == '4' {
        Key::Digit4
    } else if lower == '5' {
        Key::Digit5
    } else if lower == '6' {
        Key::Digit6
    } else if lower == '7' {
        Key::Digit7
    } else if lower == '8' {
        Key::Digit8
    } else if lower == '9' {
        Key::Digit9
    } else if lower == '-' {
        Key::Minus
    } else if lower == '=' {
        Key::Equal
    } else if lower == '[' {
        Key::BracketLeft
    } else if lower == ']' {
        Key::BracketRight
    } else if lower == ';' {
        Key::Semicolon
    } else if lower == '\'' {
        Key::Quote
    } else if lower == ',' {
        Key::Comma
    } else if lower == '.' {
        Key::Period
    } else if lower == '/' {
        Key::Slash
    } else if lower == '\\' {
        Key::Backslash
    } else if lower == '`' {
        Key::Backquote
    } else {
        Key::Unidentified
    }
}

/// The key that a named key stands for: the named special keys, else a
/// one-character ASCII name, else an unidentified key.
pub open spec fn key_for_name(name: Seq<char>) -> Key {
    if name == "up"@ {
        Key::ArrowUp
    } else if name == "down"@ {
        Key::ArrowDown
    } else if name == "left"@ {
        Key::ArrowLeft
    } else if name == "right"@ {
        Key::ArrowRight
    } else if name == "home"@ {
        Key::Home
    } else if name == "end"@ {
        Key::End
    } else if name == "insert"@ {
        Key::Insert
    } else if name == "delete"@ {
        Key::Delete
    } else if name == "pageup"@ {
        Key::PageUp
    } else if name == "pagedown"@ {
        Key::PageDown
    } else if name == "escape"@ {
        Key::Escape
    } else if name == "enter"@ {
        Key::Enter
    } else if name == "backspace"@ {
        Key::Backspace
    } else if name == "tab"@ {
        Key::Tab
    } else if name == "space"@ {
        Key::Space
    } else if name == "f1"@ {
        Key::F1
    } else if name == "f2"@ {
        Key::F2
    } else if name == "f3"@ {
        Key::F3
    } else if name == "f4"@ {
        Key::F4
    } else if name == "f5"@ {
        Key::F5
    } else if name == "f6"@ {
        Key::F6
    } else if name == "f7"@ {
        Key::F7
    } else if name == "f8"@ {
        Key::F8
    } else if name == "f9"@ {
        Key::F9
    } else if name == "f10"@ {
        Key::F10
    } else if name == "f11"@ {
        Key::F11
    } else if name == "f12"@ {
        Key::F12
    } else if name.len() == 1 && (name[0] as u32) < 128 {
        char_key(name[0])
    } else {
        Key::Unidentified
    }
}

fn char_key_exec(c: char) -> (r: Key)
    ensures
        r == char_key(c),
{
    let lower = to_ascii_lower(c);
    if 'a' <= lower && lower <= 'z' {
        match c {
            'a' => Key::A,
            'b' => Key::B,
            'c' => Key::C,
            'd' => Key::D,
            'e' => Key::E,
            'f' => Key::F,
            'g' => Key::G,
            'h' => Key::H,
            'i' => Key::I,
            'j' => Key::J,
            'k' => Key::K,
            'l' => Key::L,
            'm' => Key::M,
            'n' => Key::N,
            'o' => Key::O,
            'p' => Key::P,
            'q' => Key::Q,
            'r' => Key::R,
            's' => Key::S,
            't' => Key::T,
            'u' => Key::U,
            'v' => Key::V,
            'w' => Key::W,
            'x' => Key::X,
            'y' => Key::Y,
            'z' => Key::Z,
            _ => Key::Unidentified,
        }
    } else {
        match lower {
            '0' => Key::Digit0,
            '1' => Key::Digit1,
            '2' => Key::Digit2,
            '3' => Key::Digit3,
            '4' => Key::Digit4,
            '5' => Key::Digit5,
            '6' => Key::Digit6,
            '7' => Key::Digit7,
            '8' => Key::Digit8,
            '9' => Key::Digit9,
            '-' => Key::Minus,
            '=' => Key::Equal,
            '[' => Key::BracketLeft,
            ']' => Key::BracketRight,
            ';' => Key::Semicolon,
            '\'' => Key::Quote,
            ',' => Key::Comma,
            '.' => Key::Period,
            '/' => Key::Slash,
            '\\' => Key::Backslash,
            '`' => Key::Backquote,
            _ => Key::Unidentified,
        }
    }
}

/// The encoder key for a keystroke's key name.
pub fn convert_to_ghostty_key(keystroke: &Keystroke) -> (r: Key)
    ensures
        r == key_for_name(keystroke.key@),
{
    let key = keystroke.key.as_str();
    if str_eq(key, "up") {
        Key::ArrowUp
    } else if str_eq(key, "down") {
        Key::ArrowDown
    } else if str_eq(key, "left") {
        Key::ArrowLeft
    } else if str_eq(key, "right") {
        Key::ArrowRight
    } else if str_eq(key, "home") {
        Key::Home
    } else if str_eq(key, "end") {
        Key::End
    } else if str_eq(key, "insert") {
        Key::Insert
    } else if str_eq(key, "delete") {
        Key::Delete
    } else if str_eq(key, "pageup") {
        Key::PageUp
    } else if str_eq(key, "pagedown") {
        Key::PageDown
    } else if str_eq(key, "escape") {
        Key::Escape
    } else if str_eq(key, "enter") {
        Key::Enter
    } else if str_eq(key, "backspace") {
        Key::Backspace
    } else if str_eq(key, "tab") {
        Key::Tab
    } else if str_eq(key, "space") {
        Key::Space
    } else if str_eq(key, "f1") {
        Key::F1
    } else if str_eq(key, "f2") {
        Key::F2
    } else if str_eq(key, "f3") {
        Key::F3
    } else if str_eq(key, "f4") {
        Key::F4
    } else if str_eq(key, "f5") {
        Key::F5
    } else if str_eq(key, "f6") {
        Key::F6
    } else if str_eq(key, "f7") {
        Key::F7
    } else if str_eq(key, "f8") {
        Key::F8
    } else if str_eq(key, "f9") {
        Key::F9
    } else if str_eq(key, "f10") {
        Key::F10
    } else if str_eq(key, "f11") {
        Key::F11
    } else if str_eq(key, "f12") {
        Key::F12
    } else {
        match only_char(key) {
            Some(c) => if (c as u32) < 128 {
                char_key_exec(c)
            } else {
                Key::Unidentified
            },
            None => Key::Unidentified,
        }
    }
}

/// The encoder modifier bits of the held modifiers.
pub open spec fn mods_value(m: KeystrokeModifiers) -> u16 {
    ((if m.shift {
        MODS_SHIFT
    } else {
        0u16
    }) | (if m.alt {
        MODS_ALT
    } else {
        0u16
    })) | ((if m.control {
        MODS_CTRL
    } else {
        0u16
    }) | (if m.platform {
        MODS_SUPER
    } else {
        0u16
    }))
}

/// The encoder modifiers of a keystroke.
pub fn convert_to_ghostty_mods(keystroke: &Keystroke) -> (r: Mods)
    ensures
        r.value() == mods_value(keystroke.modifiers),
{
    let m = keystroke.modifiers;
    let mut mods = Mods::empty();
    mods = mods | if m.shift {
        Mods::shift()
    } else {
        Mods::empty()
    };
    mods = mods | if m.alt {
        Mods::alt()
    } else {
        Mods::empty()
    };
    mods = mods | if m.control {
        Mods::ctrl()
    } else {
        Mods::empty()
    };
    mods = mods | if m.platform {
        Mods::super_key()
    } else {
        Mods::empty()
    };
    let v = mods.raw();
    let (s, a, c, p) = (m.shift, m.alt, m.control, m.platform);
    let ghost e = mods_value(m);
    assert(v == e) by (bit_vector)
        requires
            v == ((((0u16 | (if s {
                1u16
            } else {
                0u16
            })) | (if a {
                4u16
            } else {
                0u16
            })) | (if c {
                2u16
            } else {
                0u16
            })) | (if p {
                8u16
            } else {
                0u16
            })),
            e == ((if s {
                1u16
            } else {
                0u16
            }) | (if a {
                4u16
            } else {
                0u16
            })) | ((if c {
                2u16
            } else {
                0u16
            }) | (if p {
                8u16
            } else {
                0u16
            })),
    ;
    mods
}

/// The text a keystroke types, if any: nothing on release; the typed text
/// when there is some; a space for the space key; a one-character key name.
pub open spec fn printable_of(key: Seq<char>, key_char: Option<Seq<char>>, action: Action) -> Option<
    Seq<char>,
> {
    if action == Action::Release {
        None
    } else if key_char is Some && key_char->0.len() > 0 {
        key_char
    } else if key == "space"@ {
        Some(" "@)
    } else if key.len() == 1 {
        Some(key)
    } else {
        None
    }
}

/// The text a keystroke types, if any.
pub fn printable_text<'a>(keystroke: &'a Keystroke, action: Action) -> (r: Option<&'a str>)
    ensures
        match r {
            Some(t) => printable_of(
                keystroke.key@,
                match keystroke.key_char {
                    Some(c) => Some(c@),
                    None => None,
                },
                action,
            ) == Some(t@),
            None => printable_of(
                keystroke.key@,
                match keystroke.key_char {
                    Some(c) => Some(c@),
                    None => None,
                },
                action,
            ) is None,
        },
{
    if action == Action::Release {
        return None;
    }
    if let Some(t) = &keystroke.key_char {
        if t.as_str().unicode_len() > 0 {
            return Some(t.as_str());
        }
    }
    if str_eq(keystroke.key.as_str(), "space") {
        Some(" ")
    } else if keystroke.key.as_str().unicode_len() == 1 {
        Some(keystroke.key.as_str())
    } else {
        None
    }
}

/// The character a key name produces without Shift: the ASCII letter in lower
/// case, the digit or unshifted symbol under a shifted symbol, a space for
/// the space key, NUL for other names longer than one character.
pub open spec fn unshifted_of(key: Seq<char>) -> char {
    if key == "space"@ {
        ' '
    } else if key.len() != 1 {
        '\0'
    } else {
        let c = key[0];
        if 'A' <= c <= 'Z' {
            ascii_lower(c)
        } else if c == '!' {
            '1'
        } else if c == '@' {
            '2'
        } else if c == '#' {
            '3'
        } else if c == '$' {
            '4'
        } else if c == '%' {
            '5'
        } else if c == '^' {
            '6'
        } else if c == '&' {
            '7'
        } else if c == '*' {
            '8'
        } else if c == '(' {
            '9'
        } else if c == ')' {
            '0'
        } else if c == '_' {
            '-'
        } else if c == '+' {
            '='
        } else if c == '{' {
            '['
        } else if c == '}' {
            ']'
        } else if c == '|' {
            '\\'
        } else if c == ':' {
            ';'
        } else if c == '"' {
            '\''
        } else if c == '<' {
            ','
        } else if c == '>' {
            '.'
        } else if c == '?' {
            '/'
        } else if c == '~' {
            '`'
        } else {
            c
        }
    }
}

/// The character a keystroke's key produces without Shift.
pub fn unshifted_codepoint(keystroke: &Keystroke) -> (r: char)
    ensures
        r == unshifted_of(keystroke.key@),
{
    let key = keystroke.key.as_str();
    if str_eq(key, "space") {
        return ' ';
    }
    let c = match only_char(key) {
        Some(c) => c,
        None => {
            return '\0';
        },
    };
    if 'A' <= c && c <= 'Z' {
        return to_ascii_lower(c);
    }
    match c {
        '!' => '1',
        '@' => '2',
        '#' => '3',
        '$' => '4',
        '%' => '5',
        '^' => '6',
        '&' => '7',
        '*' => '8',
        '(' => '9',
        ')' => '0',
        '_' => '-',
        '+' => '=',
        '{' => '[',
        '}' => ']',
        '|' => '\\',
        ':' => ';',
        '"' => '\'',
        '<' => ',',
        '>' => '.',
        '?' => '/',
        '~' => '`',
        _ => c,
    }
}

/// Whether a one-character key name differs from its unshifted character.
pub open spec fn implies_shift(key: Seq<char>, ucp: char) -> bool {
    match single_char(key) {
        Some(kc) => ucp != '\0' && kc != ucp,
        None => false,
    }
}

/// Whether the key name itself shows that Shift was used.
pub fn key_implies_shift(key: &str, ucp: char) -> (r: bool)
    ensures
        r == implies_shift(key@, ucp),
{
    match only_char(key) {
        Some(kc) => ucp != '\0' && kc != ucp,
        None => false,
    }
}

/// The modifiers used up in producing the typed text: Shift when one typed
/// character shows Shift at work, else none.
pub open spec fn consumed_of(key: Seq<char>, mods: u16, text: Option<Seq<char>>, ucp: char) -> u16 {
    match text {
        None => 0,
        Some(t) => match single_char(t) {
            None => 0,
            Some(tc) => if (mods & MODS_SHIFT != 0 && tc != ucp) || implies_shift(key, ucp) {
                MODS_SHIFT
            } else {
                0
            },
        },
    }
}

/// The modifiers consumed in producing `text`.
pub fn consumed_mods(key: &str, mods: Mods, text: Option<&str>, ucp: char) -> (r: Mods)
    ensures
        r.value() == consumed_of(
            key@,
            mods.value(),
            match text {
                Some(t) => Some(t@),
                None => None,
            },
            ucp,
        ),
{
    let t = match text {
        Some(t) => t,
        None => {
            return Mods::empty();
        },
    };
    let tc = match only_char(t) {
        Some(tc) => tc,
        None => {
            return Mods::empty();
        },
    };
    if mods.contains(Mods::shift()) && tc != ucp {
        Mods::shift()
    } else if key_implies_shift(key, ucp) {
        Mods::shift()
    } else {
        Mods::empty()
    }
}

/// Whether the keystroke is the feedback capture shortcut, Ctrl+Shift+F12.
pub fn is_feedback_capture_shortcut(keystroke: &Keystroke) -> (r: bool)
    ensures
        r == (keystroke.modifiers.control && keystroke.modifiers.shift && keystroke.key@.len()
            == "f12"@.len() && forall|j: int|
            0 <= j < keystroke.key@.len() ==> ascii_lower(#[trigger] keystroke.key@[j])
                == ascii_lower("f12"@[j])),
{
    let modifiers = keystroke.modifiers;
    modifiers.control && modifiers.shift && eq_ignore_ascii_case(keystroke.key.as_str(), "f12")
}

/// The fields of the key event handed to the key encoder for a keystroke.
#[derive(Debug, Clone, PartialEq, Eq)]
pub struct KeyEventFields {
    pub action: Action,
    pub key: Key,
    pub mods: Mods,
    pub consumed_mods: Mods,
    pub unshifted_codepoint: char,
    pub utf8: Option<String>,
    pub composing: bool,
}

/// The key event for a keystroke and action: its key, its modifiers, the
/// text it types (none on release), the character of its key without Shift,
/// the modifiers used up in typing the text, and no composition.
pub fn key_event_fields(keystroke: &Keystroke, action: Action) -> (r: KeyEventFields)
    ensures
        r.action == action,
        r.key == key_for_name(keystroke.key@),
        r.mods.value() == mods_value(keystroke.modifiers),
        r.unshifted_codepoint == unshifted_of(keystroke.key@),
        match r.utf8 {
            Some(t) => printable_of(
                keystroke.key@,
                match keystroke.key_char {
                    Some(c) => Some(c@),
                    None => None,
                },
                action,
            ) == Some(t@),
            None => printable_of(
                keystroke.key@,
                match keystroke.key_char {
                    Some(c) => Some(c@),
                    None => None,
                },
                action,
            ) is None,
        },
        r.consumed_mods.value() == consumed_of(
            keystroke.key@,
            mods_value(keystroke.modifiers),
            printable_of(
                keystroke.key@,
                match keystroke.key_char {
                    Some(c) => Some(c@),
                    None => None,
                },
                action,
            ),
            unshifted_of(keystroke.key@),
        ),
        !r.composing,
{
    let key = convert_to_ghostty_key(keystroke);
    let mods = convert_to_ghostty_mods(keystroke);
    let text = printable_text(keystroke, action);
    let ucp = unshifted_codepoint(keystroke);
    let consumed = consumed_mods(keystroke.key.as_str(), mods, text, ucp);
    let utf8 = match text {
        Some(t) => Some(t.to_owned()),
        None => None,
    };
    KeyEventFields {
        action,
        key,
        mods,
        consumed_mods: consumed,
        unshifted_codepoint: ucp,
        utf8,
        composing: false,
    }
}

/// The characters of the special key names.
proof fn lemma_key_name_chars()
    ensures
        "up"@ == seq!['u', 'p'],
        "down"@ == seq!['d', 'o', 'w', 'n'],
        "left"@ == seq!['l', 'e', 'f', 't'],
        "right"@ == seq!['r', 'i', 'g', 'h', 't'],
        "home"@ == seq!['h', 'o', 'm', 'e'],
        "end"@ == seq!['e', 'n', 'd'],
        "insert"@ == seq!['i', 'n', 's', 'e', 'r', 't'],
        "delete"@ == seq!['d', 'e', 'l', 'e', 't', 'e'],
        "pageup"@ == seq!['p', 'a', 'g', 'e', 'u', 'p'],
        "pagedown"@ == seq!['p', 'a', 'g', 'e', 'd', 'o', 'w', 'n'],
        "escape"@ == seq!['e', 's', 'c', 'a', 'p', 'e'],
        "enter"@ == seq!['e', 'n', 't', 'e', 'r'],
        "backspace"@ == seq!['b', 'a', 'c', 'k', 's', 'p', 'a', 'c', 'e'],
        "tab"@ == seq!['t', 'a', 'b'],
        "space"@ == seq!['s', 'p', 'a', 'c', 'e'],
        "f1"@ == seq!['f', '1'],
        "f2"@ == seq!['f', '2'],
        "f3"@ == seq!['f', '3'],
        "f4"@ == seq!['f', '4'],
        "f5"@ == seq!['f', '5'],
        "f6"@ == seq!['f', '6'],
        "f7"@ == seq!['f', '7'],
        "f8"@ == seq!['f', '8'],
        "f9"@ == seq!['f', '9'],
        "f10"@ == seq!['f', '1', '0'],
        "f11"@ == seq!['f', '1', '1'],
        "f12"@ == seq!['f', '1', '2'],
{
    reveal_strlit("up");
    assert("up"@ =~= seq!['u', 'p']);
    reveal_strlit("down");
    assert("down"@ =~= seq!['d', 'o', 'w', 'n']);
    reveal_strlit("left");
    assert("left"@ =~= seq!['l', 'e', 'f', 't']);
    reveal_strlit("right");
    assert("right"@ =~= seq!['r', 'i', 'g', 'h', 't']);
    reveal_strlit("home");
    assert("home"@ =~= seq!['h', 'o', 'm', 'e']);
    reveal_strlit("end");
    assert("end"@ =~= seq!['e', 'n', 'd']);
    reveal_strlit("insert");
    assert("insert"@ =~= seq!['i', 'n', 's', 'e', 'r', 't']);
    reveal_strlit("delete");
    assert("delete"@ =~= seq!['d', 'e', 'l', 'e', 't', 'e']);
    reveal_strlit("pageup");
    assert("pageup"@ =~= seq!['p', 'a', 'g', 'e', 'u', 'p']);
    reveal_strlit("pagedown");
    assert("pagedown"@ =~= seq!['p', 'a', 'g', 'e', 'd', 'o', 'w', 'n']);
    reveal_strlit("escape");
    assert("escape"@ =~= seq!['e', 's', 'c', 'a', 'p', 'e']);
    reveal_strlit("enter");
    assert("enter"@ =~= seq!['e', 'n', 't', 'e', 'r']);
    reveal_strlit("backspace");
    assert("backspace"@ =~= seq!['b', 'a', 'c', 'k', 's', 'p', 'a', 'c', 'e']);
    reveal_strlit("tab");
    assert("tab"@ =~= seq!['t', 'a', 'b']);
    reveal_strlit("space");
    assert("space"@ =~= seq!['s', 'p', 'a', 'c', 'e']);
    reveal_strlit("f1");
    assert("f1"@ =~= seq!['f', '1']);
    reveal_strlit("f2");
    assert("f2"@ =~= seq!['f', '2']);
    reveal_strlit("f3");
    assert("f3"@ =~= seq!['f', '3']);
    reveal_strlit("f4");
    assert("f4"@ =~= seq!['f', '4']);
    reveal_strlit("f5");
    assert("f5"@ =~= seq!['f', '5']);
    reveal_strlit("f6");
    assert("f6"@ =~= seq!['f', '6']);
    reveal_strlit("f7");
    assert("f7"@ =~= seq!['f', '7']);
    reveal_strlit("f8");
    assert("f8"@ =~= seq!['f', '8']);
    reveal_strlit("f9");
    assert("f9"@ =~= seq!['f', '9']);
    reveal_strlit("f10");
    assert("f10"@ =~= seq!['f', '1', '0']);
    reveal_strlit("f11");
    assert("f11"@ =~= seq!['f', '1', '1']);
    reveal_strlit("f12");
    assert("f12"@ =~= seq!['f', '1', '2']);
}

/// Each named special key stands for the encoder key of the same name.
pub proof fn law_named_keys()
    ensures
        key_for_name("up"@) == Key::ArrowUp,
        key_for_name("down"@) == Key::ArrowDown,
        key_for_name("left"@) == Key::ArrowLeft,
        key_for_name("right"@) == Key::ArrowRight,
        key_for_name("home"@) == Key::Home,
        key_for_name("end"@) == Key::End,
        key_for_name("insert"@) == Key::Insert,
        key_for_name("delete"@) == Key::Delete,
        key_for_name("pageup"@) == Key::PageUp,
        key_for_name("pagedown"@) == Key::PageDown,
        key_for_name("escape"@) == Key::Escape,
        key_for_name("enter"@) == Key::Enter,
        key_for_name("backspace"@) == Key::Backspace,
        key_for_name("tab"@) == Key::Tab,
        key_for_name("space"@) == Key::Space,
        key_for_name("f1"@) == Key::F1,
        key_for_name("f2"@) == Key::F2,
        key_for_name("f3"@) == Key::F3,
        key_for_name("f4"@) == Key::F4,
        key_for_name("f5"@) == Key::F5,
        key_for_name("f6"@) == Key::F6,
        key_for_name("f7"@) == Key::F7,
        key_for_name("f8"@) == Key::F8,
        key_for_name("f9"@) == Key::F9,
        key_for_name("f10"@) == Key::F10,
        key_for_name("f11"@) == Key::F11,
        key_for_name("f12"@) == Key::F12,
{
    assert(key_for_name("up"@) == Key::ArrowUp) by {
        lemma_key_name_chars();
    }
    assert(key_for_name("down"@) == Key::ArrowDown) by {
        lemma_key_name_chars();
    }
    assert(key_for_name("left"@) == Key::ArrowLeft) by {
        lemma_key_name_chars();
    }
    assert(key_for_name("right"@) == Key::ArrowRight) by {
        lemma_key_name_chars();
    }
    assert(key_for_name("home"@) == Key::Home) by {
        lemma_key_name_chars();
    }
    assert(key_for_name("end"@) == Key::End) by {
        lemma_key_name_chars();
    }
    assert(key_for_name("insert"@) == Key::Insert) by {
        lemma_key_name_chars();
    }
    assert(key_for_name("delete"@) == Key::Delete) by {
        lemma_key_name_chars();
    }
    assert(key_for_name("pageup"@) == Key::PageUp) by {
        lemma_key_name_chars();
    }
    assert(key_for_name("pagedown"@) == Key::PageDown) by {
        lemma_key_name_chars();
    }
    assert(key_for_name("escape"@) == Key::Escape) by {
        lemma_key_name_chars();
    }
    assert(key_for_name("enter"@) == Key::Enter) by {
        lemma_key_name_chars();
    }
    assert(key_for_name("backspace"@) == Key::Backspace) by {
        lemma_key_name_chars();
    }
    assert(key_for_name("tab"@) == Key::Tab) by {
        lemma_key_name_chars();
    }
    assert(key_for_name("space"@) == Key::Space) by {
        lemma_key_name_chars();
    }
    assert(key_for_name("f1"@) == Key::F1) by {
        lemma_key_name_chars();
    }
    assert(key_for_name("f2"@) == Key::F2) by {
        lemma_key_name_chars();
    }
    assert(key_for_name("f3"@) == Key::F3) by {
        lemma_key_name_chars();
    }
    assert(key_for_name("f4"@) == Key::F4) by {
        lemma_key_name_chars();
    }
    assert(key_for_name("f5"@) == Key::F5) by {
        lemma_key_name_chars();
    }
    assert(key_for_name("f6"@) == Key::F6) by {
        lemma_key_name_chars();
    }
    assert(key_for_name("f7"@) == Key::F7) by {
        lemma_key_name_chars();
    }
    assert(key_for_name("f8"@) == Key::F8) by {
        lemma_key_name_chars();
    }
    assert(key_for_name("f9"@) == Key::F9) by {
        lemma_key_name_chars();
    }
    assert(key_for_name("f10"@) == Key::F10) by {
        lemma_key_name_chars();
        assert("f10"@.len() == 3 && "f1"@.len() == 2);
        assert("f10"@ != "f1"@);
    }
    assert(key_for_name("f11"@) == Key::F11) by {
        lemma_key_name_chars();
        assert("f11"@.len() == 3 && "f1"@.len() == 2);
        assert("f11"@ != "f1"@);
    }
    assert(key_for_name("f12"@) == Key::F12) by {
        lemma_key_name_chars();
    }
}

/// Each lower-case letter, digit and unshifted symbol stands for the key
/// that carries it; an upper-case letter stands for no key.
pub proof fn law_character_keys(c: char)
    ensures
        char_key('a') == Key::A,
        char_key('b') == Key::B,
        char_key('c') == Key::C,
        char_key('d') == Key::D,
        char_key('e') == Key::E,
        char_key('f') == Key::F,
        char_key('g') == Key::G,
        char_key('h') == Key::H,
        char_key('i') == Key::I,
        char_key('j') == Key::J,
        char_key('k') == Key::K,
        char_key('l') == Key::L,
        char_key('m') == Key::M,
        char_key('n') == Key::N,
        char_key('o') == Key::O,
        char_key('p') == Key::P,
        char_key('q') == Key::Q,
        char_key('r') == Key::R,
        char_key('s') == Key::S,
        char_key('t') == Key::T,
        char_key('u') == Key::U,
        char_key('v') == Key::V,
        char_key('w') == Key::W,
        char_key('x') == Key::X,
        char_key('y') == Key::Y,
        char_key('z') == Key::Z,
        char_key('0') == Key::Digit0,
        char_key('1') == Key::Digit1,
        char_key('2') == Key::Digit2,
        char_key('3') == Key::Digit3,
        char_key('4') == Key::Digit4,
        char_key('5') == Key::Digit5,
        char_key('6') == Key::Digit6,
        char_key('7') == Key::Digit7,
        char_key('8') == Key::Digit8,
        char_key('9') == Key::Digit9,
        char_key('-') == Key::Minus,
        char_key('=') == Key::Equal,
        char_key('[') == Key::BracketLeft,
        char_key(']') == Key::BracketRight,
        char_key(';') == Key::Semicolon,
        char_key('\'') == Key::Quote,
        char_key(',') == Key::Comma,
        char_key('.') == Key::Period,
        char_key('/') == Key::Slash,
        char_key('\\') == Key::Backslash,
        char_key('`') == Key::Backquote,
        'A' <= c <= 'Z' ==> char_key(c) == Key::Unidentified,
{
}

} // verus!
