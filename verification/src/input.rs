//! Input event pipeline: key events to the VT byte sequences sent to the shell.

use vstd::prelude::*;
use vstd::utf8::*;

verus! {

broadcast use vstd::utf8::char_is_scalar;

/// The escape byte that starts every control sequence.
pub const ESC: u8 = 0x1B;

/// Flag bit of the Shift modifier.
pub const SHIFT_BIT: u8 = 1;

/// Flag bit of the Alt/Option modifier.
pub const ALT_BIT: u8 = 2;

/// Flag bit of the Control modifier.
pub const CONTROL_BIT: u8 = 4;

/// Flag bit of the Super/Command/Windows modifier.
pub const SUPER_BIT: u8 = 8;

/// Whether `flag` is set in `bits`.
pub open spec fn flag_set(bits: u8, flag: u8) -> bool {
    bits & flag != 0
}

/// Key modifiers (bitflags)
#[derive(Debug, Clone, Copy, PartialEq, Eq, Default)]
pub struct Modifiers(u8);

impl Modifiers {
    /// The flag bits of this modifier set.
    pub closed spec fn bits(self) -> u8 {
        self.0
    }

    /// No modifiers
    pub fn none() -> (r: Self)
        ensures
            r.bits() == 0,
    {
        Self(0)
    }

    /// Shift key
    pub fn shift() -> (r: Self)
        ensures
            r.bits() == SHIFT_BIT,
    {
        Self(SHIFT_BIT)
    }

    /// Alt/Option key
    pub fn alt() -> (r: Self)
        ensures
            r.bits() == ALT_BIT,
    {
        Self(ALT_BIT)
    }

    /// Control key
    pub fn control() -> (r: Self)
        ensures
            r.bits() == CONTROL_BIT,
    {
        Self(CONTROL_BIT)
    }

    /// Super/Command/Windows key
    pub fn super_key() -> (r: Self)
        ensures
            r.bits() == SUPER_BIT,
    {
        Self(SUPER_BIT)
    }

    /// Check if no modifiers are set
    pub fn is_empty(&self) -> (r: bool)
        ensures
            r == (self.bits() == 0),
    {
        self.0 == 0
    }

    /// Check if specific modifier is present
    pub fn contains(&self, modifier: Self) -> (r: bool)
        ensures
            r == (self.bits() & modifier.bits() != 0),
    {
        (self.0 & modifier.0) != 0
    }

    /// Add a modifier
    pub fn insert(&mut self, modifier: Self)
        ensures
            final(self).bits() == old(self).bits() | modifier.bits(),
    {
        self.0 = self.0 | modifier.0;
    }

    /// Remove a modifier
    pub fn remove(&mut self, modifier: Self)
        ensures
            final(self).bits() == old(self).bits() & !modifier.bits(),
    {
        self.0 = self.0 & !modifier.0;
    }

    /// Create modifiers from individual flags
    pub fn new(shift: bool, alt: bool, ctrl: bool) -> (r: Self)
        ensures
            flag_set(r.bits(), SHIFT_BIT) == shift,
            flag_set(r.bits(), ALT_BIT) == alt,
            flag_set(r.bits(), CONTROL_BIT) == ctrl,
            !flag_set(r.bits(), SUPER_BIT),
            r.bits() < 8,
    {
        let s: u8 = if shift {
            SHIFT_BIT
        } else {
            0
        };
        let a: u8 = if alt {
            ALT_BIT
        } else {
            0
        };
        let c: u8 = if ctrl {
            CONTROL_BIT
        } else {
            0
        };
        let b: u8 = s | a | c;
        assert(flag_set(b, SHIFT_BIT) == shift && flag_set(b, ALT_BIT) == alt && flag_set(
            b,
            CONTROL_BIT,
        ) == ctrl && !flag_set(b, SUPER_BIT) && b < 8) by (bit_vector)
            requires
                b == s | a | c,
                s == (if shift { 1u8 } else { 0u8 }),
                a == (if alt { 2u8 } else { 0u8 }),
                c == (if ctrl { 4u8 } else { 0u8 }),
        ;
        Self(b)
    }
}

impl vstd::std_specs::ops::BitOrSpecImpl for Modifiers {
    open spec fn obeys_bitor_spec() -> bool {
        true
    }

    open spec fn bitor_req(self, rhs: Self) -> bool {
        true
    }

    closed spec fn bitor_spec(self, rhs: Self) -> Self {
        Modifiers(self.0 | rhs.0)
    }
}

impl vstd::std_specs::ops::BitAndSpecImpl for Modifiers {
    open spec fn obeys_bitand_spec() -> bool {
        true
    }

    open spec fn bitand_req(self, rhs: Self) -> bool {
        true
    }

    closed spec fn bitand_spec(self, rhs: Self) -> Self {
        Modifiers(self.0 & rhs.0)
    }
}

impl core::ops::BitOr for Modifiers {
    type Output = Self;

    fn bitor(self, rhs: Self) -> (r: Self)
        ensures
            r.bits() == self.bits() | rhs.bits(),
    {
        Self(self.0 | rhs.0)
    }
}

impl core::ops::BitOrAssign for Modifiers {
    fn bitor_assign(&mut self, rhs: Self)
        ensures
            final(self).bits() == old(self).bits() | rhs.bits(),
    {
        self.0 = self.0 | rhs.0;
    }
}

impl core::ops::BitAnd for Modifiers {
    type Output = Self;

    fn bitand(self, rhs: Self) -> (r: Self)
        ensures
            r.bits() == self.bits() & rhs.bits(),
    {
        Self(self.0 & rhs.0)
    }
}

impl core::ops::BitAndAssign for Modifiers {
    fn bitand_assign(&mut self, rhs: Self)
        ensures
            final(self).bits() == old(self).bits() & rhs.bits(),
    {
        self.0 = self.0 & rhs.0;
    }
}

/// Key code types
#[derive(Debug, Clone, PartialEq, Eq, Hash, Structural)]
pub enum KeyCode {
    /// Printable character
    Char(char),
    /// Arrow key
    Arrow(Arrow),
    /// Function key (F1-F12)
    Function(u8),
    /// Home key
    Home,
    /// End key
    End,
    /// Insert key
    Insert,
    /// Delete key
    Delete,
    /// Page Up key
    PageUp,
    /// Page Down key
    PageDown,
    /// Escape key
    Escape,
    /// Enter key
    Enter,
    /// Backspace key
    Backspace,
    /// Tab key
    Tab,
}

/// Arrow key directions
#[derive(Debug, Clone, Copy, PartialEq, Eq, Hash, Structural)]
pub enum Arrow {
    /// Up arrow
    Up,
    /// Down arrow
    Down,
    /// Right arrow
    Right,
    /// Left arrow
    Left,
}

/// Key event structure
#[derive(Debug, Clone, PartialEq, Eq, Hash)]
pub struct Key {
    /// The key code
    pub code: KeyCode,
    /// Text representation (for text input events)
    pub text: Option<String>,
}

impl Key {
    /// Create a new key event
    pub fn new(code: KeyCode) -> (r: Self)
        ensures
            r.code == code,
            r.text is None,
    {
        Self { code, text: None }
    }

    /// Create a new key event with text
    pub fn with_text(code: KeyCode, text: &str) -> (r: Self)
        ensures
            r.code == code,
            r.text is Some,
            r.text->0@ == text@,
    {
        Self { code, text: Some(text.to_owned()) }
    }
}

// ---------------------------------------------------------------------------
// The byte sequences, as mathematical functions of the key and modifiers.
// ---------------------------------------------------------------------------

/// The CSI modifier parameter: 1 plus 1 for Shift, 2 for Alt and 4 for Control.
pub open spec fn modifier_number(bits: u8) -> u8 {
    (1 + (if flag_set(bits, SHIFT_BIT) {
        1int
    } else {
        0int
    }) + (if flag_set(bits, ALT_BIT) {
        2int
    } else {
        0int
    }) + (if flag_set(bits, CONTROL_BIT) {
        4int
    } else {
        0int
    })) as u8
}

/// The ASCII digit of the CSI modifier parameter.
pub open spec fn modifier_digit(bits: u8) -> u8 {
    (48 + modifier_number(bits)) as u8
}

/// The single control byte that Control plus `c` produces, if any.
pub open spec fn control_byte(c: char) -> Option<u8> {
    if !((c as u32) < 128) {
        None
    } else if 'a' <= c && c <= 'z' {
        Some(((c as u32) - 96) as u8)
    } else if 'A' <= c && c <= 'Z' {
        Some(((c as u32) - 64) as u8)
    } else if c == '@' {
        Some(0x00u8)
    } else if c == '[' {
        Some(0x1Bu8)
    } else if c == '\\' {
        Some(0x1Cu8)
    } else if c == ']' {
        Some(0x1Du8)
    } else if c == '^' {
        Some(0x1Eu8)
    } else if c == '_' {
        Some(0x1Fu8)
    } else {
        None
    }
}

/// Bytes for a printable character: a control byte under Control, else an
/// optional ESC (for Alt) followed by the character's UTF-8 encoding.
pub open spec fn char_bytes(c: char, bits: u8) -> Seq<u8> {
    if flag_set(bits, CONTROL_BIT) && control_byte(c) is Some {
        seq![control_byte(c)->0]
    } else {
        (if flag_set(bits, ALT_BIT) {
            seq![ESC]
        } else {
            Seq::<u8>::empty()
        }) + encode_scalar(c as u32)
    }
}

/// The final byte of an arrow key sequence.
pub open spec fn arrow_letter(dir: Arrow) -> u8 {
    match dir {
        Arrow::Up => 0x41u8,
        Arrow::Down => 0x42u8,
        Arrow::Right => 0x43u8,
        Arrow::Left => 0x44u8,
    }
}

/// Sequence of a cursor key (arrows, Home, End) ending in `last`: SS3 form in
/// application mode, CSI form otherwise, and `CSI 1 ; m last` with modifiers.
pub open spec fn cursor_key_bytes(app: bool, last: u8, bits: u8) -> Seq<u8> {
    if bits == 0 {
        if app {
            seq![ESC, 0x4Fu8, last]
        } else {
            seq![ESC, 0x5Bu8, last]
        }
    } else {
        seq![ESC, 0x5Bu8, 0x31u8, 0x3Bu8, modifier_digit(bits), last]
    }
}

/// Sequence of an editing key `CSI d ~`, or `CSI d ; m ~` with modifiers.
pub open spec fn tilde_key_bytes(d: u8, bits: u8) -> Seq<u8> {
    if bits == 0 {
        seq![ESC, 0x5Bu8, d, 0x7Eu8]
    } else {
        seq![ESC, 0x5Bu8, d, 0x3Bu8, modifier_digit(bits), 0x7Eu8]
    }
}

/// The `; m` suffix that a modified function key carries.
pub open spec fn function_suffix(bits: u8) -> Seq<u8> {
    if bits == 0 {
        Seq::<u8>::empty()
    } else {
        seq![0x3Bu8, modifier_digit(bits)]
    }
}

/// Sequence of function key `n`: SS3 P, Q, R, S for F1 to F4 and
/// `CSI code ~` for F5 to F12; with modifiers the parameter `; m` stands
/// before the final byte (`CSI 1 ; m P` to `S`, `CSI code ; m ~`).
pub open spec fn function_bytes(n: u8, bits: u8) -> Seq<u8> {
    if 1 <= n <= 4 {
        if bits == 0 {
            seq![ESC, 0x4Fu8, (0x4F + n) as u8]
        } else {
            seq![ESC, 0x5Bu8, 0x31u8] + function_suffix(bits) + seq![(0x4F + n) as u8]
        }
    } else if 5 <= n <= 12 {
        let code: (u8, u8) = if n == 5 {
            (0x31u8, 0x35u8)
        } else if n == 6 {
            (0x31u8, 0x37u8)
        } else if n == 7 {
            (0x31u8, 0x38u8)
        } else if n == 8 {
            (0x31u8, 0x39u8)
        } else if n == 9 {
            (0x32u8, 0x30u8)
        } else if n == 10 {
            (0x32u8, 0x31u8)
        } else if n == 11 {
            (0x32u8, 0x33u8)
        } else {
            (0x32u8, 0x34u8)
        };
        seq![ESC, 0x5Bu8, code.0, code.1] + function_suffix(bits) + seq![0x7Eu8]
    } else {
        Seq::<u8>::empty()
    }
}

/// The bytes sent to the shell for a key code under modifier bits `bits`,
/// with application cursor key mode `app`.
pub open spec fn key_bytes(app: bool, code: KeyCode, bits: u8) -> Seq<u8> {
    match code {
        KeyCode::Char(c) => char_bytes(c, bits),
        KeyCode::Arrow(dir) => cursor_key_bytes(app, arrow_letter(dir), bits),
        KeyCode::Function(n) => function_bytes(n, bits),
        KeyCode::Home => cursor_key_bytes(app, 0x48u8, bits),
        KeyCode::End => cursor_key_bytes(app, 0x46u8, bits),
        KeyCode::Insert => tilde_key_bytes(0x32u8, bits),
        KeyCode::Delete => tilde_key_bytes(0x33u8, bits),
        KeyCode::PageUp => tilde_key_bytes(0x35u8, bits),
        KeyCode::PageDown => tilde_key_bytes(0x36u8, bits),
        KeyCode::Escape => seq![ESC],
        KeyCode::Enter => seq![0x0Du8],
        KeyCode::Backspace => seq![0x7Fu8],
        KeyCode::Tab => seq![0x09u8],
    }
}

// ---------------------------------------------------------------------------
// The mapper.
// ---------------------------------------------------------------------------

/// Input mapper that converts key events to VT sequences
#[derive(Debug, Clone, Copy, Default)]
pub struct InputMapper {
    /// Application cursor key mode (DECCKM)
    application_mode: bool,
}

/// Convert modifiers to CSI u modifier number
fn modifier_to_number(modifiers: Modifiers) -> (r: u8)
    ensures
        r == modifier_number(modifiers.bits()),
        1 <= r <= 8,
{
    let mut result: u8 = 1;
    if modifiers.contains(Modifiers::shift()) {
        result += 1;
    }
    if modifiers.contains(Modifiers::alt()) {
        result += 2;
    }
    if modifiers.contains(Modifiers::control()) {
        result += 4;
    }
    result
}

/// Appends the UTF-8 encoding of `c`.
fn push_utf8(out: &mut Vec<u8>, c: char)
    ensures
        final(out)@ == old(out)@ + encode_scalar(c as u32),
{
    let v: u32 = c as u32;
    assert(is_scalar(v));
    if v <= 0x7F {
        out.push((v & 0x7F) as u8);
    } else if v <= 0x7FF {
        out.push(0xC0 | ((v >> 6) & 0x1F) as u8);
        out.push(0x80 | (v & 0x3F) as u8);
    } else if v <= 0xFFFF {
        out.push(0xE0 | ((v >> 12) & 0x0F) as u8);
        out.push(0x80 | ((v >> 6) & 0x3F) as u8);
        out.push(0x80 | (v & 0x3F) as u8);
    } else {
        out.push(0xF0 | ((v >> 18) & 0x7) as u8);
        out.push(0x80 | ((v >> 12) & 0x3F) as u8);
        out.push(0x80 | ((v >> 6) & 0x3F) as u8);
        out.push(0x80 | (v & 0x3F) as u8);
    }
    assert(final(out)@ =~= old(out)@ + encode_scalar(v));
}

impl InputMapper {
    /// Whether application cursor key mode is on.
    pub closed spec fn application(self) -> bool {
        self.application_mode
    }

    /// Create a new input mapper with default settings
    pub fn new() -> (r: Self)
        ensures
            !r.application(),
    {
        Self { application_mode: false }
    }

    /// Set application cursor key mode
    pub fn set_application_mode(&mut self, enabled: bool)
        ensures
            final(self).application() == enabled,
    {
        self.application_mode = enabled;
    }

    /// Check if application mode is enabled
    pub fn is_application_mode(&self) -> (r: bool)
        ensures
            r == self.application(),
    {
        self.application_mode
    }

    /// Map a key event to VT sequence bytes
    pub fn map_key(&self, key: &Key) -> (r: Vec<u8>)
        ensures
            r@ == key_bytes(self.application(), key.code, 0),
    {
        self.map_key_with_modifiers(key, Modifiers::none())
    }

    /// Map a key event with modifiers to VT sequence bytes
    pub fn map_key_with_modifiers(&self, key: &Key, modifiers: Modifiers) -> (r: Vec<u8>)
        ensures
            r@ == key_bytes(self.application(), key.code, modifiers.bits()),
    {
        match &key.code {
            KeyCode::Char(c) => self.map_char(*c, modifiers),
            KeyCode::Arrow(dir) => self.map_arrow(*dir, modifiers),
            KeyCode::Function(n) => self.map_function(*n, modifiers),
            KeyCode::Home => self.map_home(modifiers),
            KeyCode::End => self.map_end(modifiers),
            KeyCode::Insert => self.map_insert(modifiers),
            KeyCode::Delete => self.map_delete(modifiers),
            KeyCode::PageUp => self.map_page_up(modifiers),
            KeyCode::PageDown => self.map_page_down(modifiers),
            KeyCode::Escape => vec![0x1B],
            KeyCode::Enter => vec![0x0D],
            KeyCode::Backspace => vec![0x7F],
            KeyCode::Tab => vec![0x09],
        }
    }

    fn map_char(&self, c: char, modifiers: Modifiers) -> (r: Vec<u8>)
        ensures
            r@ == char_bytes(c, modifiers.bits()),
    {
        let v: u32 = c as u32;
        // Handle control characters
        if modifiers.contains(Modifiers::control()) && v < 128 {
            // Ctrl+A through Ctrl+Z produce 0x01-0x1A
            if 'a' <= c && c <= 'z' {
                return vec![(v - 96) as u8];
            }
            if 'A' <= c && c <= 'Z' {
                return vec![(v - 64) as u8];
            }
            // Ctrl+@ produces NUL (0x00)
            if c == '@' {
                return vec![0x00];
            }
            // Ctrl+[ produces ESC (0x1B)
            if c == '[' {
                return vec![0x1B];
            }
            // Ctrl+\ produces FS (0x1C)
            if c == '\\' {
                return vec![0x1C];
            }
            // Ctrl+] produces GS (0x1D)
            if c == ']' {
                return vec![0x1D];
            }
            // Ctrl+^ produces RS (0x1E)
            if c == '^' {
                return vec![0x1E];
            }
            // Ctrl+_ produces US (0x1F)
            if c == '_' {
                return vec![0x1F];
            }
        }
        // Handle Alt prefix

        let mut result: Vec<u8> = Vec::new();
        if modifiers.contains(Modifiers::alt()) {
            result.push(0x1B);
        }
        push_utf8(&mut result, c);
        result
    }

    fn map_arrow(&self, dir: Arrow, modifiers: Modifiers) -> (r: Vec<u8>)
        ensures
            r@ == cursor_key_bytes(self.application(), arrow_letter(dir), modifiers.bits()),
    {
        let suffix: u8 = match dir {
            Arrow::Up => 0x41,
            Arrow::Down => 0x42,
            Arrow::Right => 0x43,
            Arrow::Left => 0x44,
        };
        self.map_cursor_key(suffix, modifiers)
    }

    fn map_cursor_key(&self, last: u8, modifiers: Modifiers) -> (r: Vec<u8>)
        ensures
            r@ == cursor_key_bytes(self.application(), last, modifiers.bits()),
    {
        if modifiers.is_empty() {
            if self.application_mode {
                vec![0x1B, 0x4F, last]
            } else {
                vec![0x1B, 0x5B, last]
            }
        } else {
            let digit: u8 = 48 + modifier_to_number(modifiers);
            let r = vec![0x1B, 0x5B, 0x31, 0x3B, digit, last];
            assert(r@ =~= cursor_key_bytes(self.application(), last, modifiers.bits()));
            r
        }
    }

    fn map_tilde_key(&self, d: u8, modifiers: Modifiers) -> (r: Vec<u8>)
        ensures
            r@ == tilde_key_bytes(d, modifiers.bits()),
    {
        if modifiers.is_empty() {
            vec![0x1B, 0x5B, d, 0x7E]
        } else {
            let digit: u8 = 48 + modifier_to_number(modifiers);
            let r = vec![0x1B, 0x5B, d, 0x3B, digit, 0x7E];
            assert(r@ =~= tilde_key_bytes(d, modifiers.bits()));
            r
        }
    }

    fn map_function(&self, n: u8, modifiers: Modifiers) -> (r: Vec<u8>)
        ensures
            r@ == function_bytes(n, modifiers.bits()),
    {
        let mut suffix: Vec<u8> = Vec::new();
        if !modifiers.is_empty() {
            suffix.push(0x3B);
            suffix.push(48 + modifier_to_number(modifiers));
        }
        assert(suffix@ =~= function_suffix(modifiers.bits()));
        if 1 <= n && n <= 4 {
            // F1-F4: ESC O P/Q/R/S, or ESC [ 1 ; m P/Q/R/S
            if modifiers.is_empty() {
                let r = vec![0x1B, 0x4F, 0x4F + n];
                return r;
            } else {
                let mut r = vec![0x1B, 0x5B, 0x31];
                r.append(&mut suffix);
                r.push(0x4F + n);
                assert(r@ =~= function_bytes(n, modifiers.bits()));
                return r;
            }
        }
        let code: (u8, u8) = if n == 5 {
            (0x31, 0x35)
        } else if n == 6 {
            (0x31, 0x37)
        } else if n == 7 {
            (0x31, 0x38)
        } else if n == 8 {
            (0x31, 0x39)
        } else if n == 9 {
            (0x32, 0x30)
        } else if n == 10 {
            (0x32, 0x31)
        } else if n == 11 {
            (0x32, 0x33)
        } else if n == 12 {
            (0x32, 0x34)
        } else {
            return Vec::new();
        };
        let mut r = vec![0x1B, 0x5B, code.0, code.1];
        r.append(&mut suffix);
        r.push(0x7E);
        assert(r@ =~= function_bytes(n, modifiers.bits()));
        r
    }

    fn map_home(&self, modifiers: Modifiers) -> (r: Vec<u8>)
        ensures
            r@ == cursor_key_bytes(self.application(), 0x48u8, modifiers.bits()),
    {
        self.map_cursor_key(0x48, modifiers)
    }

    fn map_end(&self, modifiers: Modifiers) -> (r: Vec<u8>)
        ensures
            r@ == cursor_key_bytes(self.application(), 0x46u8, modifiers.bits()),
    {
        self.map_cursor_key(0x46, modifiers)
    }

    fn map_insert(&self, modifiers: Modifiers) -> (r: Vec<u8>)
        ensures
            r@ == tilde_key_bytes(0x32u8, modifiers.bits()),
    {
        self.map_tilde_key(0x32, modifiers)
    }

    fn map_delete(&self, modifiers: Modifiers) -> (r: Vec<u8>)
        ensures
            r@ == tilde_key_bytes(0x33u8, modifiers.bits()),
    {
        self.map_tilde_key(0x33, modifiers)
    }

    fn map_page_up(&self, modifiers: Modifiers) -> (r: Vec<u8>)
        ensures
            r@ == tilde_key_bytes(0x35u8, modifiers.bits()),
    {
        self.map_tilde_key(0x35, modifiers)
    }

    fn map_page_down(&self, modifiers: Modifiers) -> (r: Vec<u8>)
        ensures
            r@ == tilde_key_bytes(0x36u8, modifiers.bits()),
    {
        self.map_tilde_key(0x36, modifiers)
    }
}

// ---------------------------------------------------------------------------
// Laws of the mapping.
// ---------------------------------------------------------------------------

/// Alt sends ESC followed by exactly what the character sends alone, unless
/// Control turns the character into a control byte.
pub proof fn law_alt_prefixes_escape(c: char, bits: u8)
    requires
        flag_set(bits, ALT_BIT),
        !flag_set(bits, CONTROL_BIT) || control_byte(c) is None,
    ensures
        char_bytes(c, bits) == seq![ESC] + char_bytes(c, 0),
{
    assert(!flag_set(0, CONTROL_BIT) && !flag_set(0, ALT_BIT)) by (bit_vector);
    assert(Seq::<u8>::empty() + encode_scalar(c as u32) =~= encode_scalar(c as u32));
}

/// An unmodified character is sent as its UTF-8 encoding.
pub proof fn law_plain_char_is_utf8(app: bool, c: char)
    ensures
        key_bytes(app, KeyCode::Char(c), 0) == encode_utf8(seq![c]),
{
    assert(!flag_set(0, CONTROL_BIT) && !flag_set(0, ALT_BIT)) by (bit_vector);
    assert(seq![c].drop_first() =~= Seq::<char>::empty());
    assert(encode_utf8(Seq::<char>::empty()) =~= Seq::<u8>::empty());
    assert(Seq::<u8>::empty() + encode_scalar(c as u32) =~= encode_scalar(c as u32));
    assert(encode_scalar(c as u32) + Seq::<u8>::empty() =~= encode_scalar(c as u32));
}

/// Application cursor key mode changes only the unmodified cursor keys
/// (arrows, Home, End); every other key maps the same in both modes.
pub proof fn law_application_mode_scope(code: KeyCode, bits: u8)
    requires
        bits != 0 || !(code is Arrow || code is Home || code is End),
    ensures
        key_bytes(true, code, bits) == key_bytes(false, code, bits),
{
}

/// Control with a letter sends the letter's position in the alphabet,
/// whatever its case.
pub proof fn law_control_letter(c: char)
    requires
        'a' <= c <= 'z',
    ensures
        char_bytes(c, CONTROL_BIT) == seq![((c as u32) - 96) as u8],
        char_bytes(((c as u32) - 32) as char, CONTROL_BIT) == seq![((c as u32) - 96) as u8],
{
    assert(flag_set(CONTROL_BIT, CONTROL_BIT)) by (bit_vector);
}

/// The modifier parameter of a modified key is a single digit, 1 to 8.
pub proof fn law_modifier_digit(bits: u8)
    ensures
        1 <= modifier_number(bits) <= 8,
        0x31 <= modifier_digit(bits) <= 0x38,
{
}

/// A modified arrow key is `ESC [ 1 ; m` and its letter, in either cursor
/// key mode.
pub proof fn law_modified_arrow(app: bool, dir: Arrow, bits: u8)
    requires
        bits != 0,
    ensures
        key_bytes(app, KeyCode::Arrow(dir), bits) == seq![
            ESC,
            0x5Bu8,
            0x31u8,
            0x3Bu8,
            modifier_digit(bits),
            arrow_letter(dir),
        ],
        key_bytes(app, KeyCode::Arrow(dir), bits) == key_bytes(!app, KeyCode::Arrow(dir), bits),
{
}

/// The Super key never changes the modifier parameter.
pub proof fn law_super_leaves_modifier_number(bits: u8)
    ensures
        modifier_number(bits | SUPER_BIT) == modifier_number(bits),
{
    assert(flag_set(bits | SUPER_BIT, SHIFT_BIT) == flag_set(bits, SHIFT_BIT) && flag_set(
        bits | SUPER_BIT,
        ALT_BIT,
    ) == flag_set(bits, ALT_BIT) && flag_set(bits | SUPER_BIT, CONTROL_BIT) == flag_set(
        bits,
        CONTROL_BIT,
    )) by (bit_vector);
}

/// Different function keys send different sequences, with or without
/// modifiers.
pub proof fn law_function_keys_distinct(a: u8, b: u8, bits: u8)
    requires
        1 <= a <= 12,
        1 <= b <= 12,
        a != b,
    ensures
        function_bytes(a, bits) != function_bytes(b, bits),
{
    let x = function_bytes(a, bits);
    let y = function_bytes(b, bits);
    if bits == 0 {
        if a <= 4 && b <= 4 {
            assert(x[2] != y[2]);
        } else if a <= 4 || b <= 4 {
            assert(x[1] != y[1]);
        } else {
            assert(x[2] != y[2] || x[3] != y[3]);
        }
    } else {
        law_modifier_digit(bits);
        if a <= 4 && b <= 4 {
            assert(x[5] != y[5]);
        } else if a <= 4 || b <= 4 {
            assert(x[3] != y[3]);
        } else {
            assert(x[2] != y[2] || x[3] != y[3]);
        }
    }
}

/// Control with a letter, in either case, sends the letter's position in
/// the alphabet (0x01 to 0x1A), and Control with `@ [ \\ ] ^ _` sends 0x00
/// and 0x1B to 0x1F; Alt, Shift and Super add nothing, in either cursor key
/// mode.
pub proof fn law_control_characters(app: bool, c: char, bits: u8)
    requires
        flag_set(bits, CONTROL_BIT),
    ensures
        'a' <= c <= 'z' ==> key_bytes(app, KeyCode::Char(c), bits) == seq![((c as u32) - 96) as u8],
        'A' <= c <= 'Z' ==> key_bytes(app, KeyCode::Char(c), bits) == seq![((c as u32) - 64) as u8],
        ('a' <= c <= 'z' || 'A' <= c <= 'Z') ==> ({
            let b = key_bytes(app, KeyCode::Char(c), bits)[0];
            0x01 <= b <= 0x1A
        }),
        c == '@' ==> key_bytes(app, KeyCode::Char(c), bits) == seq![0x00u8],
        c == '[' ==> key_bytes(app, KeyCode::Char(c), bits) == seq![0x1Bu8],
        c == '\\' ==> key_bytes(app, KeyCode::Char(c), bits) == seq![0x1Cu8],
        c == ']' ==> key_bytes(app, KeyCode::Char(c), bits) == seq![0x1Du8],
        c == '^' ==> key_bytes(app, KeyCode::Char(c), bits) == seq![0x1Eu8],
        c == '_' ==> key_bytes(app, KeyCode::Char(c), bits) == seq![0x1Fu8],
{
}

/// A character that Control does not turn into a control byte is sent as
/// ESC (when Alt is held) followed by its UTF-8 encoding; Shift and Super
/// change nothing.
pub proof fn law_character_bytes(app: bool, c: char, bits: u8)
    requires
        !(flag_set(bits, CONTROL_BIT) && control_byte(c) is Some),
    ensures
        key_bytes(app, KeyCode::Char(c), bits) == (if flag_set(bits, ALT_BIT) {
            seq![ESC]
        } else {
            Seq::<u8>::empty()
        }) + encode_utf8(seq![c]),
{
    law_plain_char_is_utf8(app, c);
    assert(!flag_set(0, CONTROL_BIT) && !flag_set(0, ALT_BIT)) by (bit_vector);
    assert(Seq::<u8>::empty() + encode_scalar(c as u32) =~= encode_scalar(c as u32));
}

/// The modifier parameter is 1 plus 1 for Shift, 2 for Alt and 4 for
/// Control, that is 1 plus the three low flag bits: a number from 1 to 8 that
/// Super never changes.
pub proof fn law_modifier_number(bits: u8)
    ensures
        modifier_number(bits) == 1 + (bits & 7),
        1 <= modifier_number(bits) <= 8,
        modifier_number(bits | SUPER_BIT) == modifier_number(bits),
        modifier_digit(bits) == 0x30 + modifier_number(bits),
{
    assert(bits & 7 == (if bits & 1 != 0 {
        1u8
    } else {
        0u8
    }) + (if bits & 2 != 0 {
        2u8
    } else {
        0u8
    }) + (if bits & 4 != 0 {
        4u8
    } else {
        0u8
    })) by (bit_vector);
    law_super_leaves_modifier_number(bits);
}

/// A modified function key carries the parameter `; m` before its final
/// byte: `ESC [ 1 ; m` and P, Q, R or S for F1 to F4, `ESC [ code ; m ~` for
/// F5 to F12, in either cursor key mode.
pub proof fn law_modified_function_key(app: bool, n: u8, bits: u8)
    requires
        1 <= n <= 12,
        bits != 0,
    ensures
        n <= 4 ==> key_bytes(app, KeyCode::Function(n), bits) == seq![
            ESC,
            0x5Bu8,
            0x31u8,
            0x3Bu8,
            modifier_digit(bits),
            (0x4F + n) as u8,
        ],
        n >= 5 ==> ({
            let b = key_bytes(app, KeyCode::Function(n), bits);
            let plain = key_bytes(app, KeyCode::Function(n), 0);
            &&& b.len() == 7
            &&& b.subrange(0, 4) == plain.subrange(0, 4)
            &&& b.subrange(4, 7) == seq![0x3Bu8, modifier_digit(bits), 0x7Eu8]
            &&& plain.len() == 5
            &&& plain[4] == 0x7Eu8
        }),
        key_bytes(app, KeyCode::Function(n), bits) == key_bytes(!app, KeyCode::Function(n), bits),
{
    let b = key_bytes(app, KeyCode::Function(n), bits);
    let plain = key_bytes(app, KeyCode::Function(n), 0);
    if n <= 4 {
        assert(b =~= seq![ESC, 0x5Bu8, 0x31u8, 0x3Bu8, modifier_digit(bits), (0x4F + n) as u8]);
    } else {
        assert(b.subrange(0, 4) =~= plain.subrange(0, 4));
        assert(b.subrange(4, 7) =~= seq![0x3Bu8, modifier_digit(bits), 0x7Eu8]);
    }
}

/// Home and End are cursor keys ending in their own letters, H for Home
/// and F for End: `ESC O` or `ESC [` and the letter unmodified (by cursor
/// key mode), `ESC [ 1 ; m` and the letter with modifiers, in either mode.
pub proof fn law_home_end_keys(app: bool, bits: u8)
    ensures
        key_bytes(app, KeyCode::Home, 0) == seq![ESC, if app { 0x4Fu8 } else { 0x5Bu8 }, 0x48u8],
        key_bytes(app, KeyCode::End, 0) == seq![ESC, if app { 0x4Fu8 } else { 0x5Bu8 }, 0x46u8],
        bits != 0 ==> key_bytes(app, KeyCode::Home, bits) == seq![
            ESC,
            0x5Bu8,
            0x31u8,
            0x3Bu8,
            modifier_digit(bits),
            0x48u8,
        ],
        bits != 0 ==> key_bytes(app, KeyCode::End, bits) == seq![
            ESC,
            0x5Bu8,
            0x31u8,
            0x3Bu8,
            modifier_digit(bits),
            0x46u8,
        ],
{
}

/// The editing keys are `ESC [ d ~` with their own digit, 2 for Insert, 3
/// for Delete, 5 for Page Up and 6 for Page Down, and `ESC [ d ; m ~` with
/// modifiers; Escape, Enter, Backspace and Tab send ESC, CR, DEL and HT
/// whatever the modifiers and the mode.
pub proof fn law_editing_and_control_keys(app: bool, bits: u8)
    ensures
        ({
            let m: Seq<u8> = if bits == 0 {
                Seq::<u8>::empty()
            } else {
                seq![0x3Bu8, modifier_digit(bits)]
            };
            &&& key_bytes(app, KeyCode::Insert, bits) == seq![ESC, 0x5Bu8, 0x32u8] + m + seq![0x7Eu8]
            &&& key_bytes(app, KeyCode::Delete, bits) == seq![ESC, 0x5Bu8, 0x33u8] + m + seq![0x7Eu8]
            &&& key_bytes(app, KeyCode::PageUp, bits) == seq![ESC, 0x5Bu8, 0x35u8] + m + seq![0x7Eu8]
            &&& key_bytes(app, KeyCode::PageDown, bits) == seq![ESC, 0x5Bu8, 0x36u8] + m + seq![0x7Eu8]
        }),
        key_bytes(app, KeyCode::Escape, bits) == seq![0x1Bu8],
        key_bytes(app, KeyCode::Enter, bits) == seq![0x0Du8],
        key_bytes(app, KeyCode::Backspace, bits) == seq![0x7Fu8],
        key_bytes(app, KeyCode::Tab, bits) == seq![0x09u8],
{
    if bits == 0 {
        assert(seq![ESC, 0x5Bu8, 0x32u8] + Seq::<u8>::empty() + seq![0x7Eu8] =~= seq![ESC, 0x5Bu8, 0x32u8, 0x7Eu8]);
        assert(seq![ESC, 0x5Bu8, 0x33u8] + Seq::<u8>::empty() + seq![0x7Eu8] =~= seq![ESC, 0x5Bu8, 0x33u8, 0x7Eu8]);
        assert(seq![ESC, 0x5Bu8, 0x35u8] + Seq::<u8>::empty() + seq![0x7Eu8] =~= seq![ESC, 0x5Bu8, 0x35u8, 0x7Eu8]);
        assert(seq![ESC, 0x5Bu8, 0x36u8] + Seq::<u8>::empty() + seq![0x7Eu8] =~= seq![ESC, 0x5Bu8, 0x36u8, 0x7Eu8]);
    } else {
        let m = seq![0x3Bu8, modifier_digit(bits)];
        assert(seq![ESC, 0x5Bu8, 0x32u8] + m + seq![0x7Eu8] =~= seq![ESC, 0x5Bu8, 0x32u8, 0x3Bu8, modifier_digit(bits), 0x7Eu8]);
        assert(seq![ESC, 0x5Bu8, 0x33u8] + m + seq![0x7Eu8] =~= seq![ESC, 0x5Bu8, 0x33u8, 0x3Bu8, modifier_digit(bits), 0x7Eu8]);
        assert(seq![ESC, 0x5Bu8, 0x35u8] + m + seq![0x7Eu8] =~= seq![ESC, 0x5Bu8, 0x35u8, 0x3Bu8, modifier_digit(bits), 0x7Eu8]);
        assert(seq![ESC, 0x5Bu8, 0x36u8] + m + seq![0x7Eu8] =~= seq![ESC, 0x5Bu8, 0x36u8, 0x3Bu8, modifier_digit(bits), 0x7Eu8]);
    }
}

/// The arrows end in their own letters: A for Up, B for Down, C for Right
/// and D for Left; unmodified, `ESC O` or `ESC [` by cursor key mode.
pub proof fn law_arrow_letters(app: bool)
    ensures
        key_bytes(app, KeyCode::Arrow(Arrow::Up), 0) == seq![ESC, if app { 0x4Fu8 } else { 0x5Bu8 }, 0x41u8],
        key_bytes(app, KeyCode::Arrow(Arrow::Down), 0) == seq![ESC, if app { 0x4Fu8 } else { 0x5Bu8 }, 0x42u8],
        key_bytes(app, KeyCode::Arrow(Arrow::Right), 0) == seq![ESC, if app { 0x4Fu8 } else { 0x5Bu8 }, 0x43u8],
        key_bytes(app, KeyCode::Arrow(Arrow::Left), 0) == seq![ESC, if app { 0x4Fu8 } else { 0x5Bu8 }, 0x44u8],
{
}

/// Unmodified function keys: `ESC O` and P, Q, R, S for F1 to F4, and
/// `ESC [` with the codes 15, 17, 18, 19, 20, 21, 23, 24 and `~` for F5 to
/// F12, in either cursor key mode.
pub proof fn law_plain_function_keys(app: bool)
    ensures
        key_bytes(app, KeyCode::Function(1), 0) == seq![ESC, 0x4Fu8, 0x50u8],
        key_bytes(app, KeyCode::Function(2), 0) == seq![ESC, 0x4Fu8, 0x51u8],
        key_bytes(app, KeyCode::Function(3), 0) == seq![ESC, 0x4Fu8, 0x52u8],
        key_bytes(app, KeyCode::Function(4), 0) == seq![ESC, 0x4Fu8, 0x53u8],
        key_bytes(app, KeyCode::Function(5), 0) == seq![ESC, 0x5Bu8, 0x31u8, 0x35u8, 0x7Eu8],
        key_bytes(app, KeyCode::Function(6), 0) == seq![ESC, 0x5Bu8, 0x31u8, 0x37u8, 0x7Eu8],
        key_bytes(app, KeyCode::Function(7), 0) == seq![ESC, 0x5Bu8, 0x31u8, 0x38u8, 0x7Eu8],
        key_bytes(app, KeyCode::Function(8), 0) == seq![ESC, 0x5Bu8, 0x31u8, 0x39u8, 0x7Eu8],
        key_bytes(app, KeyCode::Function(9), 0) == seq![ESC, 0x5Bu8, 0x32u8, 0x30u8, 0x7Eu8],
        key_bytes(app, KeyCode::Function(10), 0) == seq![ESC, 0x5Bu8, 0x32u8, 0x31u8, 0x7Eu8],
        key_bytes(app, KeyCode::Function(11), 0) == seq![ESC, 0x5Bu8, 0x32u8, 0x33u8, 0x7Eu8],
        key_bytes(app, KeyCode::Function(12), 0) == seq![ESC, 0x5Bu8, 0x32u8, 0x34u8, 0x7Eu8],
{
    assert(seq![ESC, 0x5Bu8, 0x31u8, 0x35u8] + Seq::<u8>::empty() + seq![0x7Eu8] =~= seq![ESC, 0x5Bu8, 0x31u8, 0x35u8, 0x7Eu8]);
    assert(seq![ESC, 0x5Bu8, 0x31u8, 0x37u8] + Seq::<u8>::empty() + seq![0x7Eu8] =~= seq![ESC, 0x5Bu8, 0x31u8, 0x37u8, 0x7Eu8]);
    assert(seq![ESC, 0x5Bu8, 0x31u8, 0x38u8] + Seq::<u8>::empty() + seq![0x7Eu8] =~= seq![ESC, 0x5Bu8, 0x31u8, 0x38u8, 0x7Eu8]);
    assert(seq![ESC, 0x5Bu8, 0x31u8, 0x39u8] + Seq::<u8>::empty() + seq![0x7Eu8] =~= seq![ESC, 0x5Bu8, 0x31u8, 0x39u8, 0x7Eu8]);
    assert(seq![ESC, 0x5Bu8, 0x32u8, 0x30u8] + Seq::<u8>::empty() + seq![0x7Eu8] =~= seq![ESC, 0x5Bu8, 0x32u8, 0x30u8, 0x7Eu8]);
    assert(seq![ESC, 0x5Bu8, 0x32u8, 0x31u8] + Seq::<u8>::empty() + seq![0x7Eu8] =~= seq![ESC, 0x5Bu8, 0x32u8, 0x31u8, 0x7Eu8]);
    assert(seq![ESC, 0x5Bu8, 0x32u8, 0x33u8] + Seq::<u8>::empty() + seq![0x7Eu8] =~= seq![ESC, 0x5Bu8, 0x32u8, 0x33u8, 0x7Eu8]);
    assert(seq![ESC, 0x5Bu8, 0x32u8, 0x34u8] + Seq::<u8>::empty() + seq![0x7Eu8] =~= seq![ESC, 0x5Bu8, 0x32u8, 0x34u8, 0x7Eu8]);
}

} // verus!
