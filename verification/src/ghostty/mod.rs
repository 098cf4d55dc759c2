//! The terminal core's value types, result codes, key codes and the decisions
//! taken on what the core reports.

use vstd::prelude::*;
use vstd::utf8::is_scalar;

pub mod types;

verus! {

/// Errors the terminal core reports.
#[derive(Debug, Clone, Copy, PartialEq, Eq, Structural)]
pub enum Error {
    OutOfMemory,
    InvalidValue,
    OutOfSpace,
    NoValue,
}

/// Result of a call into the terminal core.
#[derive(Debug, Clone, Copy, PartialEq, Eq, Structural)]
pub enum GhosttyResult {
    Success,
    OutOfMemory,
    InvalidValue,
    OutOfSpace,
    NoValue,
}

/// The result a core return code stands for; a code the core does not
/// define is taken as an invalid value.
pub open spec fn result_of_code(code: i32) -> GhosttyResult {
    if code == 0 {
        GhosttyResult::Success
    } else if code == -1 {
        GhosttyResult::OutOfMemory
    } else if code == -3 {
        GhosttyResult::OutOfSpace
    } else if code == -4 {
        GhosttyResult::NoValue
    } else {
        GhosttyResult::InvalidValue
    }
}

/// The error a failing result stands for; success stands for no error and is
/// taken as an invalid value.
pub open spec fn error_of(result: GhosttyResult) -> Error {
    match result {
        GhosttyResult::OutOfMemory => Error::OutOfMemory,
        GhosttyResult::InvalidValue => Error::InvalidValue,
        GhosttyResult::OutOfSpace => Error::OutOfSpace,
        GhosttyResult::NoValue => Error::NoValue,
        GhosttyResult::Success => Error::InvalidValue,
    }
}

impl GhosttyResult {
    /// The result a core return code stands for.
    pub fn from_code(code: i32) -> (r: Self)
        ensures
            r == result_of_code(code),
    {
        if code == 0 {
            GhosttyResult::Success
        } else if code == -1 {
            GhosttyResult::OutOfMemory
        } else if code == -3 {
            GhosttyResult::OutOfSpace
        } else if code == -4 {
            GhosttyResult::NoValue
        } else {
            GhosttyResult::InvalidValue
        }
    }
}

impl From<GhosttyResult> for Error {
    fn from(value: GhosttyResult) -> (r: Self) {
        match value {
            GhosttyResult::OutOfMemory => Self::OutOfMemory,
            GhosttyResult::InvalidValue => Self::InvalidValue,
            GhosttyResult::OutOfSpace => Self::OutOfSpace,
            GhosttyResult::NoValue => Self::NoValue,
            GhosttyResult::Success => Self::InvalidValue,
        }
    }
}

impl vstd::std_specs::convert::FromSpecImpl<GhosttyResult> for Error {
    open spec fn obeys_from_spec() -> bool {
        true
    }

    open spec fn from_spec(v: GhosttyResult) -> Error {
        error_of(v)
    }
}

/// `Ok` on success, else the error the result stands for.
pub fn check_result(result: GhosttyResult) -> (r: Result<(), Error>)
    ensures
        result is Success ==> r is Ok,
        !(result is Success) ==> r == Err::<(), Error>(error_of(result)),
{
    match result {
        GhosttyResult::Success => Ok(()),
        other => Err(Error::from(other)),
    }
}

/// A color the core may have no value for: the color on success, none when
/// the core reports no value or an invalid value, else the error.
pub fn optional_color(result: GhosttyResult, color: RgbColor) -> (r: Result<Option<RgbColor>, Error>)
    ensures
        r == (match result {
            GhosttyResult::Success => Ok(Some(color)),
            GhosttyResult::NoValue | GhosttyResult::InvalidValue => Ok(None),
            other => Err(error_of(other)),
        }),
{
    match result {
        GhosttyResult::Success => Ok(Some(color)),
        GhosttyResult::NoValue | GhosttyResult::InvalidValue => Ok(None),
        other => Err(Error::from(other)),
    }
}

/// What the first, size-probing call of the key encoder says.
#[derive(Debug, Clone, Copy, PartialEq, Eq, Structural)]
pub enum EncodeProbe {
    /// The key encodes to nothing.
    Empty,
    /// A buffer of the reported size is needed.
    NeedsBuffer,
    /// Encoding failed.
    Failed(Error),
}

/// Reads the result of probing the encoder with an empty buffer.
pub fn encode_probe(result: GhosttyResult) -> (r: EncodeProbe)
    ensures
        r == (match result {
            GhosttyResult::Success => EncodeProbe::Empty,
            GhosttyResult::OutOfSpace => EncodeProbe::NeedsBuffer,
            other => EncodeProbe::Failed(error_of(other)),
        }),
{
    match result {
        GhosttyResult::Success => EncodeProbe::Empty,
        GhosttyResult::OutOfSpace => EncodeProbe::NeedsBuffer,
        other => EncodeProbe::Failed(Error::from(other)),
    }
}

/// Replaces `out` by the first `written` bytes of `buf` (all of `buf` when it
/// is shorter).
pub fn finish_encode(buf: Vec<u8>, written: usize, out: &mut Vec<u8>)
    ensures
        final(out)@ == buf@.take(if written < buf@.len() {
            written as int
        } else {
            buf@.len() as int
        }),
{
    let mut buf = buf;
    buf.truncate(written);
    out.clear();
    out.append(&mut buf);
}

/// `char::from_u32` gives the character of a Unicode scalar value and nothing
/// for other values (surrogates and values above U+10FFFF).
pub assume_specification[ core::char::from_u32 ](i: u32) -> (r: Option<char>)
    ensures
        is_scalar(i) ==> r == Some(i as char),
        !is_scalar(i) ==> r is None,
;

/// The characters of the code points that are Unicode scalar values, in order.
pub open spec fn scalar_chars(codepoints: Seq<u32>) -> Seq<char>
    decreases codepoints.len(),
{
    if codepoints.len() == 0 {
        Seq::empty()
    } else {
        let rest = scalar_chars(codepoints.drop_last());
        let last = codepoints.last();
        if is_scalar(last) {
            rest.push(last as char)
        } else {
            rest
        }
    }
}

/// Turns the code points of a cell's grapheme cluster into characters,
/// dropping values that are no character.
pub fn graphemes_from_codepoints(codepoints: &Vec<u32>) -> (r: Vec<char>)
    ensures
        r@ == scalar_chars(codepoints@),
{
    let mut out: Vec<char> = Vec::new();
    let mut i: usize = 0;
    while i < codepoints.len()
        invariant
            i <= codepoints@.len(),
            out@ == scalar_chars(codepoints@.take(i as int)),
        decreases codepoints@.len() - i,
    {
        proof {
            assert(codepoints@.take(i as int + 1).drop_last() =~= codepoints@.take(i as int));
        }
        if let Some(c) = core::char::from_u32(codepoints[i]) {
            out.push(c);
        }
        i = i + 1;
    }
    assert(codepoints@.take(i as int) =~= codepoints@);
    out
}

/// Size and scrollback of a new terminal.
#[derive(Debug, Clone, Copy, PartialEq, Eq, Structural)]
pub struct TerminalOptions {
    pub cols: u16,
    pub rows: u16,
    pub max_scrollback: usize,
}

/// Cursor position in the visible viewport.
#[derive(Debug, Clone, Copy, PartialEq, Eq, Structural)]
pub struct CursorViewport {
    pub x: u16,
    pub y: u16,
}

/// An RGB color.
#[derive(Debug, Clone, Copy, PartialEq, Eq, Structural)]
pub struct RgbColor {
    pub r: u8,
    pub g: u8,
    pub b: u8,
}

/// The terminal's default colors and palette.
#[derive(Debug, Clone, Copy)]
pub struct Colors {
    pub foreground: RgbColor,
    pub background: RgbColor,
    pub cursor: Option<RgbColor>,
    pub palette: [RgbColor; 256],
}

/// Underline style of a cell.
#[derive(Debug, Clone, Copy, PartialEq, Eq, Structural)]
pub enum Underline {
    Off,
    Single,
    Double,
    Curly,
    Dotted,
    Dashed,
}

/// The text attributes of a cell.
#[derive(Debug, Clone, Copy, PartialEq, Eq, Structural)]
pub struct Style {
    pub bold: bool,
    pub italic: bool,
    pub underline: Underline,
    pub blink: bool,
    pub inverse: bool,
    pub strikethrough: bool,
}

/// How much of a wide character a cell holds.
#[derive(Debug, Clone, Copy, PartialEq, Eq, Structural)]
pub enum CellWidth {
    Narrow,
    Wide,
    SpacerTail,
    SpacerHead,
}

/// Cell width as the core reports it.
#[derive(Debug, Clone, Copy, PartialEq, Eq, Structural)]
pub enum GhosttyCellWide {
    Narrow,
    Wide,
    SpacerTail,
    SpacerHead,
}

/// The cell width a core width code stands for (0 narrow, 1 wide, 2 spacer
/// tail, 3 spacer head); other codes are taken as narrow.
pub open spec fn cell_wide_of_code(code: i32) -> GhosttyCellWide {
    if code == 1 {
        GhosttyCellWide::Wide
    } else if code == 2 {
        GhosttyCellWide::SpacerTail
    } else if code == 3 {
        GhosttyCellWide::SpacerHead
    } else {
        GhosttyCellWide::Narrow
    }
}

impl GhosttyCellWide {
    /// The cell width a core width code stands for.
    pub fn from_code(code: i32) -> (r: Self)
        ensures
            r == cell_wide_of_code(code),
    {
        if code == 1 {
            GhosttyCellWide::Wide
        } else if code == 2 {
            GhosttyCellWide::SpacerTail
        } else if code == 3 {
            GhosttyCellWide::SpacerHead
        } else {
            GhosttyCellWide::Narrow
        }
    }
}

/// Columns a cell of the given width advances the cursor by.
pub open spec fn advance_of(width: CellWidth) -> u16 {
    match width {
        CellWidth::Narrow => 1,
        CellWidth::Wide => 2,
        CellWidth::SpacerTail | CellWidth::SpacerHead => 0,
    }
}

impl CellWidth {
    /// Columns a cell of this width advances by: one, two for a wide
    /// character, none for the spacer cells that follow or precede one.
    pub fn column_advance(self) -> (r: u16)
        ensures
            r == advance_of(self),
    {
        match self {
            Self::Narrow => 1,
            Self::Wide => 2,
            Self::SpacerTail | Self::SpacerHead => 0,
        }
    }

    /// The width the core's width value stands for.
    pub fn from_raw(value: GhosttyCellWide) -> (r: Self)
        ensures
            r == (match value {
                GhosttyCellWide::Wide => CellWidth::Wide,
                GhosttyCellWide::SpacerTail => CellWidth::SpacerTail,
                GhosttyCellWide::SpacerHead => CellWidth::SpacerHead,
                GhosttyCellWide::Narrow => CellWidth::Narrow,
            }),
    {
        match value {
            GhosttyCellWide::Wide => Self::Wide,
            GhosttyCellWide::SpacerTail => Self::SpacerTail,
            GhosttyCellWide::SpacerHead => Self::SpacerHead,
            GhosttyCellWide::Narrow => Self::Narrow,
        }
    }
}

/// The underline a core underline code stands for; unknown codes mean none.
pub open spec fn underline_of_code(value: i32) -> Underline {
    if value == 1 {
        Underline::Single
    } else if value == 2 {
        Underline::Double
    } else if value == 3 {
        Underline::Curly
    } else if value == 4 {
        Underline::Dotted
    } else if value == 5 {
        Underline::Dashed
    } else {
        Underline::Off
    }
}

impl Underline {
    /// The underline a core underline code stands for.
    pub fn from_raw(value: i32) -> (r: Self)
        ensures
            r == underline_of_code(value),
    {
        match value {
            1 => Self::Single,
            2 => Self::Double,
            3 => Self::Curly,
            4 => Self::Dotted,
            5 => Self::Dashed,
            _ => Self::Off,
        }
    }
}

/// Key action of a key event.
#[derive(Debug, Clone, Copy, PartialEq, Eq, Structural)]
pub enum Action {
    Release,
    Press,
    Repeat,
}

impl Action {
    /// The core's code for this action.
    pub fn code(self) -> (r: i32)
        ensures
            r == (match self {
                Action::Release => 0i32,
                Action::Press => 1i32,
                Action::Repeat => 2i32,
            }),
    {
        match self {
            Action::Release => 0,
            Action::Press => 1,
            Action::Repeat => 2,
        }
    }
}

/// Modifier flag of Shift.
pub const MODS_SHIFT: u16 = 1;

/// Modifier flag of Control.
pub const MODS_CTRL: u16 = 2;

/// Modifier flag of Alt.
pub const MODS_ALT: u16 = 4;

/// Modifier flag of Super.
pub const MODS_SUPER: u16 = 8;

/// Modifiers of a key event, as the core's flag bits.
#[derive(Debug, Clone, Copy, Default, PartialEq, Eq, Structural)]
pub struct Mods {
    bits: u16,
}

impl Mods {
    /// The flag bits.
    pub closed spec fn value(self) -> u16 {
        self.bits
    }

    /// The flag bits, for the core.
    pub fn raw(self) -> (r: u16)
        ensures
            r == self.value(),
    {
        self.bits
    }

    /// Shift
    pub fn shift() -> (r: Self)
        ensures
            r.value() == MODS_SHIFT,
    {
        Self { bits: MODS_SHIFT }
    }

    /// Control
    pub fn ctrl() -> (r: Self)
        ensures
            r.value() == MODS_CTRL,
    {
        Self { bits: MODS_CTRL }
    }

    /// Alt
    pub fn alt() -> (r: Self)
        ensures
            r.value() == MODS_ALT,
    {
        Self { bits: MODS_ALT }
    }

    /// Super
    pub fn super_key() -> (r: Self)
        ensures
            r.value() == MODS_SUPER,
    {
        Self { bits: MODS_SUPER }
    }

    /// No modifiers.
    pub fn empty() -> (r: Self)
        ensures
            r.value() == 0,
    {
        Self { bits: 0 }
    }

    /// Whether any flag of `other` is set.
    pub fn contains(self, other: Self) -> (r: bool)
        ensures
            r == (self.value() & other.value() != 0),
    {
        (self.bits & other.bits) != 0
    }
}

impl vstd::std_specs::ops::BitOrSpecImpl for Mods {
    open spec fn obeys_bitor_spec() -> bool {
        true
    }

    open spec fn bitor_req(self, rhs: Self) -> bool {
        true
    }

    closed spec fn bitor_spec(self, rhs: Self) -> Self {
        Mods { bits: self.bits | rhs.bits }
    }
}

impl core::ops::BitOr for Mods {
    type Output = Self;

    fn bitor(self, rhs: Self) -> (r: Self)
        ensures
            r.value() == self.value() | rhs.value(),
    {
        Self { bits: self.bits | rhs.bits }
    }
}

impl core::ops::BitOrAssign for Mods {
    fn bitor_assign(&mut self, rhs: Self)
        ensures
            final(self).value() == old(self).value() | rhs.value(),
    {
        self.bits = self.bits | rhs.bits;
    }
}

/// Physical keys the core's key encoder knows.
#[derive(Debug, Clone, Copy, PartialEq, Eq, Structural)]
pub enum Key {
    Unidentified,
    Backquote,
    Backslash,
    BracketLeft,
    BracketRight,
    Comma,
    Digit0,
    Digit1,
    Digit2,
    Digit3,
    Digit4,
    Digit5,
    Digit6,
    Digit7,
    Digit8,
    Digit9,
    Equal,
    A,
    B,
    C,
    D,
    E,
    F,
    G,
    H,
    I,
    J,
    K,
    L,
    M,
    N,
    O,
    P,
    Q,
    R,
    S,
    T,
    U,
    V,
    W,
    X,
    Y,
    Z,
    Minus,
    Period,
    Quote,
    Semicolon,
    Slash,
    Backspace,
    Enter,
    Space,
    Tab,
    Delete,
    End,
    Home,
    Insert,
    PageDown,
    PageUp,
    ArrowDown,
    ArrowLeft,
    ArrowRight,
    ArrowUp,
    Escape,
    F1,
    F2,
    F3,
    F4,
    F5,
    F6,
    F7,
    F8,
    F9,
    F10,
    F11,
    F12,
}

/// The core's code for each key.
pub open spec fn key_code(key: Key) -> i32 {
    match key {
        Key::Unidentified => 0,
        Key::Backquote => 1,
        Key::Backslash => 2,
        Key::BracketLeft => 3,
        Key::BracketRight => 4,
        Key::Comma => 5,
        Key::Digit0 => 6,
        Key::Digit1 => 7,
        Key::Digit2 => 8,
        Key::Digit3 => 9,
        Key::Digit4 => 10,
        Key::Digit5 => 11,
        Key::Digit6 => 12,
        Key::Digit7 => 13,
        Key::Digit8 => 14,
        Key::Digit9 => 15,
        Key::Equal => 16,
        Key::A => 20,
        Key::B => 21,
        Key::C => 22,
        Key::D => 23,
        Key::E => 24,
        Key::F => 25,
        Key::G => 26,
        Key::H => 27,
        Key::I => 28,
        Key::J => 29,
        Key::K => 30,
        Key::L => 31,
        Key::M => 32,
        Key::N => 33,
        Key::O => 34,
        Key::P => 35,
        Key::Q => 36,
        Key::R => 37,
        Key::S => 38,
        Key::T => 39,
        Key::U => 40,
        Key::V => 41,
        Key::W => 42,
        Key::X => 43,
        Key::Y => 44,
        Key::Z => 45,
        Key::Minus => 46,
        Key::Period => 47,
        Key::Quote => 48,
        Key::Semicolon => 49,
        Key::Slash => 50,
        Key::Backspace => 53,
        Key::Enter => 58,
        Key::Space => 63,
        Key::Tab => 64,
        Key::Delete => 68,
        Key::End => 69,
        Key::Home => 71,
        Key::Insert => 72,
        Key::PageDown => 73,
        Key::PageUp => 74,
        Key::ArrowDown => 75,
        Key::ArrowLeft => 76,
        Key::ArrowRight => 77,
        Key::ArrowUp => 78,
        Key::Escape => 120,
        Key::F1 => 121,
        Key::F2 => 122,
        Key::F3 => 123,
        Key::F4 => 124,
        Key::F5 => 125,
        Key::F6 => 126,
        Key::F7 => 127,
        Key::F8 => 128,
        Key::F9 => 129,
        Key::F10 => 130,
        Key::F11 => 131,
        Key::F12 => 132,
    }
}

impl Key {
    /// The core's code for this key.
    pub fn code(self) -> (r: i32)
        ensures
            r == key_code(self),
    {
        match self {
            Key::Unidentified => 0,
            Key::Backquote => 1,
            Key::Backslash => 2,
            Key::BracketLeft => 3,
            Key::BracketRight => 4,
            Key::Comma => 5,
            Key::Digit0 => 6,
            Key::Digit1 => 7,
            Key::Digit2 => 8,
            Key::Digit3 => 9,
            Key::Digit4 => 10,
            Key::Digit5 => 11,
            Key::Digit6 => 12,
            Key::Digit7 => 13,
            Key::Digit8 => 14,
            Key::Digit9 => 15,
            Key::Equal => 16,
            Key::A => 20,
            Key::B => 21,
            Key::C => 22,
            Key::D => 23,
            Key::E => 24,
            Key::F => 25,
            Key::G => 26,
            Key::H => 27,
            Key::I => 28,
            Key::J => 29,
            Key::K => 30,
            Key::L => 31,
            Key::M => 32,
            Key::N => 33,
            Key::O => 34,
            Key::P => 35,
            Key::Q => 36,
            Key::R => 37,
            Key::S => 38,
            Key::T => 39,
            Key::U => 40,
            Key::V => 41,
            Key::W => 42,
            Key::X => 43,
            Key::Y => 44,
            Key::Z => 45,
            Key::Minus => 46,
            Key::Period => 47,
            Key::Quote => 48,
            Key::Semicolon => 49,
            Key::Slash => 50,
            Key::Backspace => 53,
            Key::Enter => 58,
            Key::Space => 63,
            Key::Tab => 64,
            Key::Delete => 68,
            Key::End => 69,
            Key::Home => 71,
            Key::Insert => 72,
            Key::PageDown => 73,
            Key::PageUp => 74,
            Key::ArrowDown => 75,
            Key::ArrowLeft => 76,
            Key::ArrowRight => 77,
            Key::ArrowUp => 78,
            Key::Escape => 120,
            Key::F1 => 121,
            Key::F2 => 122,
            Key::F3 => 123,
            Key::F4 => 124,
            Key::F5 => 125,
            Key::F6 => 126,
            Key::F7 => 127,
            Key::F8 => 128,
            Key::F9 => 129,
            Key::F10 => 130,
            Key::F11 => 131,
            Key::F12 => 132,
        }
    }
}

} // verus!
