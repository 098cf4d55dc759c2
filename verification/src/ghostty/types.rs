//! Screen buffer value types of the terminal core.

use vstd::prelude::*;

verus! {

/// RGB color
#[derive(Debug, Clone, Copy, Default, PartialEq, Eq, Structural)]
pub struct GhosttyColorRgb {
    pub r: u8,
    pub g: u8,
    pub b: u8,
}

/// Cell style (SGR attributes)
#[derive(Debug, Clone, Copy, PartialEq, Eq, Structural)]
pub struct GhosttyStyle {
    pub size: usize,
    pub bold: bool,
    pub italic: bool,
    pub underline: u8,
    pub blink: bool,
    pub inverse: bool,
    pub invisible: bool,
    pub strikethrough: bool,
    pub overline: bool,
    pub fg_color: GhosttyColorRgb,
    pub bg_color: GhosttyColorRgb,
    pub fg_color_type: u8,
    pub bg_color_type: u8,
}

/// Terminal modes
#[derive(Debug, Clone, Copy, PartialEq, Eq, Structural)]
pub enum GhosttyMode {
    /// Application cursor keys mode (DECCKM)
    ApplicationCursor,
    /// Insert mode (IRM)
    Insert,
    /// Send/receive mode (SRM)
    SendReceive,
    /// Linefeed mode (LNM)
    Linefeed,
    /// Cursor visible (DECTCEM)
    CursorVisible,
    /// Alternate screen buffer
    AlternateScreen,
    /// Bracketed paste mode
    BracketedPaste,
    /// Focus event reporting
    FocusEvent,
    /// Mouse tracking - X10
    MouseX10,
    /// Mouse tracking - normal
    MouseNormal,
    /// Mouse tracking - button
    MouseButton,
    /// Mouse tracking - any event
    MouseAnyEvent,
    /// Mouse format - UTF-8
    MouseUtf8,
    /// Mouse format - SGR
    MouseSgr,
    /// Mouse format - URXVT
    MouseUrxvt,
    /// Mouse format - SGR pixels
    MouseSgrPixels,
}

/// The mode number of each terminal mode.
pub open spec fn mode_number(mode: GhosttyMode) -> i32 {
    match mode {
        GhosttyMode::ApplicationCursor => 1,
        GhosttyMode::Insert => 4,
        GhosttyMode::SendReceive => 7,
        GhosttyMode::Linefeed => 20,
        GhosttyMode::CursorVisible => 25,
        GhosttyMode::AlternateScreen => 47,
        GhosttyMode::BracketedPaste => 2004,
        GhosttyMode::FocusEvent => 1004,
        GhosttyMode::MouseX10 => 9,
        GhosttyMode::MouseNormal => 1000,
        GhosttyMode::MouseButton => 1002,
        GhosttyMode::MouseAnyEvent => 1003,
        GhosttyMode::MouseUtf8 => 1005,
        GhosttyMode::MouseSgr => 1006,
        GhosttyMode::MouseUrxvt => 1015,
        GhosttyMode::MouseSgrPixels => 1016,
    }
}

impl GhosttyMode {
    /// The mode number (as used in `CSI ? n h`).
    pub fn value(self) -> (r: i32)
        ensures
            r == mode_number(self),
    {
        match self {
            GhosttyMode::ApplicationCursor => 1,
            GhosttyMode::Insert => 4,
            GhosttyMode::SendReceive => 7,
            GhosttyMode::Linefeed => 20,
            GhosttyMode::CursorVisible => 25,
            GhosttyMode::AlternateScreen => 47,
            GhosttyMode::BracketedPaste => 2004,
            GhosttyMode::FocusEvent => 1004,
            GhosttyMode::MouseX10 => 9,
            GhosttyMode::MouseNormal => 1000,
            GhosttyMode::MouseButton => 1002,
            GhosttyMode::MouseAnyEvent => 1003,
            GhosttyMode::MouseUtf8 => 1005,
            GhosttyMode::MouseSgr => 1006,
            GhosttyMode::MouseUrxvt => 1015,
            GhosttyMode::MouseSgrPixels => 1016,
        }
    }
}

/// Cell attributes (SGR styles)
#[derive(Debug, Clone, Copy, PartialEq, Eq, Default, Structural)]
pub struct Attributes {
    pub bold: bool,
    pub italic: bool,
    pub underline: u8,
    pub strikethrough: bool,
    pub inverse: bool,
    pub blink: bool,
}

/// Cell color
#[derive(Debug, Clone, Copy, PartialEq, Eq, Structural)]
pub enum Color {
    /// Default terminal color
    Default,
    /// Palette color (0-255)
    Palette(u8),
    /// True color RGB
    Rgb(u8, u8, u8),
}

impl Default for Color {
    fn default() -> (r: Self)
        ensures
            r == Color::Default,
    {
        Color::Default
    }
}

/// Terminal cell with character and styling
#[derive(Debug, Clone, Copy, PartialEq, Eq, Structural)]
pub struct Cell {
    pub char: char,
    pub fg: Color,
    pub bg: Color,
    pub attrs: Attributes,
}

/// Screen buffer containing terminal cell data
#[derive(Debug, PartialEq, Eq)]
pub struct ScreenBuffer {
    pub rows: u16,
    pub cols: u16,
    pub cells: Vec<Vec<Cell>>,
    pub cursor: (u16, u16),
}

impl Clone for ScreenBuffer {
    fn clone(&self) -> (r: Self)
        ensures
            r.rows == self.rows,
            r.cols == self.cols,
            r.cursor == self.cursor,
            r.cells@.len() == self.cells@.len(),
            forall|i: int| 0 <= i < self.cells@.len() ==> #[trigger] r.cells@[i]@ == self.cells@[i]@,
    {
        let mut cells: Vec<Vec<Cell>> = Vec::new();
        let mut i: usize = 0;
        while i < self.cells.len()
            invariant
                i <= self.cells@.len(),
                cells@.len() == i,
                forall|k: int| 0 <= k < i ==> #[trigger] cells@[k]@ == self.cells@[k]@,
            decreases self.cells@.len() - i,
        {
            let row = &self.cells[i];
            let mut copy: Vec<Cell> = Vec::new();
            let mut j: usize = 0;
            while j < row.len()
                invariant
                    j <= row@.len(),
                    copy@ == row@.subrange(0, j as int),
                decreases row@.len() - j,
            {
                copy.push(row[j]);
                j += 1;
                proof {
                    assert(copy@ =~= row@.subrange(0, j as int));
                }
            }
            proof {
                assert(copy@ =~= row@);
            }
            cells.push(copy);
            i += 1;
        }
        ScreenBuffer { rows: self.rows, cols: self.cols, cells, cursor: (self.cursor.0, self.cursor.1) }
    }
}

} // verus!
