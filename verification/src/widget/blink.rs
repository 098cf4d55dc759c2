//! Cursor shape and blinking.

use vstd::prelude::*;

verus! {

/// How the cursor is drawn.
#[derive(Debug, Clone, Copy, PartialEq, Eq, Structural)]
pub enum CursorStyle {
    Block,
    Line,
    Underline,
}

impl Default for CursorStyle {
    fn default() -> (r: Self)
        ensures
            r == CursorStyle::Block,
    {
        CursorStyle::Block
    }
}

/// The longest span of time a `Duration` holds, in nanoseconds.
pub const MAX_DURATION_NANOS: u128 = 18446744073709551615999999999;

/// The blink phase of the cursor and the time gathered toward its next
/// change.
#[derive(Debug, Clone, Copy, PartialEq, Eq, Structural)]
pub struct CursorBlink {
    /// Whether the cursor is in its shown phase.
    pub phase: bool,
    /// Nanoseconds gathered since the phase last changed.
    pub accumulator_nanos: u128,
}

impl CursorBlink {
    /// A cursor in its shown phase, with no time gathered.
    pub fn new() -> (r: Self)
        ensures
            r.phase,
            r.accumulator_nanos == 0,
    {
        Self { phase: true, accumulator_nanos: 0 }
    }

    /// Moves the blink on by `elapsed_nanos`: with blinking off the cursor
    /// stays shown; with it on, once the gathered time reaches the interval
    /// the phase flips and the gathered time starts over.
    pub fn update_cursor_blink(&mut self, enabled: bool, elapsed_nanos: u128, interval_nanos: u128)
        requires
            enabled ==> old(self).accumulator_nanos + elapsed_nanos <= MAX_DURATION_NANOS,
        ensures
            !enabled ==> final(self).phase && final(self).accumulator_nanos == 0,
            enabled && old(self).accumulator_nanos + elapsed_nanos >= interval_nanos
                ==> final(self).phase == !old(self).phase && final(self).accumulator_nanos == 0,
            enabled && old(self).accumulator_nanos + elapsed_nanos < interval_nanos
                ==> final(self).phase == old(self).phase && final(self).accumulator_nanos
                == old(self).accumulator_nanos + elapsed_nanos,
    {
        if !enabled {
            self.phase = true;
            self.accumulator_nanos = 0;
            return;
        }
        self.accumulator_nanos = self.accumulator_nanos + elapsed_nanos;
        if self.accumulator_nanos >= interval_nanos {
            self.accumulator_nanos = 0;
            self.phase = !self.phase;
        }
    }
}

/// Whether the cursor is drawn: the view has focus, and the cursor is in its
/// shown phase or does not blink.
pub fn cursor_visible(is_focused: bool, blink_phase: bool, blink_enabled: bool) -> (r: bool)
    ensures
        r == (is_focused && (blink_phase || !blink_enabled)),
{
    is_focused && (blink_phase || !blink_enabled)
}

} // verus!
