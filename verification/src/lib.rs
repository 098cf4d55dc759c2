//! Terminal emulator core: key mapping, pane layout, terminal cell model.

pub mod ghostty;
pub mod input;
pub mod split;
pub mod keystroke;
pub mod pane_container;
pub mod widget;
pub mod feedback;
pub mod shell;
