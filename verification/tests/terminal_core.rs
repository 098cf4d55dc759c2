use mightty::ghostty::types::{Attributes, Cell, Color, ScreenBuffer};
use mightty::ghostty::{
    check_result, encode_probe, finish_encode, graphemes_from_codepoints, optional_color, Action,
    CellWidth, EncodeProbe, Error, GhosttyCellWide, GhosttyResult, Key, Mods, RgbColor, Underline,
};

#[test]
fn result_codes_map_to_results() {
    assert_eq!(GhosttyResult::from_code(0), GhosttyResult::Success);
    assert_eq!(GhosttyResult::from_code(-1), GhosttyResult::OutOfMemory);
    assert_eq!(GhosttyResult::from_code(-2), GhosttyResult::InvalidValue);
    assert_eq!(GhosttyResult::from_code(-3), GhosttyResult::OutOfSpace);
    assert_eq!(GhosttyResult::from_code(-4), GhosttyResult::NoValue);
    assert_eq!(GhosttyResult::from_code(99), GhosttyResult::InvalidValue);
}

#[test]
fn check_result_gives_each_error() {
    assert_eq!(check_result(GhosttyResult::Success), Ok(()));
    assert_eq!(check_result(GhosttyResult::OutOfMemory), Err(Error::OutOfMemory));
    assert_eq!(check_result(GhosttyResult::InvalidValue), Err(Error::InvalidValue));
    assert_eq!(check_result(GhosttyResult::OutOfSpace), Err(Error::OutOfSpace));
    assert_eq!(check_result(GhosttyResult::NoValue), Err(Error::NoValue));
    assert_eq!(Error::from(GhosttyResult::Success), Error::InvalidValue);
}

#[test]
fn optional_colors() {
    let c = RgbColor { r: 1, g: 2, b: 3 };
    assert_eq!(optional_color(GhosttyResult::Success, c), Ok(Some(c)));
    assert_eq!(optional_color(GhosttyResult::NoValue, c), Ok(None));
    assert_eq!(optional_color(GhosttyResult::InvalidValue, c), Ok(None));
    assert_eq!(optional_color(GhosttyResult::OutOfMemory, c), Err(Error::OutOfMemory));
}

#[test]
fn encoder_probe_and_finish() {
    assert_eq!(encode_probe(GhosttyResult::Success), EncodeProbe::Empty);
    assert_eq!(encode_probe(GhosttyResult::OutOfSpace), EncodeProbe::NeedsBuffer);
    assert_eq!(encode_probe(GhosttyResult::NoValue), EncodeProbe::Failed(Error::NoValue));
    let mut out = vec![9, 9, 9, 9, 9];
    finish_encode(vec![0x1B, b'[', b'A', 0], 3, &mut out);
    assert_eq!(out, vec![0x1B, b'[', b'A']);
    finish_encode(vec![1, 2], 10, &mut out);
    assert_eq!(out, vec![1, 2]);
}

#[test]
fn graphemes_drop_values_that_are_no_character() {
    let chars = graphemes_from_codepoints(&vec![0x78, 0xD800, 0x1F4E6, 0x110000, 0x79]);
    assert_eq!(chars, vec!['x', '📦', 'y']);
}

#[test]
fn widths_and_advances() {
    assert_eq!(GhosttyCellWide::from_code(1), GhosttyCellWide::Wide);
    assert_eq!(GhosttyCellWide::from_code(7), GhosttyCellWide::Narrow);
    assert_eq!(CellWidth::from_raw(GhosttyCellWide::SpacerTail), CellWidth::SpacerTail);
    assert_eq!(CellWidth::Narrow.column_advance(), 1);
    assert_eq!(CellWidth::Wide.column_advance(), 2);
    assert_eq!(CellWidth::SpacerTail.column_advance(), 0);
    assert_eq!(CellWidth::SpacerHead.column_advance(), 0);
}

#[test]
fn underline_codes() {
    assert_eq!(Underline::from_raw(0), Underline::Off);
    assert_eq!(Underline::from_raw(3), Underline::Curly);
    assert_eq!(Underline::from_raw(5), Underline::Dashed);
    assert_eq!(Underline::from_raw(42), Underline::Off);
}

#[test]
fn action_and_key_codes() {
    assert_eq!(Action::Release.code(), 0);
    assert_eq!(Action::Press.code(), 1);
    assert_eq!(Action::Repeat.code(), 2);
    assert_eq!(Key::Unidentified.code(), 0);
    assert_eq!(Key::A.code(), 20);
    assert_eq!(Key::F12.code(), 132);
}

#[test]
fn mods_flags() {
    let m = Mods::shift() | Mods::ctrl();
    assert_eq!(m.raw(), 3);
    assert!(m.contains(Mods::shift()));
    assert!(!m.contains(Mods::alt()));
    assert!(!Mods::empty().contains(Mods::empty()));
    assert!(m.contains(Mods::shift() | Mods::alt()));
    let mut n = Mods::alt();
    n |= Mods::super_key();
    assert_eq!(n.raw(), 12);
}

#[test]
fn screen_buffer_clone_keeps_cells() {
    let blank = Cell { char: ' ', fg: Color::Default, bg: Color::Default, attrs: Attributes::default() };
    let x = Cell { char: 'x', fg: Color::Palette(3), bg: Color::Rgb(1, 2, 3), attrs: Attributes::default() };
    let buffer = ScreenBuffer { rows: 2, cols: 2, cells: vec![vec![x, blank], vec![blank, x]], cursor: (1, 0) };
    let copy = buffer.clone();
    assert_eq!(copy, buffer);
    assert_eq!(copy.cells[1][1].char, 'x');
}
