use mightty::ghostty::{Action, CellWidth, Key, Mods, RgbColor, Style, Underline};
use mightty::keystroke::{Keystroke, KeystrokeModifiers};
use mightty::widget::blink::{cursor_visible, CursorBlink, CursorStyle};
use mightty::widget::keys::{
    consumed_mods, convert_to_ghostty_key, convert_to_ghostty_mods, is_feedback_capture_shortcut,
    key_event_fields, key_implies_shift, printable_text, unshifted_codepoint,
};
use mightty::widget::output::{ExitWatch, OutputBatcher, OUTPUT_BATCH_THRESHOLD};
use mightty::widget::segments::{
    push_row_segment, row_fits, row_segments, segment_needs_own_layout, RenderCell, RowSegment,
    RowTextStyle,
};

fn ks(key: &str, key_char: Option<&str>, shift: bool, control: bool) -> Keystroke {
    Keystroke {
        key: key.to_string(),
        key_char: key_char.map(|s| s.to_string()),
        modifiers: KeystrokeModifiers { shift, alt: false, control, platform: false },
    }
}

const FG: RgbColor = RgbColor { r: 200, g: 200, b: 200 };
const BG: RgbColor = RgbColor { r: 0, g: 0, b: 0 };

fn style(bold: bool) -> Style {
    Style {
        bold,
        italic: false,
        underline: Underline::Off,
        blink: false,
        inverse: false,
        strikethrough: false,
    }
}

fn cell(width: CellWidth, text: &str, bold: bool) -> RenderCell {
    let chars: Vec<char> = text.chars().collect();
    RenderCell {
        width: Some(width),
        graphemes_len: Some(chars.len() as u32),
        fg: None,
        bg: None,
        style: Some(style(bold)),
        graphemes: Some(chars),
    }
}

fn plain(fg: RgbColor, bold: bool) -> RowTextStyle {
    RowTextStyle {
        fg,
        bg: None,
        default_bg: BG,
        bold,
        italic: false,
        underline: Underline::Off,
        strikethrough: false,
    }
}

#[test]
fn key_names_map_to_keys() {
    assert_eq!(convert_to_ghostty_key(&ks("up", None, false, false)), Key::ArrowUp);
    assert_eq!(convert_to_ghostty_key(&ks("f12", None, false, false)), Key::F12);
    assert_eq!(convert_to_ghostty_key(&ks("a", None, false, false)), Key::A);
    assert_eq!(convert_to_ghostty_key(&ks("7", None, false, false)), Key::Digit7);
    assert_eq!(convert_to_ghostty_key(&ks("/", None, false, false)), Key::Slash);
    assert_eq!(convert_to_ghostty_key(&ks("space", None, false, false)), Key::Space);
    assert_eq!(convert_to_ghostty_key(&ks("é", None, false, false)), Key::Unidentified);
    assert_eq!(convert_to_ghostty_key(&ks("menu", None, false, false)), Key::Unidentified);
}

#[test]
fn keystroke_modifiers_map_to_flags() {
    let k = Keystroke {
        key: "a".to_string(),
        key_char: None,
        modifiers: KeystrokeModifiers { shift: true, alt: true, control: true, platform: true },
    };
    assert_eq!(convert_to_ghostty_mods(&k).raw(), 15);
    assert_eq!(convert_to_ghostty_mods(&ks("a", None, false, true)).raw(), 2);
    assert_eq!(convert_to_ghostty_mods(&ks("a", None, false, false)).raw(), 0);
}

#[test]
fn printable_text_of_keystrokes() {
    let a = ks("a", Some("a"), false, false);
    assert_eq!(printable_text(&a, Action::Press), Some("a"));
    assert_eq!(printable_text(&a, Action::Release), None);
    assert_eq!(printable_text(&ks("space", None, false, false), Action::Press), Some(" "));
    assert_eq!(printable_text(&ks("x", Some(""), false, false), Action::Repeat), Some("x"));
    assert_eq!(printable_text(&ks("enter", None, false, false), Action::Press), None);
}

#[test]
fn unshifted_characters() {
    assert_eq!(unshifted_codepoint(&ks("A", None, true, false)), 'a');
    assert_eq!(unshifted_codepoint(&ks("!", None, true, false)), '1');
    assert_eq!(unshifted_codepoint(&ks("?", None, true, false)), '/');
    assert_eq!(unshifted_codepoint(&ks("space", None, false, false)), ' ');
    assert_eq!(unshifted_codepoint(&ks("enter", None, false, false)), '\0');
    assert_eq!(unshifted_codepoint(&ks("q", None, false, false)), 'q');
}

#[test]
fn shift_consumed_in_typed_text() {
    assert!(key_implies_shift("A", 'a'));
    assert!(!key_implies_shift("a", 'a'));
    assert!(!key_implies_shift("enter", '\0'));
    assert_eq!(consumed_mods("a", Mods::shift(), Some("A"), 'a').raw(), 1);
    assert_eq!(consumed_mods("!", Mods::empty(), Some("!"), '1').raw(), 1);
    assert_eq!(consumed_mods("a", Mods::ctrl(), Some("a"), 'a').raw(), 0);
    assert_eq!(consumed_mods("a", Mods::shift(), None, 'a').raw(), 0);
    assert_eq!(consumed_mods("a", Mods::shift(), Some("ab"), 'a').raw(), 0);
}

#[test]
fn feedback_capture_shortcut() {
    assert!(is_feedback_capture_shortcut(&ks("f12", None, true, true)));
    assert!(is_feedback_capture_shortcut(&ks("F12", None, true, true)));
    assert!(!is_feedback_capture_shortcut(&ks("f12", None, false, true)));
    assert!(!is_feedback_capture_shortcut(&ks("f11", None, true, true)));
}

#[test]
fn own_layout_for_wide_or_non_ascii_text() {
    assert!(!segment_needs_own_layout("a", 1));
    assert!(segment_needs_own_layout("a", 2));
    assert!(segment_needs_own_layout("é", 1));
    assert!(segment_needs_own_layout("📦", 2));
}

#[test]
fn adjacent_cells_of_one_style_merge() {
    let mut segments: Vec<RowSegment> = Vec::new();
    let mut pending: Option<RowSegment> = None;
    push_row_segment(&mut segments, &mut pending, 0, 1, plain(FG, false), "a".to_string());
    push_row_segment(&mut segments, &mut pending, 1, 1, plain(FG, false), "b".to_string());
    assert!(segments.is_empty());
    let p = pending.as_ref().unwrap();
    assert_eq!((p.start_col, p.columns, p.text.as_str()), (0, 2, "ab"));
    push_row_segment(&mut segments, &mut pending, 2, 1, plain(FG, true), "c".to_string());
    assert_eq!(segments.len(), 1);
    assert_eq!(segments[0].text, "ab");
    push_row_segment(&mut segments, &mut pending, 3, 1, plain(FG, true), String::new());
    assert_eq!(pending.as_ref().unwrap().text, "c");
    push_row_segment(&mut segments, &mut pending, 3, 2, plain(FG, true), "📦".to_string());
    assert!(pending.is_none());
    assert_eq!(segments.len(), 3);
    assert_eq!((segments[2].start_col, segments[2].columns), (3, 2));
}

#[test]
fn bold_style_survives_wide_emoji_segment() {
    let cells = vec![
        cell(CellWidth::Wide, "📦", false),
        cell(CellWidth::SpacerTail, "", false),
        cell(CellWidth::Narrow, " ", false),
        cell(CellWidth::Narrow, "r", true),
        cell(CellWidth::Narrow, "e", true),
        cell(CellWidth::Narrow, "p", true),
        cell(CellWidth::Narrow, "o", true),
    ];
    let segs = row_segments(&cells, FG, BG);
    let text: String = segs.iter().map(|s| s.text.as_str()).collect();
    assert_eq!(text, "📦 repo");
    let view: Vec<(u16, u16, String, bool)> =
        segs.iter().map(|s| (s.start_col, s.columns, s.text.clone(), s.style.bold)).collect();
    assert_eq!(
        view,
        vec![
            (0, 2, "📦".to_string(), false),
            (2, 1, " ".to_string(), false),
            (3, 4, "repo".to_string(), true),
        ]
    );
}

#[test]
fn unknown_cell_values_fall_back_to_blanks() {
    let mut no_len = cell(CellWidth::Wide, "x", false);
    no_len.graphemes_len = None;
    let mut no_style = cell(CellWidth::Narrow, "y", false);
    no_style.style = None;
    no_style.fg = Some(RgbColor { r: 9, g: 9, b: 9 });
    let mut no_width = cell(CellWidth::Narrow, "z", false);
    no_width.width = None;
    let segs = row_segments(&vec![no_len, no_width, no_style], FG, BG);
    let text: String = segs.iter().map(|s| s.text.clone()).collect();
    assert_eq!(text, "   ");
    assert_eq!((segs[0].start_col, segs[0].columns), (0, 2));
    assert_eq!(segs[1].start_col, 2);
    assert_eq!(segs[1].style.fg, RgbColor { r: 9, g: 9, b: 9 });
}

#[test]
fn inverse_cells_paint_their_background() {
    let mut c = cell(CellWidth::Narrow, "i", false);
    c.style = Some(Style { inverse: true, ..style(false) });
    let segs = row_segments(&vec![c], FG, BG);
    assert_eq!(segs[0].style.bg, Some(BG));
    let d = cell(CellWidth::Narrow, "n", false);
    let segs = row_segments(&vec![d], FG, BG);
    assert_eq!(segs[0].style.bg, None);
}

#[test]
fn cursor_blinks_by_interval() {
    let mut b = CursorBlink::new();
    assert!(b.phase);
    b.update_cursor_blink(true, 300, 500);
    assert!(b.phase);
    assert_eq!(b.accumulator_nanos, 300);
    b.update_cursor_blink(true, 200, 500);
    assert!(!b.phase);
    assert_eq!(b.accumulator_nanos, 0);
    b.update_cursor_blink(false, 100, 500);
    assert!(b.phase);
    assert_eq!(b.accumulator_nanos, 0);
    assert!(cursor_visible(true, false, false));
    assert!(!cursor_visible(true, false, true));
    assert!(!cursor_visible(false, true, true));
    assert_eq!(CursorStyle::default(), CursorStyle::Block);
}

#[test]
fn output_is_handed_on_in_order_in_batches() {
    let mut batcher = OutputBatcher::new();
    assert!(batcher.is_empty());
    assert_eq!(batcher.push(b"hello "), None);
    assert_eq!(batcher.take(), Some(b"hello ".to_vec()));
    assert_eq!(batcher.take(), None);
    let big = vec![7u8; OUTPUT_BATCH_THRESHOLD - 2];
    assert_eq!(batcher.push(b"ab"), None);
    let batch = batcher.push(&big).expect("threshold reached");
    assert_eq!(batch.len(), OUTPUT_BATCH_THRESHOLD);
    assert_eq!(&batch[..2], b"ab");
    assert!(batcher.is_empty());
}

#[test]
fn exit_is_reported_once() {
    let mut w = ExitWatch::new();
    assert!(!w.check_exit(false));
    assert!(!w.has_exited());
    assert!(w.check_exit(true));
    assert!(w.has_exited());
    assert!(!w.check_exit(true));
}

#[test]
fn key_event_fields_for_shifted_letter() {
    let k = ks("A", Some("A"), true, false);
    let f = key_event_fields(&k, Action::Press);
    assert_eq!(f.action, Action::Press);
    assert_eq!(f.key, Key::Unidentified);
    assert_eq!(f.mods.raw(), 1);
    assert_eq!(f.consumed_mods.raw(), 1);
    assert_eq!(f.unshifted_codepoint, 'a');
    assert_eq!(f.utf8.as_deref(), Some("A"));
    assert!(!f.composing);
    let r = key_event_fields(&ks("enter", None, false, true), Action::Release);
    assert_eq!(r.key, Key::Enter);
    assert_eq!(r.mods.raw(), 2);
    assert_eq!(r.utf8, None);
    assert_eq!(r.consumed_mods.raw(), 0);
    assert_eq!(r.unshifted_codepoint, '\0');
}

#[test]
fn batcher_reports_what_it_holds() {
    let mut batcher = OutputBatcher::new();
    assert_eq!(batcher.len(), 0);
    batcher.push(b"abc");
    assert_eq!(batcher.len(), 3);
    batcher.take();
    assert_eq!(batcher.len(), 0);
}

#[test]
fn rows_within_u16_columns_fit() {
    let narrow: Vec<RenderCell> = (0..65535).map(|_| cell(CellWidth::Narrow, "a", false)).collect();
    assert!(row_fits(&narrow));
    let mut over = narrow.clone();
    over.push(cell(CellWidth::Narrow, "b", false));
    assert!(!row_fits(&over));
    let mut spacer = narrow;
    spacer.push(cell(CellWidth::SpacerTail, "", false));
    assert!(row_fits(&spacer));
}

#[test]
fn segment_texts_join_to_the_row_text() {
    let cells = vec![
        cell(CellWidth::Narrow, "a", false),
        cell(CellWidth::Narrow, "b", true),
        cell(CellWidth::Wide, "界", true),
        cell(CellWidth::SpacerTail, "", true),
        cell(CellWidth::Narrow, "c", true),
    ];
    let segs = row_segments(&cells, FG, BG);
    let text: String = segs.iter().map(|s| s.text.as_str()).collect();
    assert_eq!(text, "ab界c");
    assert_eq!(segs.len(), 4);
}
