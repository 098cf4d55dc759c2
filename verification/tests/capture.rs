use mightty::feedback::{
    capture_cell, capture_colors, capture_row, capture_row_fits, capture_rows, capture_stem,
    rgb_hex, swap_red_blue, underline_name,
    timestamp_from_epoch_offset, unix_timestamp_ms, CaptureCellSource, RgbHex,
};
use mightty::ghostty::{CellWidth, RgbColor, Style, Underline};

const FG: RgbColor = RgbColor { r: 0xCC, g: 0xCC, b: 0xCC };

fn source(width: CellWidth, text: &str, bold: bool) -> CaptureCellSource {
    let graphemes: Vec<char> = text.chars().collect();
    CaptureCellSource {
        width,
        graphemes_len: graphemes.len() as u32,
        graphemes,
        fg: None,
        bg: None,
        style: Style {
            bold,
            italic: false,
            underline: Underline::Off,
            blink: false,
            inverse: false,
            strikethrough: false,
        },
    }
}

#[test]
fn hex_packs_channels() {
    let c = RgbHex::new(0x12, 0x34, 0x56);
    assert_eq!(c.hex, 0x123456);
    assert_eq!((c.r, c.g, c.b), (0x12, 0x34, 0x56));
    assert_eq!(rgb_hex(RgbColor { r: 255, g: 0, b: 1 }).hex, 0xFF0001);
}

#[test]
fn colors_capture() {
    let colors = capture_colors(FG, RgbColor { r: 0, g: 0, b: 0 }, None);
    assert_eq!(colors.foreground.hex, 0xCCCCCC);
    assert_eq!(colors.background.hex, 0);
    assert_eq!(colors.cursor, None);
    let with_cursor = capture_colors(FG, FG, Some(RgbColor { r: 1, g: 2, b: 3 }));
    assert_eq!(with_cursor.cursor.map(|c| c.hex), Some(0x010203));
}

#[test]
fn underline_names() {
    assert_eq!(underline_name(Underline::Off), "none");
    assert_eq!(underline_name(Underline::Single), "single");
    assert_eq!(underline_name(Underline::Double), "double");
    assert_eq!(underline_name(Underline::Curly), "curly");
    assert_eq!(underline_name(Underline::Dotted), "dotted");
    assert_eq!(underline_name(Underline::Dashed), "dashed");
}

#[test]
fn box_emoji_advances_two_columns() {
    let cells = vec![
        source(CellWidth::Narrow, "x", false),
        source(CellWidth::Wide, "📦", false),
        source(CellWidth::SpacerTail, "", false),
        source(CellWidth::Narrow, "y", false),
    ];
    let row = capture_row(0, &cells, FG);
    let positions: Vec<(String, u16)> = row.cells.iter().map(|c| (c.text.clone(), c.col)).collect();
    assert_eq!(
        positions,
        vec![("x".to_string(), 0), ("📦".to_string(), 1), ("y".to_string(), 3)]
    );
    assert_eq!(row.text, "x📦y");
    assert_eq!(row.index, 0);
}

#[test]
fn captured_cells_keep_their_style_and_default_foreground() {
    let mut red = source(CellWidth::Narrow, "r", true);
    red.fg = Some(RgbColor { r: 255, g: 0, b: 0 });
    red.bg = Some(RgbColor { r: 0, g: 0, b: 255 });
    red.style.underline = Underline::Curly;
    let row = capture_row(4, &vec![source(CellWidth::Narrow, "", false), red, source(CellWidth::Narrow, "d", false)], FG);
    assert_eq!(row.index, 4);
    assert_eq!(row.text, "rd");
    assert_eq!(row.cells.len(), 2);
    let c = &row.cells[0];
    assert_eq!(c.col, 1);
    assert_eq!(c.fg.hex, 0xFF0000);
    assert_eq!(c.bg.map(|b| b.hex), Some(0x0000FF));
    assert!(c.bold);
    assert_eq!(c.underline, "curly");
    let d = &row.cells[1];
    assert_eq!(d.fg.hex, 0xCCCCCC);
    assert_eq!(d.bg, None);
    assert_eq!(d.underline, "none");
    let one = capture_cell(&source(CellWidth::Narrow, "q", false), 7, FG);
    assert_eq!((one.col, one.text.as_str()), (7, "q"));
}

#[test]
fn pixels_swap_red_and_blue() {
    let mut px = vec![1, 2, 3, 4, 5, 6, 7, 8, 9, 10];
    swap_red_blue(&mut px);
    assert_eq!(px, vec![3, 2, 1, 4, 7, 6, 5, 8, 9, 10]);
}

#[test]
fn timestamp_is_after_2020() {
    assert!(unix_timestamp_ms() > 1_577_836_800_000);
}

#[test]
fn timestamp_from_offset_counts_whole_milliseconds() {
    assert_eq!(timestamp_from_epoch_offset(None), 0);
    assert_eq!(timestamp_from_epoch_offset(Some((1, 999_999_999))), 1999);
    assert_eq!(timestamp_from_epoch_offset(Some((1_700_000_000, 2_500_000))), 1_700_000_000_002);
    let d = std::time::Duration::new(1_700_000_000, 2_500_000);
    assert_eq!(timestamp_from_epoch_offset(Some((d.as_secs(), d.subsec_nanos()))), d.as_millis());
}

#[test]
fn every_row_is_captured_under_its_index() {
    let rows = vec![
        vec![source(CellWidth::Narrow, "a", false), source(CellWidth::Narrow, "b", true)],
        vec![],
        vec![
            source(CellWidth::Wide, "界", false),
            source(CellWidth::SpacerTail, "", false),
            source(CellWidth::Narrow, "c", false),
        ],
    ];
    let captured = capture_rows(&rows, FG).expect("rows fit");
    assert_eq!(captured.len(), 3);
    let indices: Vec<u16> = captured.iter().map(|r| r.index).collect();
    assert_eq!(indices, vec![0, 1, 2]);
    assert_eq!(captured[0].text, "ab");
    assert_eq!(captured[1].text, "");
    assert!(captured[1].cells.is_empty());
    assert_eq!(captured[2].text, "界c");
    let cols: Vec<u16> = captured[2].cells.iter().map(|c| c.col).collect();
    assert_eq!(cols, vec![0, 2]);
    assert!(captured[0].cells[1].bold);
}

#[test]
fn a_row_wider_than_u16_columns_is_not_captured() {
    let wide: Vec<CaptureCellSource> = (0..32768).map(|_| source(CellWidth::Wide, "w", false)).collect();
    assert!(!capture_row_fits(&wide));
    let rows = vec![vec![source(CellWidth::Narrow, "a", false)], wide];
    assert!(capture_rows(&rows, FG).is_none());
    let fits: Vec<CaptureCellSource> = (0..32767).map(|_| source(CellWidth::Wide, "w", false)).collect();
    assert!(capture_row_fits(&fits));
}

#[test]
fn too_many_rows_are_not_captured() {
    let rows: Vec<Vec<CaptureCellSource>> = (0..65536).map(|_| Vec::new()).collect();
    assert!(capture_rows(&rows, FG).is_none());
    let rows: Vec<Vec<CaptureCellSource>> = (0..65535).map(|_| Vec::new()).collect();
    let captured = capture_rows(&rows, FG).expect("rows fit");
    assert_eq!(captured.last().map(|r| r.index), Some(65534));
}

#[test]
fn capture_directory_name() {
    assert_eq!(capture_stem(1_700_000_000_123), "terminal-capture-1700000000123");
    assert_eq!(capture_stem(0), "terminal-capture-0");
}
