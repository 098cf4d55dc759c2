//! Feedback capture: a structured snapshot of what the terminal shows.

use vstd::prelude::*;

use crate::ghostty::{advance_of, CellWidth, RgbColor, Style, Underline};
use crate::keystroke::{decimal, decimal_digits, string_from_chars};

verus! {

/// Grid size in cells.
#[derive(Debug, Clone, Copy, PartialEq, Eq, Structural)]
pub struct GridSize {
    pub cols: u16,
    pub rows: u16,
}

/// A color as its channels and as one `0xRRGGBB` number.
#[derive(Debug, Clone, Copy, PartialEq, Eq, Structural)]
pub struct RgbHex {
    pub r: u8,
    pub g: u8,
    pub b: u8,
    pub hex: u32,
}

/// The `0xRRGGBB` number of three channels.
pub open spec fn hex_of(r: u8, g: u8, b: u8) -> u32 {
    ((r as u32) * 65536 + (g as u32) * 256 + (b as u32)) as u32
}

impl RgbHex {
    /// A color from its channels.
    pub fn new(r: u8, g: u8, b: u8) -> (s: Self)
        ensures
            s.r == r,
            s.g == g,
            s.b == b,
            s.hex == hex_of(r, g, b),
    {
        let hex: u32 = ((r as u32) << 16) | ((g as u32) << 8) | (b as u32);
        assert(((r as u32) << 16) | ((g as u32) << 8) | (b as u32) == (r as u32) * 65536 + (
        g as u32) * 256 + (b as u32)) by (bit_vector);
        Self { r, g, b, hex }
    }
}

/// The capture form of a terminal color.
pub fn rgb_hex(rgb: RgbColor) -> (r: RgbHex)
    ensures
        r == (RgbHex { r: rgb.r, g: rgb.g, b: rgb.b, hex: hex_of(rgb.r, rgb.g, rgb.b) }),
{
    RgbHex::new(rgb.r, rgb.g, rgb.b)
}

/// Default colors of the terminal.
#[derive(Debug, Clone, Copy, PartialEq, Eq, Structural)]
pub struct CaptureColors {
    pub foreground: RgbHex,
    pub background: RgbHex,
    pub cursor: Option<RgbHex>,
}

/// The capture form of the terminal's default colors.
pub fn capture_colors(foreground: RgbColor, background: RgbColor, cursor: Option<RgbColor>) -> (r:
    CaptureColors)
    ensures
        r == (CaptureColors {
            foreground: RgbHex {
                r: foreground.r,
                g: foreground.g,
                b: foreground.b,
                hex: hex_of(foreground.r, foreground.g, foreground.b),
            },
            background: RgbHex {
                r: background.r,
                g: background.g,
                b: background.b,
                hex: hex_of(background.r, background.g, background.b),
            },
            cursor: hex_opt(cursor),
        }),
{
    CaptureColors {
        foreground: rgb_hex(foreground),
        background: rgb_hex(background),
        cursor: match cursor {
            Some(c) => Some(rgb_hex(c)),
            None => None,
        },
    }
}

/// Cursor position in the viewport.
#[derive(Debug, Clone, Copy, PartialEq, Eq, Structural)]
pub struct CaptureCursor {
    pub x: u16,
    pub y: u16,
}

/// One captured cell.
#[derive(Debug, Clone, PartialEq, Eq)]
pub struct CaptureCell {
    pub col: u16,
    pub text: String,
    pub fg: RgbHex,
    pub bg: Option<RgbHex>,
    pub bold: bool,
    pub italic: bool,
    pub underline: String,
    pub inverse: bool,
    pub strikethrough: bool,
}

/// One captured row: its text and its cells.
#[derive(Debug, Clone, PartialEq, Eq)]
pub struct CaptureRow {
    pub index: u16,
    pub text: String,
    pub cells: Vec<CaptureCell>,
}

/// What the terminal core reports of one cell, for a capture.
#[derive(Debug, Clone)]
pub struct CaptureCellSource {
    pub width: CellWidth,
    pub graphemes_len: u32,
    pub graphemes: Vec<char>,
    pub fg: Option<RgbColor>,
    pub bg: Option<RgbColor>,
    pub style: Style,
}

/// The name of an underline style.
pub open spec fn underline_label(underline: Underline) -> Seq<char> {
    match underline {
        Underline::Off => "none"@,
        Underline::Single => "single"@,
        Underline::Double => "double"@,
        Underline::Curly => "curly"@,
        Underline::Dotted => "dotted"@,
        Underline::Dashed => "dashed"@,
    }
}

/// The name of an underline style.
pub fn underline_name(underline: Underline) -> (r: &'static str)
    ensures
        r@ == underline_label(underline),
{
    match underline {
        Underline::Off => "none",
        Underline::Single => "single",
        Underline::Double => "double",
        Underline::Curly => "curly",
        Underline::Dotted => "dotted",
        Underline::Dashed => "dashed",
    }
}

/// A captured cell as values: column, text, colors, attributes.
pub type CellRecord = (u16, Seq<char>, RgbHex, Option<RgbHex>, bool, bool, Seq<char>, bool, bool);

/// The record of a captured cell.
pub open spec fn cell_record(cell: CaptureCell) -> CellRecord {
    (
        cell.col,
        cell.text@,
        cell.fg,
        cell.bg,
        cell.bold,
        cell.italic,
        cell.underline@,
        cell.inverse,
        cell.strikethrough,
    )
}

/// The spec form of an optional color's capture.
pub open spec fn hex_opt(c: Option<RgbColor>) -> Option<RgbHex> {
    match c {
        Some(c) => Some(RgbHex { r: c.r, g: c.g, b: c.b, hex: hex_of(c.r, c.g, c.b) }),
        None => None,
    }
}

/// The record a cell source at column `col` is captured as; a cell without a
/// foreground color takes `default_fg`.
pub open spec fn source_record(src: CaptureCellSource, col: u16, default_fg: RgbColor) -> CellRecord {
    let fg = match src.fg {
        Some(c) => c,
        None => default_fg,
    };
    (
        col,
        src.graphemes@,
        RgbHex { r: fg.r, g: fg.g, b: fg.b, hex: hex_of(fg.r, fg.g, fg.b) },
        hex_opt(src.bg),
        src.style.bold,
        src.style.italic,
        underline_label(src.style.underline),
        src.style.inverse,
        src.style.strikethrough,
    )
}

/// A captured cell records the cell's own column, text and style flags,
/// its foreground (the default one when it has none) and its background,
/// each color with its channels packed into one number.
pub proof fn law_record_keeps_cell(src: CaptureCellSource, col: u16, default_fg: RgbColor)
    ensures
        ({
            let r = source_record(src, col, default_fg);
            let fg = if src.fg is Some { src.fg->0 } else { default_fg };
            &&& r.0 == col
            &&& r.1 == src.graphemes@
            &&& r.2.r == fg.r && r.2.g == fg.g && r.2.b == fg.b
            &&& r.2.hex == fg.r * 65536 + fg.g * 256 + fg.b
            &&& (src.bg is None <==> r.3 is None)
            &&& src.bg is Some ==> r.3->0.r == src.bg->0.r && r.3->0.g == src.bg->0.g && r.3->0.b
                == src.bg->0.b
            &&& r.4 == src.style.bold
            &&& r.5 == src.style.italic
            &&& r.6 == underline_label(src.style.underline)
            &&& r.7 == src.style.inverse
            &&& r.8 == src.style.strikethrough
        }),
{
    let fg = if src.fg is Some { src.fg->0 } else { default_fg };
    assert(fg.r * 65536 + fg.g * 256 + fg.b < 0x1000000) by (nonlinear_arith)
        requires
            fg.r < 256,
            fg.g < 256,
            fg.b < 256,
    ;
}

/// Each underline style is recorded under its own name.
pub proof fn law_underline_labels()
    ensures
        underline_label(Underline::Off) == "none"@,
        underline_label(Underline::Single) == "single"@,
        underline_label(Underline::Double) == "double"@,
        underline_label(Underline::Curly) == "curly"@,
        underline_label(Underline::Dotted) == "dotted"@,
        underline_label(Underline::Dashed) == "dashed"@,
{
}

/// Whether a cell source is captured: it holds text and is no spacer.
pub open spec fn is_captured(src: CaptureCellSource) -> bool {
    src.graphemes_len != 0 && !(src.width is SpacerTail || src.width is SpacerHead)
}

/// A row's capture from its cell sources: the row text, the captured cells,
/// and the column after the last cell.
pub open spec fn row_capture(cells: Seq<CaptureCellSource>, default_fg: RgbColor) -> (
    Seq<char>,
    Seq<CellRecord>,
    int,
)
    decreases cells.len(),
{
    if cells.len() == 0 {
        (Seq::empty(), Seq::empty(), 0)
    } else {
        let prev = row_capture(cells.drop_last(), default_fg);
        let c = cells.last();
        let next_col = prev.2 + advance_of(c.width);
        if is_captured(c) {
            (
                prev.0 + c.graphemes@,
                prev.1.push(source_record(c, prev.2 as u16, default_fg)),
                next_col,
            )
        } else {
            (prev.0, prev.1, next_col)
        }
    }
}

proof fn lemma_row_capture_col_mono(cells: Seq<CaptureCellSource>, default_fg: RgbColor, i: int)
    requires
        0 <= i <= cells.len(),
    ensures
        0 <= row_capture(cells.take(i), default_fg).2 <= row_capture(cells, default_fg).2,
    decreases cells.len() - i,
{
    if i < cells.len() {
        lemma_row_capture_col_mono(cells, default_fg, i + 1);
        assert(cells.take(i + 1).drop_last() =~= cells.take(i));
        lemma_row_capture_col_nonneg(cells.take(i), default_fg);
    } else {
        assert(cells.take(i) =~= cells);
        lemma_row_capture_col_nonneg(cells, default_fg);
    }
}

proof fn lemma_row_capture_col_nonneg(cells: Seq<CaptureCellSource>, default_fg: RgbColor)
    ensures
        row_capture(cells, default_fg).2 >= 0,
    decreases cells.len(),
{
    if cells.len() > 0 {
        lemma_row_capture_col_nonneg(cells.drop_last(), default_fg);
    }
}

/// The columns the given cells move across, one after the other.
pub open spec fn advance_sum(cells: Seq<CaptureCellSource>) -> int
    decreases cells.len(),
{
    if cells.len() == 0 {
        0
    } else {
        advance_sum(cells.drop_last()) + advance_of(cells.last().width)
    }
}

/// A cell is captured at the column that the cells before it move across,
/// spacers and empty cells included; a row's last column is what all its
/// cells move across.
pub proof fn law_capture_column_is_advance_sum(
    cells: Seq<CaptureCellSource>,
    cell: CaptureCellSource,
    default_fg: RgbColor,
)
    ensures
        row_capture(cells, default_fg).2 == advance_sum(cells),
        row_capture(cells.push(cell), default_fg).1 == (if is_captured(cell) {
            row_capture(cells, default_fg).1.push(
                source_record(cell, advance_sum(cells) as u16, default_fg),
            )
        } else {
            row_capture(cells, default_fg).1
        }),
    decreases cells.len(),
{
    if cells.len() > 0 {
        law_capture_column_is_advance_sum(cells.drop_last(), cells.last(), default_fg);
    }
    assert(cells.push(cell).drop_last() =~= cells);
}

/// Captures one cell source standing at column `col`.
pub fn capture_cell(cell: &CaptureCellSource, col: u16, default_fg: RgbColor) -> (r: CaptureCell)
    ensures
        cell_record(r) == source_record(*cell, col, default_fg),
        r.text@ == cell.graphemes@,
        r.col == col,
        r.bold == cell.style.bold,
        r.italic == cell.style.italic,
        r.inverse == cell.style.inverse,
        r.strikethrough == cell.style.strikethrough,
        r.underline@ == underline_label(cell.style.underline),
{
    let text = string_from_chars(&cell.graphemes);
    let fg = match cell.fg {
        Some(c) => c,
        None => default_fg,
    };
    let underline = underline_name(cell.style.underline).to_owned();
    CaptureCell {
        col,
        text,
        fg: rgb_hex(fg),
        bg: match cell.bg {
            Some(c) => Some(rgb_hex(c)),
            None => None,
        },
        bold: cell.style.bold,
        italic: cell.style.italic,
        underline,
        inverse: cell.style.inverse,
        strikethrough: cell.style.strikethrough,
    }
}

/// Captures one row from what the core reports of its cells.
pub fn capture_row(index: u16, cells: &Vec<CaptureCellSource>, default_fg: RgbColor) -> (r:
    CaptureRow)
    requires
        row_capture(cells@, default_fg).2 <= u16::MAX,
    ensures
        r.index == index,
        r.text@ == row_capture(cells@, default_fg).0,
        r.cells@.map_values(|c: CaptureCell| cell_record(c)) == row_capture(cells@, default_fg).1,
{
    let mut row_text = String::new();
    let mut out: Vec<CaptureCell> = Vec::new();
    let mut col_idx: u16 = 0;
    let mut i: usize = 0;
    while i < cells.len()
        invariant
            i <= cells@.len(),
            row_capture(cells@, default_fg).2 <= u16::MAX,
            row_text@ == row_capture(cells@.take(i as int), default_fg).0,
            out@.map_values(|c: CaptureCell| cell_record(c)) == row_capture(
                cells@.take(i as int),
                default_fg,
            ).1,
            col_idx == row_capture(cells@.take(i as int), default_fg).2,
        decreases cells@.len() - i,
    {
        proof {
            assert(cells@.take(i as int + 1).drop_last() =~= cells@.take(i as int));
            lemma_row_capture_col_mono(cells@, default_fg, i as int + 1);
        }
        let cell = &cells[i];
        let advance = cell.width.column_advance();
        let spacer = match cell.width {
            CellWidth::SpacerTail | CellWidth::SpacerHead => true,
            _ => false,
        };
        if cell.graphemes_len == 0 || spacer {
            col_idx = col_idx + advance;
        } else {
            let record = capture_cell(cell, col_idx, default_fg);
            row_text.append(record.text.as_str());
            let ghost rec = cell_record(record);
            let ghost prev = out@.map_values(|c: CaptureCell| cell_record(c));
            out.push(record);
            proof {
                assert(out@.map_values(|c: CaptureCell| cell_record(c)) =~= prev.push(rec));
            }
            col_idx = col_idx + advance;
        }
        i = i + 1;
    }
    assert(cells@.take(i as int) =~= cells@);
    CaptureRow { index, text: row_text, cells: out }
}

proof fn lemma_advance_sum_prefix(cells: Seq<CaptureCellSource>, i: int)
    requires
        0 <= i <= cells.len(),
    ensures
        0 <= advance_sum(cells.take(i)) <= advance_sum(cells),
    decreases cells.len() - i,
{
    if i < cells.len() {
        lemma_advance_sum_prefix(cells, i + 1);
        assert(cells.take(i + 1).drop_last() =~= cells.take(i));
        lemma_advance_sum_nonneg(cells.take(i));
    } else {
        assert(cells.take(i) =~= cells);
        lemma_advance_sum_nonneg(cells);
    }
}

proof fn lemma_advance_sum_nonneg(cells: Seq<CaptureCellSource>)
    ensures
        advance_sum(cells) >= 0,
    decreases cells.len(),
{
    if cells.len() > 0 {
        lemma_advance_sum_nonneg(cells.drop_last());
    }
}

proof fn lemma_row_capture_col(cells: Seq<CaptureCellSource>, default_fg: RgbColor)
    ensures
        row_capture(cells, default_fg).2 == advance_sum(cells),
    decreases cells.len(),
{
    if cells.len() > 0 {
        lemma_row_capture_col(cells.drop_last(), default_fg);
    }
}

/// The texts of captured cells, one after the other.
pub open spec fn records_text(recs: Seq<CellRecord>) -> Seq<char>
    decreases recs.len(),
{
    if recs.len() == 0 {
        Seq::empty()
    } else {
        records_text(recs.drop_last()) + recs.last().1
    }
}

/// A captured row's text is its captured cells' texts, one after the other;
/// the captured cells' columns strictly increase along the row and stay
/// before the column the row ends at.
pub proof fn law_capture_row_shape(cells: Seq<CaptureCellSource>, default_fg: RgbColor)
    requires
        advance_sum(cells) <= u16::MAX,
    ensures
        ({
            let r = row_capture(cells, default_fg);
            &&& r.0 == records_text(r.1)
            &&& forall|j: int, k: int| 0 <= j < k < r.1.len() ==> #[trigger] r.1[j].0 < #[trigger] r.1[k].0
            &&& forall|j: int| 0 <= j < r.1.len() ==> #[trigger] r.1[j].0 < r.2
        }),
    decreases cells.len(),
{
    lemma_row_capture_col(cells, default_fg);
    if cells.len() > 0 {
        let c = cells.last();
        law_capture_row_shape(cells.drop_last(), default_fg);
        lemma_row_capture_col(cells.drop_last(), default_fg);
        let prev = row_capture(cells.drop_last(), default_fg);
        let r = row_capture(cells, default_fg);
        lemma_advance_sum_nonneg(cells.drop_last());
        assert(0 <= prev.2 <= u16::MAX);
        if is_captured(c) {
            assert(r.1.drop_last() =~= prev.1);
            assert(r.1.last().0 == prev.2);
        } else {
            assert(r.1 == prev.1);
        }
    }
}

/// Whether a row's cells, one after the other, stay within the columns a
/// `u16` counts.
pub fn capture_row_fits(cells: &Vec<CaptureCellSource>) -> (r: bool)
    ensures
        r == (advance_sum(cells@) <= u16::MAX),
{
    let mut total: u32 = 0;
    let mut i: usize = 0;
    while i < cells.len()
        invariant
            i <= cells@.len(),
            total == advance_sum(cells@.take(i as int)),
            total <= u16::MAX,
        decreases cells@.len() - i,
    {
        proof {
            assert(cells@.take(i as int + 1).drop_last() =~= cells@.take(i as int));
            lemma_advance_sum_prefix(cells@, i as int + 1);
        }
        total = total + cells[i].width.column_advance() as u32;
        i = i + 1;
        if total > 65535 {
            return false;
        }
    }
    assert(cells@.take(i as int) =~= cells@);
    true
}

/// Whether every row can be captured: at most as many rows as a `u16` row
/// index counts past the last one, and each row within the `u16` columns.
pub open spec fn rows_capturable(rows: Seq<Vec<CaptureCellSource>>) -> bool {
    &&& rows.len() <= u16::MAX
    &&& forall|i: int| 0 <= i < rows.len() ==> advance_sum(#[trigger] rows[i]@) <= u16::MAX
}

/// Captures every row from what the core reports of its cells, row `i` under
/// index `i`; `None` when the rows cannot be captured (too many rows for the
/// row index, or a row wider than the columns a `u16` counts).
pub fn capture_rows(rows: &Vec<Vec<CaptureCellSource>>, default_fg: RgbColor) -> (r: Option<
    Vec<CaptureRow>,
>)
    ensures
        r is Some <==> rows_capturable(rows@),
        r matches Some(v) ==> {
            &&& v@.len() == rows@.len()
            &&& forall|i: int|
                0 <= i < rows@.len() ==> {
                    &&& (#[trigger] v@[i]).index == i
                    &&& v@[i].text@ == row_capture(rows@[i]@, default_fg).0
                    &&& v@[i].cells@.map_values(|c: CaptureCell| cell_record(c)) == row_capture(
                        rows@[i]@,
                        default_fg,
                    ).1
                }
        },
{
    if rows.len() > 65535 {
        return None;
    }
    let mut out: Vec<CaptureRow> = Vec::new();
    let mut i: usize = 0;
    while i < rows.len()
        invariant
            rows@.len() <= u16::MAX,
            i <= rows@.len(),
            out@.len() == i,
            forall|k: int| 0 <= k < i ==> advance_sum(#[trigger] rows@[k]@) <= u16::MAX,
            forall|k: int|
                0 <= k < i ==> {
                    &&& (#[trigger] out@[k]).index == k
                    &&& out@[k].text@ == row_capture(rows@[k]@, default_fg).0
                    &&& out@[k].cells@.map_values(|c: CaptureCell| cell_record(c)) == row_capture(
                        rows@[k]@,
                        default_fg,
                    ).1
                },
        decreases rows@.len() - i,
    {
        let cells = &rows[i];
        if !capture_row_fits(cells) {
            return None;
        }
        proof {
            lemma_row_capture_col(cells@, default_fg);
        }
        let row = capture_row(i as u16, cells, default_fg);
        out.push(row);
        i = i + 1;
    }
    Some(out)
}

/// The name of the directory a capture taken at `captured_unix_ms` is
/// written to: `terminal-capture-` and the time in decimal.
pub fn capture_stem(captured_unix_ms: u128) -> (r: String)
    ensures
        r@ == "terminal-capture-"@ + decimal_digits(captured_unix_ms as nat),
{
    let mut stem: String = "terminal-capture-".to_owned();
    stem.append(decimal(captured_unix_ms).as_str());
    stem
}

/// Swaps the first and third byte of every whole four-byte pixel, turning
/// BGRA pixels into RGBA pixels (and back); a trailing partial pixel is left.
#[verifier::spinoff_prover]
#[verifier::rlimit(40)]
pub fn swap_red_blue(pixels: &mut Vec<u8>)
    ensures
        final(pixels)@.len() == old(pixels)@.len(),
        forall|i: int|
            0 <= i < old(pixels)@.len() ==> #[trigger] final(pixels)@[i] == (if i < old(pixels)@.len()
                - old(pixels)@.len() % 4 && i % 4 == 0 {
                old(pixels)@[i + 2]
            } else if i < old(pixels)@.len() - old(pixels)@.len() % 4 && i % 4 == 2 {
                old(pixels)@[i - 2]
            } else {
                old(pixels)@[i]
            }),
{
    let n = pixels.len();
    let whole = n - n % 4;
    let mut k: usize = 0;
    while k < whole
        invariant
            n == old(pixels)@.len(),
            whole == n - n % 4,
            k <= whole,
            k % 4 == 0,
            pixels@.len() == n,
            forall|i: int|
                0 <= i < n ==> #[trigger] pixels@[i] == (if i < k && i % 4 == 0 {
                    old(pixels)@[i + 2]
                } else if i < k && i % 4 == 2 {
                    old(pixels)@[i - 2]
                } else {
                    old(pixels)@[i]
                }),
        decreases whole - k,
    {
        let a = pixels[k];
        let c = pixels[k + 2];
        pixels.set(k, c);
        pixels.set(k + 2, a);
        k = k + 4;
    }
}

#[verifier::external_type_specification]
#[verifier::external_body]
pub struct ExSystemTime(std::time::SystemTime);

/// Calls `SystemTime::now`: the time of the system clock now. It rests on
/// the clock, so nothing is stated of it.
#[verifier::external_body]
fn system_time_now() -> std::time::SystemTime {
    std::time::SystemTime::now()
}

/// Calls `SystemTime::duration_since` with `UNIX_EPOCH`: the time from the
/// start of 1970 to `t`, or `None` where `t` lies before it (the error
/// becomes `None`). Nothing is stated of the span itself.
#[verifier::external_body]
fn since_unix_epoch(t: &std::time::SystemTime) -> Option<core::time::Duration> {
    t.duration_since(std::time::UNIX_EPOCH).ok()
}

/// Calls `Duration::as_secs`: the whole seconds of a span. A span is
/// opaque here, so nothing is stated of the count.
#[verifier::external_body]
fn whole_secs(d: &core::time::Duration) -> u64 {
    d.as_secs()
}

/// Calls `Duration::subsec_nanos`: the nanoseconds of a span beyond its
/// whole seconds, which its documentation states are fewer than one billion.
#[verifier::external_body]
fn subsec_nanos(d: &core::time::Duration) -> (r: u32)
    ensures
        r < 1_000_000_000,
{
    d.subsec_nanos()
}

/// The whole milliseconds of a span of `secs` seconds and `nanos`
/// nanoseconds.
pub open spec fn whole_millis_of(secs: u64, nanos: u32) -> int {
    secs * 1000 + nanos / 1_000_000
}

/// Milliseconds of a time since the start of 1970, given as the whole
/// seconds and nanoseconds since then; zero where the time lies before it
/// (`None`).
pub fn timestamp_from_epoch_offset(since: Option<(u64, u32)>) -> (r: u128)
    ensures
        since is None ==> r == 0,
        since matches Some((secs, nanos)) ==> r == whole_millis_of(secs, nanos),
{
    match since {
        Some((secs, nanos)) => (secs as u128) * 1000 + (nanos / 1_000_000) as u128,
        None => 0,
    }
}

/// Milliseconds since the start of 1970 by the system clock; zero when the
/// clock stands before then.
pub fn unix_timestamp_ms() -> (r: u128)
    ensures
        r <= u64::MAX * 1000 + 999,
{
    let now = system_time_now();
    let since = match since_unix_epoch(&now) {
        Some(d) => Some((whole_secs(&d), subsec_nanos(&d))),
        None => None,
    };
    timestamp_from_epoch_offset(since)
}

} // verus!
