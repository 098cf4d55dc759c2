//! Grouping the cells of a row into text segments laid out one by one.
//!
//! Runs of plain ASCII cells of one style are laid out together; a cell that
//! spans several columns or holds other text is laid out on its own, so that
//! it keeps to its columns.

use vstd::prelude::*;

use crate::ghostty::{advance_of, CellWidth, RgbColor, Style, Underline};
use crate::keystroke::{spaces, string_from_chars};

verus! {

/// How a segment's text is drawn.
#[derive(Debug, Clone, Copy, PartialEq, Eq, Structural)]
pub struct RowTextStyle {
    pub fg: RgbColor,
    pub bg: Option<RgbColor>,
    pub default_bg: RgbColor,
    pub bold: bool,
    pub italic: bool,
    pub underline: Underline,
    pub strikethrough: bool,
}

/// Text that starts at column `start_col` and spans `columns` columns.
#[derive(Debug, Clone)]
pub struct RowSegment {
    pub start_col: u16,
    pub columns: u16,
    pub text: String,
    pub style: RowTextStyle,
}

/// A segment as values: start column, columns, text, style.
pub type SegmentView = (u16, u16, Seq<char>, RowTextStyle);

/// The values of a segment.
pub open spec fn seg_view(s: RowSegment) -> SegmentView {
    (s.start_col, s.columns, s.text@, s.style)
}

/// The values of segments, in order.
pub open spec fn segs_view(s: Seq<RowSegment>) -> Seq<SegmentView> {
    s.map_values(|x: RowSegment| seg_view(x))
}

/// The values of an optional segment.
pub open spec fn opt_view(s: Option<RowSegment>) -> Option<SegmentView> {
    match s {
        Some(x) => Some(seg_view(x)),
        None => None,
    }
}

/// An optional segment as a sequence of none or one.
pub open spec fn pending_seq(p: Option<SegmentView>) -> Seq<SegmentView> {
    match p {
        Some(s) => seq![s],
        None => Seq::empty(),
    }
}

/// A segment ends within the columns a `u16` counts.
pub open spec fn seg_fits(s: SegmentView) -> bool {
    s.0 + s.1 <= u16::MAX
}

/// An optional segment ends within the columns a `u16` counts.
pub open spec fn pending_fits(p: Option<SegmentView>) -> bool {
    match p {
        Some(s) => seg_fits(s),
        None => true,
    }
}

impl RowSegment {
    /// A segment of the given text.
    pub fn new(start_col: u16, columns: u16, text: String, style: RowTextStyle) -> (r: Self)
        ensures
            seg_view(r) == (start_col, columns, text@, style),
    {
        Self { start_col, columns, text, style }
    }
}

/// Whether text spanning `columns` columns is laid out on its own: it spans
/// other than one column, or it holds a character beyond ASCII.
pub open spec fn needs_own_layout(text: Seq<char>, columns: u16) -> bool {
    columns != 1 || !vstd::utf8::is_ascii_chars(text)
}

/// Whether a segment is laid out on its own.
pub fn segment_needs_own_layout(segment: &str, columns: u16) -> (r: bool)
    ensures
        r == needs_own_layout(segment@, columns),
{
    columns != 1 || !segment.is_ascii()
}

/// Whether the open segment has the given style and ends at `start_col`.
pub open spec fn extends(pending: Option<SegmentView>, style: RowTextStyle, start_col: u16) -> bool {
    match pending {
        Some(p) => p.3 == style && p.0 + p.1 == start_col,
        None => false,
    }
}

/// The segments and the open segment after text is added to a row: empty
/// text changes nothing; text laid out on its own closes the open segment
/// and follows it; other text extends the open segment when it has the same
/// style and ends where the text starts, and else closes it and opens anew.
pub open spec fn push_step(
    segs: Seq<SegmentView>,
    pending: Option<SegmentView>,
    start_col: u16,
    columns: u16,
    style: RowTextStyle,
    text: Seq<char>,
) -> (Seq<SegmentView>, Option<SegmentView>) {
    if text.len() == 0 {
        (segs, pending)
    } else if needs_own_layout(text, columns) {
        ((segs + pending_seq(pending)).push((start_col, columns, text, style)), None)
    } else if extends(pending, style, start_col) {
        let p = pending->0;
        (segs, Some((p.0, (p.1 + columns) as u16, p.2 + text, p.3)))
    } else {
        (segs + pending_seq(pending), Some((start_col, columns, text, style)))
    }
}

/// The text of segments, one after the other.
pub open spec fn segments_text(s: Seq<SegmentView>) -> Seq<char>
    decreases s.len(),
{
    if s.len() == 0 {
        Seq::empty()
    } else {
        segments_text(s.drop_last()) + s.last().2
    }
}

/// The text of segments joined is the text of each part joined.
proof fn lemma_segments_text_concat(a: Seq<SegmentView>, b: Seq<SegmentView>)
    ensures
        segments_text(a + b) == segments_text(a) + segments_text(b),
    decreases b.len(),
{
    if b.len() == 0 {
        assert(a + b =~= a);
        assert(segments_text(a) + segments_text(b) =~= segments_text(a));
    } else {
        lemma_segments_text_concat(a, b.drop_last());
        assert((a + b).drop_last() =~= a + b.drop_last());
        assert((a + b).last() == b.last());
        assert(segments_text(a + b) =~= segments_text(a) + segments_text(b));
    }
}

/// Adding text to a row adds exactly that text after the row's text: no
/// text is lost, doubled or moved.
pub proof fn law_push_keeps_text(
    segs: Seq<SegmentView>,
    pending: Option<SegmentView>,
    start_col: u16,
    columns: u16,
    style: RowTextStyle,
    text: Seq<char>,
)
    ensures
        ({
            let (s, p) = push_step(segs, pending, start_col, columns, style, text);
            segments_text(s + pending_seq(p)) == segments_text(segs + pending_seq(pending)) + text
        }),
{
    let (s, p) = push_step(segs, pending, start_col, columns, style, text);
    let before = segs + pending_seq(pending);
    if text.len() == 0 {
        assert(segments_text(before) + text =~= segments_text(before));
    } else if needs_own_layout(text, columns) {
        let seg = (start_col, columns, text, style);
        assert(s + pending_seq(p) =~= before.push(seg));
        assert(before.push(seg).drop_last() =~= before);
    } else if extends(pending, style, start_col) {
        let q = pending->0;
        let merged = (q.0, (q.1 + columns) as u16, q.2 + text, q.3);
        lemma_segments_text_concat(segs, seq![merged]);
        lemma_segments_text_concat(segs, seq![q]);
        assert(segments_text(Seq::<SegmentView>::empty()) =~= Seq::<char>::empty());
        assert(seq![merged].drop_last() =~= Seq::<SegmentView>::empty());
        assert(seq![q].drop_last() =~= Seq::<SegmentView>::empty());
        assert(segments_text(seq![merged]) =~= q.2 + text);
        assert(segments_text(seq![q]) =~= q.2);
        assert(segments_text(segs) + (q.2 + text) =~= segments_text(segs) + q.2 + text);
    } else {
        let seg = (start_col, columns, text, style);
        assert(s + pending_seq(p) =~= before.push(seg));
        assert(before.push(seg).drop_last() =~= before);
    }
}

/// Text added to a row: its start column, its columns, its style and its
/// characters.
pub type Piece = (u16, u16, RowTextStyle, Seq<char>);

/// The segments and the open segment after each piece is added in turn.
pub open spec fn push_all(
    segs: Seq<SegmentView>,
    pending: Option<SegmentView>,
    pieces: Seq<Piece>,
) -> (Seq<SegmentView>, Option<SegmentView>)
    decreases pieces.len(),
{
    if pieces.len() == 0 {
        (segs, pending)
    } else {
        let (s, p) = push_all(segs, pending, pieces.drop_last());
        let q = pieces.last();
        push_step(s, p, q.0, q.1, q.2, q.3)
    }
}

/// The characters of the pieces, one after the other.
pub open spec fn pieces_text(pieces: Seq<Piece>) -> Seq<char>
    decreases pieces.len(),
{
    if pieces.len() == 0 {
        Seq::empty()
    } else {
        pieces_text(pieces.drop_last()) + pieces.last().3
    }
}

/// Adding any number of pieces to a row adds exactly their text, in the
/// order the pieces came.
pub proof fn law_push_all_keeps_text(
    segs: Seq<SegmentView>,
    pending: Option<SegmentView>,
    pieces: Seq<Piece>,
)
    ensures
        ({
            let (s, p) = push_all(segs, pending, pieces);
            segments_text(s + pending_seq(p)) == segments_text(segs + pending_seq(pending))
                + pieces_text(pieces)
        }),
    decreases pieces.len(),
{
    if pieces.len() == 0 {
        assert(segments_text(segs + pending_seq(pending)) + Seq::<char>::empty()
            =~= segments_text(segs + pending_seq(pending)));
    } else {
        law_push_all_keeps_text(segs, pending, pieces.drop_last());
        let (s, p) = push_all(segs, pending, pieces.drop_last());
        let q = pieces.last();
        law_push_keeps_text(s, p, q.0, q.1, q.2, q.3);
        let base = segments_text(segs + pending_seq(pending));
        assert(base + pieces_text(pieces.drop_last()) + q.3 =~= base + pieces_text(pieces));
    }
}

/// Adds `text`, starting at column `start_col` and spanning `columns`
/// columns, to a row being laid out: `segments` are the closed segments,
/// `pending` the open one.
pub fn push_row_segment(
    segments: &mut Vec<RowSegment>,
    pending: &mut Option<RowSegment>,
    start_col: u16,
    columns: u16,
    style: RowTextStyle,
    text: String,
)
    requires
        text@.len() > 0 && !needs_own_layout(text@, columns) ==> match *old(pending) {
            Some(p) => (p.style == style ==> p.start_col + p.columns <= u16::MAX) && (extends(
                opt_view(*old(pending)),
                style,
                start_col,
            ) ==> p.columns + columns <= u16::MAX),
            None => true,
        },
    ensures
        (segs_view(final(segments)@), opt_view(*final(pending))) == push_step(
            segs_view(old(segments)@),
            opt_view(*old(pending)),
            start_col,
            columns,
            style,
            text@,
        ),
        start_col + columns <= u16::MAX && pending_fits(opt_view(*old(pending))) ==> pending_fits(
            opt_view(*final(pending)),
        ),
{
    if text.unicode_len() == 0 {
        return;
    }
    let isolate = segment_needs_own_layout(text.as_str(), columns);
    let ghost segs0 = segs_view(segments@);
    let taken = pending.take();
    if isolate {
        match taken {
            Some(seg) => {
                segments.push(seg);
            },
            None => {},
        }
        let ghost segs1 = segs_view(segments@);
        assert(segs1 =~= segs0 + pending_seq(opt_view(taken)));
        segments.push(RowSegment::new(start_col, columns, text, style));
        assert(segs_view(segments@) =~= segs1.push((start_col, columns, text@, style)));
        return;
    }
    match taken {
        Some(mut seg) => {
            if seg.style == style && seg.start_col + seg.columns == start_col {
                seg.columns = seg.columns + columns;
                seg.text.append(text.as_str());
                *pending = Some(seg);
            } else {
                segments.push(seg);
                assert(segs_view(segments@) =~= segs0 + pending_seq(opt_view(taken)));
                *pending = Some(RowSegment::new(start_col, columns, text, style));
            }
        },
        None => {
            assert(segs0 + pending_seq(opt_view(taken)) =~= segs0);
            *pending = Some(RowSegment::new(start_col, columns, text, style));
        },
    }
}

/// What the terminal core reports of one cell for drawing; `None` where it
/// could not report a value (for the colors: also where the cell has none).
#[derive(Debug, Clone)]
pub struct RenderCell {
    pub width: Option<CellWidth>,
    pub graphemes_len: Option<u32>,
    pub fg: Option<RgbColor>,
    pub bg: Option<RgbColor>,
    pub style: Option<Style>,
    pub graphemes: Option<Vec<char>>,
}

/// A style with no attributes.
pub open spec fn plain_style(fg: RgbColor, bg: Option<RgbColor>, default_bg: RgbColor) -> RowTextStyle {
    RowTextStyle {
        fg,
        bg,
        default_bg,
        bold: false,
        italic: false,
        underline: Underline::Off,
        strikethrough: false,
    }
}

/// `n` spaces.
pub open spec fn blank(n: int) -> Seq<char> {
    Seq::new(n as nat, |_i: int| ' ')
}

/// The columns a cell moves the row's column by: none when its width is
/// unknown.
pub open spec fn cell_advance(cell: RenderCell) -> int {
    match cell.width {
        Some(w) => advance_of(w) as int,
        None => 0,
    }
}

/// What a cell adds to its row, as columns spanned, style and text; `None`
/// for a cell the row skips: one of unknown width, or a spacer cell. A cell
/// whose text length is unknown shows blanks in the default colors; one
/// whose style is unknown shows blanks in its colors; one without text, or
/// whose text is unknown, shows blanks in its style. An inverse cell always
/// paints its background.
pub open spec fn cell_piece(cell: RenderCell, foreground: RgbColor, background: RgbColor) -> Option<
    (u16, RowTextStyle, Seq<char>),
> {
    match cell.width {
        None => None,
        Some(w) => {
            let adv = advance_of(w);
            let span: u16 = if adv > 0 {
                adv
            } else {
                1
            };
            match cell.graphemes_len {
                None => if adv > 0 {
                    Some((adv, plain_style(foreground, None, background), blank(adv as int)))
                } else {
                    None
                },
                Some(n) => if w is SpacerTail || w is SpacerHead {
                    None
                } else {
                    let fg = match cell.fg {
                        Some(c) => c,
                        None => foreground,
                    };
                    match cell.style {
                        None => Some((span, plain_style(fg, cell.bg, background), blank(span as int))),
                        Some(st) => {
                            let bg_color = match cell.bg {
                                Some(c) => c,
                                None => background,
                            };
                            let text = if n == 0 {
                                blank(span as int)
                            } else {
                                match cell.graphemes {
                                    Some(g) => g@,
                                    None => blank(span as int),
                                }
                            };
                            Some(
                                (
                                    span,
                                    RowTextStyle {
                                        fg,
                                        bg: if st.inverse || cell.bg is Some {
                                            Some(bg_color)
                                        } else {
                                            None
                                        },
                                        default_bg: background,
                                        bold: st.bold,
                                        italic: st.italic,
                                        underline: st.underline,
                                        strikethrough: st.strikethrough,
                                    },
                                    text,
                                ),
                            )
                        },
                    }
                },
            }
        },
    }
}

/// The closed segments, the open segment and the next column after laying
/// out the given cells of a row, one after the other.
pub open spec fn row_fold(cells: Seq<RenderCell>, foreground: RgbColor, background: RgbColor) -> (
    Seq<SegmentView>,
    Option<SegmentView>,
    int,
)
    decreases cells.len(),
{
    if cells.len() == 0 {
        (Seq::empty(), None, 0)
    } else {
        let (segs, pending, col) = row_fold(cells.drop_last(), foreground, background);
        let c = cells.last();
        match cell_piece(c, foreground, background) {
            Some(piece) => {
                let (s, p) = push_step(segs, pending, col as u16, piece.0, piece.1, piece.2);
                (s, p, col + cell_advance(c))
            },
            None => (segs, pending, col + cell_advance(c)),
        }
    }
}

/// The segments a row of cells is laid out in.
pub open spec fn row_layout(cells: Seq<RenderCell>, foreground: RgbColor, background: RgbColor) -> Seq<
    SegmentView,
> {
    let (segs, pending, _col) = row_fold(cells, foreground, background);
    segs + pending_seq(pending)
}

/// The text a row of cells shows: each cell's text, in order.
pub open spec fn row_text(cells: Seq<RenderCell>, foreground: RgbColor, background: RgbColor) -> Seq<
    char,
>
    decreases cells.len(),
{
    if cells.len() == 0 {
        Seq::empty()
    } else {
        let prev = row_text(cells.drop_last(), foreground, background);
        match cell_piece(cells.last(), foreground, background) {
            Some(piece) => prev + piece.2,
            None => prev,
        }
    }
}

/// The column reached grows along the row.
proof fn lemma_row_fold_col(cells: Seq<RenderCell>, foreground: RgbColor, background: RgbColor, i: int)
    requires
        0 <= i <= cells.len(),
    ensures
        0 <= row_fold(cells.take(i), foreground, background).2 <= row_fold(
            cells,
            foreground,
            background,
        ).2,
    decreases cells.len() - i,
{
    if i < cells.len() {
        lemma_row_fold_col(cells, foreground, background, i + 1);
        assert(cells.take(i + 1).drop_last() =~= cells.take(i));
        lemma_row_fold_col_nonneg(cells.take(i), foreground, background);
    } else {
        assert(cells.take(i) =~= cells);
        lemma_row_fold_col_nonneg(cells, foreground, background);
    }
}

/// The column reached is never negative.
proof fn lemma_row_fold_col_nonneg(cells: Seq<RenderCell>, foreground: RgbColor, background: RgbColor)
    ensures
        row_fold(cells, foreground, background).2 >= 0,
    decreases cells.len(),
{
    if cells.len() > 0 {
        lemma_row_fold_col_nonneg(cells.drop_last(), foreground, background);
    }
}

/// The columns a row of cells spans: what each cell moves the column by,
/// added up.
pub open spec fn row_width(cells: Seq<RenderCell>) -> int
    decreases cells.len(),
{
    if cells.len() == 0 {
        0
    } else {
        row_width(cells.drop_last()) + cell_advance(cells.last())
    }
}

proof fn lemma_row_fold_col_is_width(cells: Seq<RenderCell>, foreground: RgbColor, background: RgbColor)
    ensures
        row_fold(cells, foreground, background).2 == row_width(cells),
    decreases cells.len(),
{
    if cells.len() > 0 {
        lemma_row_fold_col_is_width(cells.drop_last(), foreground, background);
    }
}

proof fn lemma_row_width_prefix(cells: Seq<RenderCell>, i: int)
    requires
        0 <= i <= cells.len(),
    ensures
        0 <= row_width(cells.take(i)) <= row_width(cells),
    decreases cells.len() - i,
{
    if i < cells.len() {
        lemma_row_width_prefix(cells, i + 1);
        assert(cells.take(i + 1).drop_last() =~= cells.take(i));
        lemma_row_width_nonneg(cells.take(i));
    } else {
        assert(cells.take(i) =~= cells);
        lemma_row_width_nonneg(cells);
    }
}

proof fn lemma_row_width_nonneg(cells: Seq<RenderCell>)
    ensures
        row_width(cells) >= 0,
    decreases cells.len(),
{
    if cells.len() > 0 {
        lemma_row_width_nonneg(cells.drop_last());
    }
}

/// Whether a row of cells stays within the columns a `u16` counts, as its
/// layout asks.
pub fn row_fits(cells: &Vec<RenderCell>) -> (r: bool)
    ensures
        r == (row_width(cells@) <= u16::MAX),
{
    let mut total: u32 = 0;
    let mut i: usize = 0;
    while i < cells.len()
        invariant
            i <= cells@.len(),
            total == row_width(cells@.take(i as int)),
            total <= u16::MAX,
        decreases cells@.len() - i,
    {
        proof {
            assert(cells@.take(i as int + 1).drop_last() =~= cells@.take(i as int));
            lemma_row_width_prefix(cells@, i as int + 1);
        }
        let adv: u16 = match cells[i].width {
            Some(w) => w.column_advance(),
            None => 0,
        };
        total = total + adv as u32;
        i = i + 1;
        if total > 65535 {
            return false;
        }
    }
    assert(cells@.take(i as int) =~= cells@);
    true
}

/// Laying out a row keeps its text: the segments, one after the other, show
/// exactly the text of the row's cells, in order.
pub proof fn law_layout_keeps_row_text(
    cells: Seq<RenderCell>,
    foreground: RgbColor,
    background: RgbColor,
)
    ensures
        segments_text(row_layout(cells, foreground, background)) == row_text(
            cells,
            foreground,
            background,
        ),
    decreases cells.len(),
{
    if cells.len() == 0 {
        assert(row_layout(cells, foreground, background) =~= Seq::<SegmentView>::empty());
    } else {
        law_layout_keeps_row_text(cells.drop_last(), foreground, background);
        let (segs, pending, col) = row_fold(cells.drop_last(), foreground, background);
        match cell_piece(cells.last(), foreground, background) {
            Some(piece) => {
                law_push_keeps_text(segs, pending, col as u16, piece.0, piece.1, piece.2);
            },
            None => {},
        }
    }
}

/// Whether some cell of the row adds text in the style `style`.
pub open spec fn style_of_some_cell(
    cells: Seq<RenderCell>,
    foreground: RgbColor,
    background: RgbColor,
    style: RowTextStyle,
) -> bool {
    exists|i: int|
        0 <= i < cells.len() && #[trigger] piece_style(cells[i], foreground, background) == Some(style)
}

/// The style a cell adds its text in, if it adds any.
pub open spec fn piece_style(cell: RenderCell, foreground: RgbColor, background: RgbColor) -> Option<
    RowTextStyle,
> {
    match cell_piece(cell, foreground, background) {
        Some(p) => Some(p.1),
        None => None,
    }
}

/// Every segment of a row is drawn in the style of one of the row's cells:
/// laying out adds no style of its own and loses none of a cell's
/// attributes.
pub proof fn law_segments_take_cell_styles(
    cells: Seq<RenderCell>,
    foreground: RgbColor,
    background: RgbColor,
)
    ensures
        forall|k: int|
            0 <= k < row_layout(cells, foreground, background).len() ==> style_of_some_cell(
                cells,
                foreground,
                background,
                (#[trigger] row_layout(cells, foreground, background)[k]).3,
            ),
    decreases cells.len(),
{
    if cells.len() > 0 {
        let prev_cells = cells.drop_last();
        law_segments_take_cell_styles(prev_cells, foreground, background);
        let (segs, pending, col) = row_fold(prev_cells, foreground, background);
        let before = segs + pending_seq(pending);
        assert(before == row_layout(prev_cells, foreground, background));
        let after = row_layout(cells, foreground, background);
        let last = cells.len() - 1;
        assert forall|k: int| 0 <= k < before.len() implies style_of_some_cell(
            cells,
            foreground,
            background,
            before[k].3,
        ) by {
            assert(style_of_some_cell(prev_cells, foreground, background, before[k].3));
            let i = choose|i: int|
                0 <= i < prev_cells.len() && #[trigger] piece_style(prev_cells[i], foreground, background)
                    == Some(before[k].3);
            assert(cells[i] == prev_cells[i]);
        }
        match cell_piece(cells.last(), foreground, background) {
            Some(piece) => {
                assert(cells[last] == cells.last());
                assert(piece_style(cells[last], foreground, background) == Some(piece.1));
                assert(style_of_some_cell(cells, foreground, background, piece.1));
                let (s2, p2) = push_step(segs, pending, col as u16, piece.0, piece.1, piece.2);
                assert(after == s2 + pending_seq(p2));
                if piece.2.len() == 0 {
                } else if needs_own_layout(piece.2, piece.0) {
                    assert(after =~= before.push((col as u16, piece.0, piece.2, piece.1)));
                } else if extends(pending, piece.1, col as u16) {
                    let q = pending->0;
                    assert(before =~= segs.push(q));
                    assert(after =~= segs.push((q.0, (q.1 + piece.0) as u16, q.2 + piece.2, q.3)));
                    assert forall|k: int| 0 <= k < after.len() implies style_of_some_cell(
                        cells,
                        foreground,
                        background,
                        (#[trigger] after[k]).3,
                    ) by {
                        assert(after[k].3 == before[k].3);
                    }
                } else {
                    assert(after =~= before.push((col as u16, piece.0, piece.2, piece.1)));
                }
            },
            None => {
                assert(after == before);
            },
        }
    }
}

/// A cell of known width, text length and style, and no spacer, adds its
/// text in its own style: its foreground (else the default), its attributes
/// as they are, a background where it has one or is drawn inverse; it spans
/// its columns, one at least, and shows its text, or blanks when it has none.
pub proof fn law_styled_cell_piece(cell: RenderCell, foreground: RgbColor, background: RgbColor)
    requires
        cell.width is Some,
        !(cell.width->0 is SpacerTail || cell.width->0 is SpacerHead),
        cell.graphemes_len is Some,
        cell.style is Some,
    ensures
        ({
            let st = cell.style->0;
            let adv = advance_of(cell.width->0);
            let p = cell_piece(cell, foreground, background);
            let q = p->0;
            &&& p is Some
            &&& q.0 == (if adv > 0 { adv } else { 1 })
            &&& q.1.bold == st.bold
            &&& q.1.italic == st.italic
            &&& q.1.underline == st.underline
            &&& q.1.strikethrough == st.strikethrough
            &&& q.1.fg == (if cell.fg is Some { cell.fg->0 } else { foreground })
            &&& q.1.default_bg == background
            &&& q.1.bg == (if cell.bg is Some {
                Some(cell.bg->0)
            } else if st.inverse {
                Some(background)
            } else {
                None
            })
            &&& (cell.graphemes_len->0 > 0 && cell.graphemes is Some) ==> q.2 == cell.graphemes->0@
        }),
{
}

/// A spacer adds nothing to its row; a cell whose text length is unknown
/// adds blanks in the default colors, without attributes, over the columns
/// it advances.
pub proof fn law_plain_cell_piece(cell: RenderCell, foreground: RgbColor, background: RgbColor)
    requires
        cell.width is Some,
    ensures
        (cell.width->0 is SpacerTail || cell.width->0 is SpacerHead) ==> cell_piece(cell, foreground, background) is None,
        cell.graphemes_len is None && advance_of(cell.width->0) > 0 ==> cell_piece(cell, foreground, background)
            == Some(
            (
                advance_of(cell.width->0),
                (RowTextStyle {
                    fg: foreground,
                    bg: None,
                    default_bg: background,
                    bold: false,
                    italic: false,
                    underline: Underline::Off,
                    strikethrough: false,
                }),
                Seq::new(advance_of(cell.width->0) as nat, |_i: int| ' '),
            ),
        ),
{
}

/// What a cell adds to its row, computed.
fn piece_of(cell: &RenderCell, foreground: RgbColor, background: RgbColor) -> (r: Option<
    (u16, RowTextStyle, String),
>)
    ensures
        match (r, cell_piece(*cell, foreground, background)) {
            (Some(x), Some(y)) => x.0 == y.0 && x.1 == y.1 && x.2@ == y.2,
            (None, None) => true,
            _ => false,
        },
        r matches Some(x) ==> x.0 == cell_advance(*cell),
{
    let w = match cell.width {
        Some(w) => w,
        None => {
            return None;
        },
    };
    let adv = w.column_advance();
    let span: u16 = if adv > 0 {
        adv
    } else {
        1
    };
    let n = match cell.graphemes_len {
        Some(n) => n,
        None => {
            if adv > 0 {
                let style = RowTextStyle {
                    fg: foreground,
                    bg: None,
                    default_bg: background,
                    bold: false,
                    italic: false,
                    underline: Underline::Off,
                    strikethrough: false,
                };
                return Some((adv, style, spaces(adv)));
            }
            return None;
        },
    };
    match w {
        CellWidth::SpacerTail | CellWidth::SpacerHead => {
            return None;
        },
        _ => {},
    }
    let fg = match cell.fg {
        Some(c) => c,
        None => foreground,
    };
    let st = match cell.style {
        Some(st) => st,
        None => {
            let style = RowTextStyle {
                fg,
                bg: cell.bg,
                default_bg: background,
                bold: false,
                italic: false,
                underline: Underline::Off,
                strikethrough: false,
            };
            return Some((span, style, spaces(span)));
        },
    };
    let bg_color = match cell.bg {
        Some(c) => c,
        None => background,
    };
    let text = if n == 0 {
        spaces(span)
    } else {
        match &cell.graphemes {
            Some(g) => string_from_chars(g),
            None => spaces(span),
        }
    };
    let has_bg = match cell.bg {
        Some(_) => true,
        None => st.inverse,
    };
    let style = RowTextStyle {
        fg,
        bg: if has_bg {
            Some(bg_color)
        } else {
            None
        },
        default_bg: background,
        bold: st.bold,
        italic: st.italic,
        underline: st.underline,
        strikethrough: st.strikethrough,
    };
    Some((span, style, text))
}

/// Lays out a row of cells in segments: the row's text in the order of its
/// cells, each segment at the column where its first cell stands.
pub fn row_segments(cells: &Vec<RenderCell>, foreground: RgbColor, background: RgbColor) -> (r:
    Vec<RowSegment>)
    requires
        row_width(cells@) <= u16::MAX,
    ensures
        segs_view(r@) == row_layout(cells@, foreground, background),
        segments_text(segs_view(r@)) == row_text(cells@, foreground, background),
{
    proof {
        law_layout_keeps_row_text(cells@, foreground, background);
        lemma_row_fold_col_is_width(cells@, foreground, background);
    }
    let mut segments: Vec<RowSegment> = Vec::new();
    let mut pending: Option<RowSegment> = None;
    let mut col_idx: u16 = 0;
    let mut i: usize = 0;
    while i < cells.len()
        invariant
            i <= cells@.len(),
            row_fold(cells@, foreground, background).2 <= u16::MAX,
            ({
                let (segs, p, col) = row_fold(cells@.take(i as int), foreground, background);
                &&& segs_view(segments@) == segs
                &&& opt_view(pending) == p
                &&& col_idx == col
            }),
            pending_fits(opt_view(pending)),
        decreases cells@.len() - i,
    {
        proof {
            assert(cells@.take(i as int + 1).drop_last() =~= cells@.take(i as int));
            lemma_row_fold_col(cells@, foreground, background, i as int + 1);
        }
        let cell = &cells[i];
        let start_col = col_idx;
        let adv = match cell.width {
            Some(w) => w.column_advance(),
            None => 0,
        };
        let piece = piece_of(cell, foreground, background);
        match piece {
            Some((span, style, text)) => {
                push_row_segment(&mut segments, &mut pending, start_col, span, style, text);
            },
            None => {},
        }
        col_idx = col_idx + adv;
        i = i + 1;
    }
    assert(cells@.take(i as int) =~= cells@);
    let ghost segs0 = segs_view(segments@);
    match pending {
        Some(seg) => {
            segments.push(seg);
        },
        None => {},
    }
    assert(segs_view(segments@) =~= segs0 + pending_seq(opt_view(pending)));
    segments
}

} // verus!
