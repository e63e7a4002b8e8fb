//! What to paint in each cell of the visible part of the grid.

use alacritty_terminal::term::Term;
use vstd::prelude::*;

use crate::backend::RenderableContent;
use crate::geometry::{Point, SearchMatch};
use crate::highlight::{HighlightKind, Highlights};
use crate::mode::APP_CURSOR;
use crate::terminal::{
    cell, columns, screen_lines, term_model, CellText, EventProxy, TermModel, WIDE_CHAR,
    WIDE_CHAR_SPACER,
};

verus! {

/// The cell is drawn with its colours exchanged.
pub const INVERSE: u16 = 0x1;

/// The bits of which any makes a cell dim: dim text, and dim bold text.
pub const DIMMED: u16 = 0x82;

/// A colour by its red, green and blue parts.
#[derive(Clone, Copy, Debug, PartialEq, Eq, Structural)]
pub struct Rgb {
    pub r: u8,
    pub g: u8,
    pub b: u8,
}

/// The background of a highlighted cell.
pub open spec fn background_of(kind: HighlightKind) -> Option<Rgb> {
    match kind {
        HighlightKind::Current => Some(Rgb { r: 255, g: 150, b: 50 }),
        HighlightKind::Match => Some(Rgb { r: 180, g: 160, b: 60 }),
        HighlightKind::Plain => None,
    }
}

/// Tells the background of a highlighted cell: orange for the current match,
/// yellow for the others. The text on both is black.
pub fn highlight_background(kind: HighlightKind) -> (colour: Option<Rgb>)
    ensures
        colour == background_of(kind),
{
    match kind {
        HighlightKind::Current => Some(Rgb { r: 255, g: 150, b: 50 }),
        HighlightKind::Match => Some(Rgb { r: 180, g: 160, b: 60 }),
        HighlightKind::Plain => None,
    }
}

/// The border round the current match.
pub fn border_colour() -> (colour: Rgb)
    ensures
        colour == (Rgb { r: 255, g: 180, b: 50 }),
{
    Rgb { r: 255, g: 180, b: 50 }
}

/// The columns of the grid that show: from `min` to `max`. The first of them is
/// painted at the left edge.
#[derive(Clone, Copy, Debug, PartialEq, Eq, Structural)]
pub struct ColumnBand {
    pub min: i32,
    pub max: i32,
}

impl ColumnBand {
    /// The band can be worked out in 32 bits.
    pub open spec fn fits(offset: usize, shown: i32) -> bool {
        i32::MIN <= (offset as i32) + shown <= i32::MAX
    }

    pub open spec fn of(offset: usize, shown: i32) -> ColumnBand {
        ColumnBand { min: offset as i32, max: ((offset as i32) + shown) as i32 }
    }

    /// Decides [`ColumnBand::fits`].
    pub fn can_show(offset: usize, shown: i32) -> (b: bool)
        ensures
            b == ColumnBand::fits(offset, shown),
    {
        let first: i32 = offset as i32;
        let max: i64 = first as i64 + shown as i64;
        i32::MIN as i64 <= max && max <= i32::MAX as i64
    }

    /// The band of `shown` columns behind the first `offset`.
    pub fn new(offset: usize, shown: i32) -> (band: ColumnBand)
        requires
            ColumnBand::fits(offset, shown),
        ensures
            band == ColumnBand::of(offset, shown),
    {
        let min: i32 = offset as i32;
        ColumnBand { min, max: min + shown }
    }

    /// The first column to paint.
    pub open spec fn first(self) -> int {
        if self.min < 0 {
            0
        } else {
            self.min as int
        }
    }

    /// The column behind the last one to paint on a grid of so many columns.
    pub open spec fn end(self, columns: int) -> int {
        let end = if self.max < 0 {
            0
        } else {
            self.max as int
        };
        if end < columns {
            end
        } else {
            columns
        }
    }

    /// Where a search for matches in the band begins.
    pub open spec fn scan_min(self) -> usize {
        self.first() as usize
    }

    /// Where a search for matches in the band ends.
    pub open spec fn scan_max(self) -> usize {
        if self.max > self.min {
            self.max as usize
        } else {
            self.min as usize
        }
    }

    /// Builds [`ColumnBand::scan_min`].
    pub fn scan_from(&self) -> (column: usize)
        ensures
            column == self.scan_min(),
    {
        if self.min < 0 {
            0
        } else {
            self.min as usize
        }
    }

    /// Builds [`ColumnBand::scan_max`].
    pub fn scan_to(&self) -> (column: usize)
        ensures
            column == self.scan_max(),
    {
        if self.max > self.min {
            self.max as usize
        } else {
            self.min as usize
        }
    }

    /// The match shows in the band, as far as its ends tell: one that goes over
    /// several lines always may.
    pub open spec fn touched_by(self, found: SearchMatch) -> bool {
        ||| (found.end.column as i32) >= self.min && (found.start.column as i32) <= self.max
        ||| found.start.line != found.end.line
    }

    /// Decides [`ColumnBand::touched_by`].
    pub fn is_touched_by(&self, found: &SearchMatch) -> (b: bool)
        ensures
            b == self.touched_by(*found),
    {
        let start: i32 = found.start.column as i32;
        let end: i32 = found.end.column as i32;
        end >= self.min && start <= self.max || found.start.line != found.end.line
    }

    /// The matches that show in the band.
    pub open spec fn touching(self, found: Seq<SearchMatch>) -> Seq<SearchMatch>
        decreases found.len(),
    {
        if found.len() == 0 {
            Seq::empty()
        } else if self.touched_by(found.last()) {
            self.touching(found.drop_last()).push(found.last())
        } else {
            self.touching(found.drop_last())
        }
    }

    /// Picks the matches that show in the band.
    pub fn keep_touching(&self, found: &Vec<SearchMatch>) -> (kept: Vec<SearchMatch>)
        ensures
            kept@ == self.touching(found@),
            forall|i: int| 0 <= i < kept@.len() ==> found@.contains(#[trigger] kept@[i]),
    {
        let mut kept: Vec<SearchMatch> = Vec::new();
        let mut i: usize = 0;
        while i < found.len()
            invariant
                i <= found@.len(),
                kept@ == self.touching(found@.take(i as int)),
                forall|j: int| 0 <= j < kept@.len() ==> found@.contains(#[trigger] kept@[j]),
            decreases found@.len() - i,
        {
            assert(found@.take(i + 1).drop_last() == found@.take(i as int));
            if self.is_touched_by(&found[i]) {
                kept.push(found[i]);
            }
            i = i + 1;
        }
        assert(found@.take(i as int) == found@);
        kept
    }
}

/// What to paint for a cell.
#[derive(Clone, Copy, Debug, PartialEq, Eq, Structural)]
pub struct CellPaint {
    pub point: Point,
    /// The row of the viewport, counted from its top.
    pub row: i32,
    /// The columns between the left edge and the cell.
    pub shift: i32,
    /// The cell is two columns wide.
    pub wide: bool,
    /// The text is dimmed.
    pub dim: bool,
    /// The colours of text and background are exchanged.
    pub swapped: bool,
    pub highlight: HighlightKind,
    /// The cell belongs to the link under the pointer.
    pub underlined: bool,
    /// The cursor is drawn here.
    pub cursor: bool,
    /// The character, unless there is nothing to see of it.
    pub glyph: Option<char>,
    /// The colours are exchanged once more for the character.
    pub glyph_swapped: bool,
}

/// What the painting of cells goes by, besides the terminal.
pub struct PaintOptions {
    pub band: ColumnBand,
    pub hide_cursor: bool,
    /// The cell under the pointer.
    pub pointer: Point,
}

/// What to paint for a cell with the given text.
pub open spec fn paint_of(
    content: RenderableContent,
    highlights: Highlights,
    options: PaintOptions,
    text: CellText,
    row: int,
    column: int,
) -> CellPaint {
    let point = Point { line: (row - content.display_offset) as i32, column: column as usize };
    let cursor = content.cursor_point == point && !options.hide_cursor;
    let glyph = text.c != ' ' && text.c != '\t';
    CellPaint {
        point,
        row: row as i32,
        shift: (column - options.band.min) as i32,
        wide: text.has(WIDE_CHAR),
        dim: text.has_any(DIMMED),
        swapped: text.has(INVERSE) || (content.selectable_range matches Some(range) && range.has(
            point,
        )),
        highlight: highlights.kind(point),
        underlined: content.hovered_hyperlink matches Some(link) && link.has(point) && link.has(
            options.pointer,
        ),
        cursor,
        glyph: if glyph {
            Some(text.c)
        } else {
            None
        },
        glyph_swapped: glyph && cursor && content.terminal_mode.has(APP_CURSOR),
    }
}

/// Builds [`paint_of`].
fn paint_cell(
    content: &RenderableContent,
    highlights: &Highlights,
    options: &PaintOptions,
    text: CellText,
    row: i32,
    column: usize,
) -> (paint: CellPaint)
    requires
        0 <= row,
        content.display_offset <= i32::MAX,
        column <= i32::MAX,
        i32::MIN <= column - options.band.min <= i32::MAX,
    ensures
        paint == paint_of(*content, *highlights, *options, text, row as int, column as int),
{
    let point = Point { line: row - content.display_offset as i32, column };
    let selected = match &content.selectable_range {
        Some(range) => range.contains(&point),
        None => false,
    };
    let underlined = match &content.hovered_hyperlink {
        Some(link) => link.contains(&point) && link.contains(&options.pointer),
        None => false,
    };
    let at_cursor = content.cursor_point.line == point.line && content.cursor_point.column
        == point.column;
    let cursor = at_cursor && !options.hide_cursor;
    let glyph = text.c != ' ' && text.c != '\t';
    CellPaint {
        point,
        row,
        shift: column as i32 - options.band.min,
        wide: text.contains(WIDE_CHAR),
        dim: text.intersects(DIMMED),
        swapped: text.contains(INVERSE) || selected,
        highlight: highlights.kind_at(point),
        underlined,
        cursor,
        glyph: if glyph {
            Some(text.c)
        } else {
            None
        },
        glyph_swapped: glyph && cursor && content.terminal_mode.contains(APP_CURSOR),
    }
}

/// What to paint in a row of the viewport, from column `from` up to, but
/// without, column `to`. The second halves of wide characters are left out.
pub open spec fn row_paints(
    model: TermModel,
    content: RenderableContent,
    highlights: Highlights,
    options: PaintOptions,
    row: int,
    from: int,
    to: int,
) -> Seq<CellPaint>
    decreases to - from,
{
    if from >= to {
        Seq::empty()
    } else {
        let before = row_paints(model, content, highlights, options, row, from, to - 1);
        let text = model.cell(row - content.display_offset, to - 1);
        if text.has(WIDE_CHAR_SPACER) {
            before
        } else {
            before.push(paint_of(content, highlights, options, text, row, to - 1))
        }
    }
}

/// What to paint in the first `rows` rows of the viewport.
pub open spec fn rows_paints(
    model: TermModel,
    content: RenderableContent,
    highlights: Highlights,
    options: PaintOptions,
    rows: int,
) -> Seq<CellPaint>
    decreases rows,
{
    if rows <= 0 {
        Seq::empty()
    } else {
        rows_paints(model, content, highlights, options, rows - 1) + row_paints(
            model,
            content,
            highlights,
            options,
            rows - 1,
            options.band.first(),
            options.band.end(model.columns as int),
        )
    }
}

/// The cells of the band on the rows of the viewport can be addressed and
/// shifted in the machine's integers, and lie in the grid.
pub open spec fn paints(model: TermModel, content: RenderableContent, band: ColumnBand) -> bool {
    &&& model.wf()
    &&& content.display_offset <= model.history()
    &&& band.end(model.columns as int) - band.min <= i32::MAX
}

/// Works out what to paint in each cell of the band, row by row.
pub fn paint_cells(
    term: &Term<EventProxy>,
    content: &RenderableContent,
    highlights: &Highlights,
    options: &PaintOptions,
) -> (paints: Vec<CellPaint>)
    requires
        self::paints(term_model(*term), *content, options.band),
    ensures
        paints@ == rows_paints(
            term_model(*term),
            *content,
            *highlights,
            *options,
            term_model(*term).screen_lines as int,
        ),
{
    let ghost model = term_model(*term);
    let rows: i32 = screen_lines(term) as i32;
    let columns: usize = columns(term);
    let first: usize = options.band.scan_from();
    let wanted: i32 = options.band.max;
    let end: usize = if wanted < 0 {
        0
    } else if (wanted as usize) < columns {
        wanted as usize
    } else {
        columns
    };
    let mut paints: Vec<CellPaint> = Vec::new();
    let mut row: i32 = 0;
    while row < rows
        invariant
            model == term_model(*term),
            self::paints(model, *content, options.band),
            rows == model.screen_lines,
            0 <= row <= rows,
            first == options.band.first(),
            end == options.band.end(model.columns as int),
            end <= i32::MAX,
            paints@ == rows_paints(model, *content, *highlights, *options, row as int),
        decreases rows - row,
    {
        let ghost before = paints@;
        let line: i32 = row - content.display_offset as i32;
        let mut column: usize = first;
        while column < end
            invariant
                model == term_model(*term),
                self::paints(model, *content, options.band),
                rows == model.screen_lines,
                0 <= row < rows,
                line == row - content.display_offset,
                first == options.band.first(),
                end == options.band.end(model.columns as int),
                end <= i32::MAX,
                first <= column,
                first <= end ==> column <= end,
                first > end ==> column == first,
                paints@ == before + row_paints(
                    model,
                    *content,
                    *highlights,
                    *options,
                    row as int,
                    first as int,
                    column as int,
                ),
            decreases end - column,
        {
            let text = cell(term, line, column);
            if !text.contains(WIDE_CHAR_SPACER) {
                paints.push(paint_cell(content, highlights, options, text, row, column));
            }
            column = column + 1;
        }
        assert(row_paints(
            model,
            *content,
            *highlights,
            *options,
            row as int,
            first as int,
            column as int,
        ) == row_paints(
            model,
            *content,
            *highlights,
            *options,
            row as int,
            options.band.first(),
            options.band.end(model.columns as int),
        ));
        row = row + 1;
    }
    paints
}

/// A piece of the border round a match: a row of the viewport, and the columns
/// between the left edge and the two ends of the piece.
#[derive(Clone, Copy, Debug, PartialEq, Eq, Structural)]
pub struct BorderRow {
    pub row: i32,
    pub from: i32,
    pub to: i32,
}

/// The piece of the border on a line of the match.
pub open spec fn border_of(
    found: SearchMatch,
    columns: usize,
    display_offset: usize,
    band: ColumnBand,
    line: int,
) -> BorderRow {
    let from = if line == found.start.line {
        found.start.column
    } else {
        0
    };
    let to = if line == found.end.line {
        found.end.column + 1
    } else {
        columns as int
    };
    BorderRow {
        row: (line + display_offset) as i32,
        from: (from - band.min) as i32,
        to: (to - band.min) as i32,
    }
}

/// The border of a match on such a grid can be worked out in 32 bits.
pub open spec fn borders(
    found: SearchMatch,
    columns: usize,
    display_offset: usize,
    band: ColumnBand,
) -> bool {
    &&& columns <= i32::MAX
    &&& columns - band.min <= i32::MAX
    &&& found.start.column < columns
    &&& found.end.column < columns
    &&& found.end.line + display_offset <= i32::MAX
}

/// The pieces of the border round a match, one for each of its lines.
pub fn border_rows(
    found: &SearchMatch,
    columns: usize,
    display_offset: usize,
    band: &ColumnBand,
) -> (rows: Vec<BorderRow>)
    requires
        borders(*found, columns, display_offset, *band),
    ensures
        rows@.len() == (if found.start.line <= found.end.line {
            found.end.line - found.start.line + 1
        } else {
            0
        }),
        forall|i: int|
            0 <= i < rows@.len() ==> #[trigger] rows@[i] == border_of(
                *found,
                columns,
                display_offset,
                *band,
                found.start.line + i,
            ),
{
    let mut rows: Vec<BorderRow> = Vec::new();
    let mut line: i64 = found.start.line as i64;
    while line <= found.end.line as i64
        invariant
            borders(*found, columns, display_offset, *band),
            found.start.line <= line,
            found.start.line <= found.end.line ==> line <= found.end.line + 1,
            found.start.line > found.end.line ==> line == found.start.line,
            rows@.len() == line - found.start.line,
            forall|i: int|
                0 <= i < rows@.len() ==> #[trigger] rows@[i] == border_of(
                    *found,
                    columns,
                    display_offset,
                    *band,
                    found.start.line + i,
                ),
        decreases found.end.line - line + 1,
    {
        let from: i32 = if line == found.start.line as i64 {
            found.start.column as i32
        } else {
            0
        };
        let to: i32 = if line == found.end.line as i64 {
            found.end.column as i32 + 1
        } else {
            columns as i32
        };
        rows.push(
            BorderRow {
                row: (line + display_offset as i64) as i32,
                from: from - band.min,
                to: to - band.min,
            },
        );
        line = line + 1;
    }
    rows
}

} // verus!
