//! What holds of the cells that are painted and of the highlights on them.

use alacritty_terminal::term::Term;
use vstd::prelude::*;

use crate::backend::RenderableContent;
use crate::geometry::{Point, SearchMatch};
use crate::highlight::{
    closest_at, expand_match_into_cells, match_cells, pick_current, score_of, CellSet,
    HighlightKind, Highlights,
};
use crate::paint::{
    border_colour, border_rows, highlight_background, paint_cells, row_paints, rows_paints,
    BorderRow, CellPaint, ColumnBand, PaintOptions, Rgb,
};
use crate::search_laws::no_later;
use crate::terminal::{term_model, EventProxy, TermModel};

verus! {

/// The point is selected: it lies between the ends of a selection of running text,
/// as cells are read, or in the rectangle of a block.
pub open spec fn is_selected(content: RenderableContent, point: Point) -> bool {
    match content.selectable_range {
        Some(range) => if range.is_block {
            range.start.line <= point.line <= range.end.line && range.start.column <= point.column
                <= range.end.column
        } else {
            no_later(range.start, point) && no_later(point, range.end)
        },
        None => false,
    }
}

/// The point belongs to the link that the pointer is on.
pub open spec fn is_hovered(content: RenderableContent, pointer: Point, point: Point) -> bool {
    match content.hovered_hyperlink {
        Some(link) => no_later(link.start, point) && no_later(point, link.end) && no_later(
            link.start,
            pointer,
        ) && no_later(pointer, link.end),
        None => false,
    }
}

/// How a cell of a row and a column of the viewport looks.
pub open spec fn looks_right(
    model: TermModel,
    content: RenderableContent,
    highlights: Highlights,
    options: PaintOptions,
    row: int,
    column: int,
    paint: CellPaint,
) -> bool {
    let point = Point { line: (row - content.display_offset) as i32, column: column as usize };
    let cell = model.cells[(row - content.display_offset, column)];
    let at_cursor = content.cursor_point.line == row - content.display_offset
        && content.cursor_point.column == column && !options.hide_cursor;
    &&& paint.point == point
    &&& paint.row == row
    &&& paint.shift == column - options.band.min
    &&& paint.wide == (cell.flags & 0x20 == 0x20)
    &&& paint.dim == (cell.flags & 0x82 != 0)
    &&& paint.swapped == (cell.flags & 0x1 == 0x1 || is_selected(content, point))
    &&& paint.highlight is Current <==> highlights.current_cells@.contains(point)
    &&& paint.highlight is Match <==> highlights.match_cells@.contains(point)
        && !highlights.current_cells@.contains(point)
    &&& paint.underlined == is_hovered(content, options.pointer, point)
    &&& paint.cursor == at_cursor
    &&& paint.glyph == (if cell.c == ' ' || cell.c == '\t' {
        None
    } else {
        Some(cell.c)
    })
    &&& paint.glyph_swapped == (cell.c != ' ' && cell.c != '\t' && at_cursor
        && content.terminal_mode.bits & 0x2 == 0x2)
}

/// The column is painted.
pub open spec fn in_band(options: PaintOptions, columns: int, column: int) -> bool {
    0 <= column < columns && options.band.min <= column < options.band.max
}

/// The first of two cells is painted before the second.
pub open spec fn painted_before(a: CellPaint, b: CellPaint) -> bool {
    a.row < b.row || a.row == b.row && a.point.column < b.point.column
}

proof fn lemma_row_looks_right(
    model: TermModel,
    content: RenderableContent,
    highlights: Highlights,
    options: PaintOptions,
    row: int,
    from: int,
    to: int,
)
    requires
        model.wf(),
        content.display_offset <= model.history(),
        0 <= row < model.screen_lines,
        0 <= from,
        to <= model.columns,
        to - options.band.min <= i32::MAX,
        options.band.min <= from,
    ensures
        ({
            let paints = row_paints(model, content, highlights, options, row, from, to);
            &&& forall|i: int|
                0 <= i < paints.len() ==> {
                    let paint = #[trigger] paints[i];
                    &&& from <= paint.point.column < to
                    &&& looks_right(
                        model,
                        content,
                        highlights,
                        options,
                        row,
                        paint.point.column as int,
                        paint,
                    )
                    &&& model.cells[(
                        row - content.display_offset,
                        paint.point.column as int,
                    )].flags & 0x40 != 0x40
                }
            &&& forall|i: int, j: int|
                0 <= i < j < paints.len() ==> painted_before(
                    #[trigger] paints[i],
                    #[trigger] paints[j],
                )
            &&& forall|column: int|
                from <= column < to && #[trigger] model.cells[(
                    row - content.display_offset,
                    column,
                )].flags & 0x40 != 0x40 ==> exists|i: int|
                    0 <= i < paints.len() && (#[trigger] paints[i]).point.column == column
        }),
    decreases to - from,
{
    if from < to {
        lemma_row_looks_right(model, content, highlights, options, row, from, to - 1);
        let before = row_paints(model, content, highlights, options, row, from, to - 1);
        let paints = row_paints(model, content, highlights, options, row, from, to);
        assert forall|i: int| 0 <= i < paints.len() implies {
            let paint = #[trigger] paints[i];
            &&& from <= paint.point.column < to
            &&& looks_right(
                model,
                content,
                highlights,
                options,
                row,
                paint.point.column as int,
                paint,
            )
            &&& model.cells[(row - content.display_offset, paint.point.column as int)].flags & 0x40
                != 0x40
        } by {
            if i < before.len() {
                assert(paints[i] == before[i]);
            }
        }
        assert forall|i: int, j: int| 0 <= i < j < paints.len() implies painted_before(
            #[trigger] paints[i],
            #[trigger] paints[j],
        ) by {
            assert(paints[i] == before[i]);
            if j < before.len() {
                assert(paints[j] == before[j]);
            }
        }
        assert forall|column: int|
            from <= column < to && #[trigger] model.cells[(
                row - content.display_offset,
                column,
            )].flags & 0x40 != 0x40 implies exists|i: int|
            0 <= i < paints.len() && (#[trigger] paints[i]).point.column == column by {
            if column < to - 1 {
                let i = choose|i: int|
                    0 <= i < before.len() && (#[trigger] before[i]).point.column == column;
                assert(paints[i] == before[i]);
            } else {
                assert(paints[before.len() as int].point.column == column);
            }
        }
    }
}

proof fn lemma_rows_look_right(
    model: TermModel,
    content: RenderableContent,
    highlights: Highlights,
    options: PaintOptions,
    rows: int,
)
    requires
        model.wf(),
        content.display_offset <= model.history(),
        0 <= rows <= model.screen_lines,
        options.band.end(model.columns as int) - options.band.min <= i32::MAX,
    ensures
        ({
            let paints = rows_paints(model, content, highlights, options, rows);
            &&& forall|i: int|
                0 <= i < paints.len() ==> {
                    let paint = #[trigger] paints[i];
                    &&& 0 <= paint.row < rows
                    &&& in_band(options, model.columns as int, paint.point.column as int)
                    &&& looks_right(
                        model,
                        content,
                        highlights,
                        options,
                        paint.row as int,
                        paint.point.column as int,
                        paint,
                    )
                    &&& model.cells[(
                        paint.row - content.display_offset,
                        paint.point.column as int,
                    )].flags & 0x40 != 0x40
                }
            &&& forall|i: int, j: int|
                0 <= i < j < paints.len() ==> painted_before(
                    #[trigger] paints[i],
                    #[trigger] paints[j],
                )
            &&& forall|row: int, column: int|
                0 <= row < rows && in_band(options, model.columns as int, column)
                    && #[trigger] model.cells[(row - content.display_offset, column)].flags & 0x40
                    != 0x40 ==> exists|i: int|
                    0 <= i < paints.len() && (#[trigger] paints[i]).row == row
                        && paints[i].point.column == column
        }),
    decreases rows,
{
    if rows > 0 {
        let w = model.columns as int;
        lemma_rows_look_right(model, content, highlights, options, rows - 1);
        lemma_row_looks_right(
            model,
            content,
            highlights,
            options,
            rows - 1,
            options.band.first(),
            options.band.end(w),
        );
        let before = rows_paints(model, content, highlights, options, rows - 1);
        let row = row_paints(
            model,
            content,
            highlights,
            options,
            rows - 1,
            options.band.first(),
            options.band.end(w),
        );
        let paints = rows_paints(model, content, highlights, options, rows);
        assert(paints == before + row);
        assert forall|i: int| 0 <= i < paints.len() implies {
            let paint = #[trigger] paints[i];
            &&& 0 <= paint.row < rows
            &&& in_band(options, w, paint.point.column as int)
            &&& looks_right(
                model,
                content,
                highlights,
                options,
                paint.row as int,
                paint.point.column as int,
                paint,
            )
            &&& model.cells[(paint.row - content.display_offset, paint.point.column as int)].flags
                & 0x40 != 0x40
        } by {
            if i < before.len() {
                assert(paints[i] == before[i]);
            } else {
                assert(paints[i] == row[i - before.len()]);
            }
        }
        assert forall|i: int, j: int| 0 <= i < j < paints.len() implies painted_before(
            #[trigger] paints[i],
            #[trigger] paints[j],
        ) by {
            if j < before.len() {
                assert(paints[i] == before[i] && paints[j] == before[j]);
            } else if i >= before.len() {
                assert(paints[i] == row[i - before.len()] && paints[j] == row[j - before.len()]);
            } else {
                assert(paints[i] == before[i] && paints[j] == row[j - before.len()]);
            }
        }
        assert forall|r: int, column: int|
            0 <= r < rows && in_band(options, w, column) && #[trigger] model.cells[(
                r - content.display_offset,
                column,
            )].flags & 0x40 != 0x40 implies exists|i: int|
            0 <= i < paints.len() && (#[trigger] paints[i]).row == r && paints[i].point.column
                == column by {
            if r < rows - 1 {
                let i = choose|i: int|
                    0 <= i < before.len() && (#[trigger] before[i]).row == r
                        && before[i].point.column == column;
                assert(paints[i] == before[i]);
            } else {
                let i = choose|i: int|
                    0 <= i < row.len() && (#[trigger] row[i]).point.column == column;
                assert(paints[before.len() + i] == row[i]);
            }
        }
    }
}

/// Every cell that is painted looks as its text, the selection, the highlights, the
/// link under the pointer and the cursor ask for: its colours are exchanged if, and
/// only if, it is marked as inverse or its point is selected, on every line of the
/// selection and whatever its column.
pub proof fn law_every_cell_looks_right(
    term: &Term<EventProxy>,
    content: &RenderableContent,
    highlights: &Highlights,
    options: &PaintOptions,
    paints: Vec<CellPaint>,
    i: int,
)
    requires
        term_model(*term).wf(),
        content.display_offset <= term_model(*term).total_lines - term_model(*term).screen_lines,
        term_model(*term).columns - options.band.min <= i32::MAX,
        call_ensures(paint_cells, (term, content, highlights, options), paints),
        0 <= i < paints@.len(),
    ensures
        ({
            let model = term_model(*term);
            let paint = paints@[i];
            &&& 0 <= paint.row < model.screen_lines
            &&& in_band(*options, model.columns as int, paint.point.column as int)
            &&& looks_right(
                model,
                *content,
                *highlights,
                *options,
                paint.row as int,
                paint.point.column as int,
                paint,
            )
            &&& model.cells[(
                paint.row - content.display_offset,
                paint.point.column as int,
            )].flags & 0x40 != 0x40
        }),
{
    let model = term_model(*term);
    lemma_rows_look_right(
        model,
        *content,
        *highlights,
        *options,
        model.screen_lines as int,
    );
}

/// Every cell of the band in the viewport is painted once, except the second halves
/// of wide characters, row by row and from left to right.
pub proof fn law_every_cell_is_painted_once(
    term: &Term<EventProxy>,
    content: &RenderableContent,
    highlights: &Highlights,
    options: &PaintOptions,
    paints: Vec<CellPaint>,
    row: int,
    column: int,
) -> (i: int)
    requires
        term_model(*term).wf(),
        content.display_offset <= term_model(*term).total_lines - term_model(*term).screen_lines,
        term_model(*term).columns - options.band.min <= i32::MAX,
        call_ensures(paint_cells, (term, content, highlights, options), paints),
        0 <= row < term_model(*term).screen_lines,
        in_band(*options, term_model(*term).columns as int, column),
        term_model(*term).cells[(row - content.display_offset, column)].flags & 0x40 != 0x40,
    ensures
        0 <= i < paints@.len(),
        paints@[i].row == row,
        paints@[i].point.column == column,
        forall|j: int| 0 <= j < i ==> painted_before(#[trigger] paints@[j], paints@[i]),
        forall|j: int|
            i < j < paints@.len() ==> painted_before(paints@[i], #[trigger] paints@[j]),
{
    let model = term_model(*term);
    lemma_rows_look_right(
        model,
        *content,
        *highlights,
        *options,
        model.screen_lines as int,
    );
    choose|i: int|
        0 <= i < paints@.len() && (#[trigger] paints@[i]).row == row && paints@[i].point.column
            == column
}

/// The band begins at the offset and has as many columns as show.
pub proof fn law_a_band_has_the_columns_that_show(offset: usize, shown: i32, band: ColumnBand)
    requires
        offset <= i32::MAX,
        offset + shown <= i32::MAX,
        call_ensures(ColumnBand::new, (offset, shown), band),
    ensures
        band.min == offset,
        band.max - band.min == shown,
{
}

/// A band can be shown if its last column can be counted in 32 bits.
pub proof fn law_bands_can_be_shown(offset: usize, shown: i32, b: bool)
    requires
        offset <= i32::MAX,
        call_ensures(ColumnBand::can_show, (offset, shown), b),
    ensures
        b == (offset + shown <= i32::MAX),
{
}

/// A band is searched from its first column in the grid to the column behind its
/// last; one without columns is searched where it begins.
pub proof fn law_a_band_is_searched_over_its_columns(band: &ColumnBand, from: usize, to: usize)
    requires
        call_ensures(ColumnBand::scan_from, (band,), from),
        call_ensures(ColumnBand::scan_to, (band,), to),
    ensures
        band.min >= 0 ==> from == band.min,
        band.min < 0 ==> from == 0,
        band.min < band.max && 0 <= band.max ==> to == band.max,
        band.max <= band.min && 0 <= band.min ==> to == band.min,
{
}

/// A match shows in a band if one of its columns does, or if it goes over several
/// lines.
pub proof fn law_a_match_shows_where_it_meets_the_band(
    band: &ColumnBand,
    found: &SearchMatch,
    shows: bool,
)
    requires
        found.start.column <= i32::MAX,
        found.end.column <= i32::MAX,
        call_ensures(ColumnBand::is_touched_by, (band, found), shows),
    ensures
        found.start.line != found.end.line ==> shows,
        found.start.line == found.end.line ==> shows == (found.start.column <= band.max
            && band.min <= found.end.column),
{
}

/// The matches that show in a band are kept, each in its place, and no others.
pub proof fn law_the_matches_in_a_band_are_kept(
    band: &ColumnBand,
    found: &Vec<SearchMatch>,
    kept: Vec<SearchMatch>,
)
    requires
        call_ensures(ColumnBand::keep_touching, (band, found), kept),
        forall|i: int|
            0 <= i < found@.len() ==> (#[trigger] found@[i]).start.column <= i32::MAX
                && found@[i].end.column <= i32::MAX,
    ensures
        kept@ == found@.filter(
            |m: SearchMatch|
                m.start.line != m.end.line || m.start.column <= band.max && band.min
                    <= m.end.column,
        ),
{
    lemma_kept(*band, found@);
}

proof fn lemma_kept(band: ColumnBand, found: Seq<SearchMatch>)
    requires
        forall|i: int|
            0 <= i < found.len() ==> (#[trigger] found[i]).start.column <= i32::MAX
                && found[i].end.column <= i32::MAX,
    ensures
        band.touching(found) == found.filter(
            |m: SearchMatch|
                m.start.line != m.end.line || m.start.column <= band.max && band.min
                    <= m.end.column,
        ),
    decreases found.len(),
{
    reveal(Seq::filter);
    if found.len() > 0 {
        let less = found.drop_last();
        assert forall|i: int| 0 <= i < less.len() implies (#[trigger] less[i]).start.column
            <= i32::MAX && less[i].end.column <= i32::MAX by {
            assert(less[i] == found[i]);
        }
        lemma_kept(band, less);
        assert(found.last() == found[found.len() - 1]);
    }
}

/// The border of a match goes round the cells that lie between its ends, on each of
/// its lines: a column is inside the border if, and only if, the cell belongs to the
/// match.
pub proof fn law_a_border_goes_round_the_match(
    found: &SearchMatch,
    columns: usize,
    display_offset: usize,
    band: &ColumnBand,
    rows: Vec<BorderRow>,
    i: int,
    column: int,
)
    requires
        call_ensures(border_rows, (found, columns, display_offset, band), rows),
        no_later(found.start, found.end),
        found.start.column < columns <= i32::MAX,
        found.end.column < columns,
        columns - band.min <= i32::MAX,
        found.end.line + display_offset <= i32::MAX,
        0 <= i <= found.end.line - found.start.line,
        0 <= column < columns,
    ensures
        rows@.len() == found.end.line - found.start.line + 1,
        rows@[i].row == found.start.line + i + display_offset,
        (rows@[i].from <= column - band.min < rows@[i].to) == ({
            let point = Point { line: (found.start.line + i) as i32, column: column as usize };
            no_later(found.start, point) && no_later(point, found.end)
        }),
{
}

/// Cells of the current match and cells of other matches have their colours; the
/// others have none.
pub proof fn law_highlights_have_their_colours(
    kind: HighlightKind,
    colour: Option<Rgb>,
    border: Rgb,
)
    requires
        call_ensures(highlight_background, (kind,), colour),
        call_ensures(border_colour, (), border),
    ensures
        kind is Current ==> colour == Some(Rgb { r: 255, g: 150, b: 50 }),
        kind is Match ==> colour == Some(Rgb { r: 180, g: 160, b: 60 }),
        kind is Plain ==> colour is None,
        border == (Rgb { r: 255, g: 180, b: 50 }),
{
}

/// A match adds the cells between its ends, as they are read, and no others.
pub proof fn law_a_match_marks_the_cells_between_its_ends(
    found: &SearchMatch,
    columns: usize,
    cells: &mut CellSet,
    point: Point,
)
    requires
        call_ensures(expand_match_into_cells, (found, columns, cells), ()),
        no_later(found.start, found.end),
        found.start.column < columns,
        found.end.column < columns,
    ensures
        final(cells)@.contains(point) == (old(cells)@.contains(point) || no_later(
            found.start,
            point,
        ) && no_later(point, found.end) && point.column < columns),
{
    assert(match_cells(*found, columns).contains(point) == (no_later(found.start, point)
        && no_later(point, found.end) && point.column < columns));
}

/// A set of cells holds what was put in.
pub proof fn law_cells_are_kept(cells: &mut CellSet, point: Point, other: Point)
    requires
        call_ensures(CellSet::insert, (cells, point), ()),
    ensures
        final(cells)@.contains(other) == (other == point || old(cells)@.contains(other)),
{
}

/// A set of cells tells what it holds.
pub proof fn law_cells_are_found_again(
    cells: &CellSet,
    point: Point,
    found: bool,
    empty: bool,
    fresh: CellSet,
)
    requires
        call_ensures(CellSet::contains, (cells, point), found),
        call_ensures(CellSet::is_empty, (cells,), empty),
        call_ensures(CellSet::new, (), fresh),
    ensures
        found == cells@.contains(point),
        found ==> !empty,
        (forall|p: Point| !cells@.contains(p)) ==> empty,
        !fresh@.contains(point),
{
    if forall|p: Point| !cells@.contains(p) {
        assert(cells@ =~= Set::empty());
    }
}

/// A cell is highlighted as the current match if it lies in that, as another match
/// if it lies in one of the others, and else not.
pub proof fn law_the_highlights_are_the_cells_of_the_matches(
    found: &Vec<SearchMatch>,
    current: Option<usize>,
    columns: usize,
    highlights: &Highlights,
    point: Point,
    kind: HighlightKind,
    i: int,
)
    requires
        call_ensures(Highlights::of, (found, current, columns), *highlights),
        call_ensures(Highlights::kind_at, (highlights, point), kind),
        current is Some ==> current->0 < found@.len(),
        forall|j: int|
            0 <= j < found@.len() ==> no_later((#[trigger] found@[j]).start, found@[j].end)
                && found@[j].start.column < columns && found@[j].end.column < columns,
        0 <= i < found@.len(),
        no_later(found@[i].start, point),
        no_later(point, found@[i].end),
        point.column < columns,
    ensures
        !(kind is Plain),
        current is Some && current->0 == i ==> kind is Current,
        kind is Current ==> current is Some && no_later(found@[current->0 as int].start, point)
            && no_later(point, found@[current->0 as int].end),
        highlights.current == (match current {
            Some(j) => Some(found@[j as int]),
            None => None,
        }),
{
    assert(match_cells(found@[i], columns).contains(point));
    if current is Some {
        assert(match_cells(found@[current->0 as int], columns).contains(point) == (no_later(
            found@[current->0 as int].start,
            point,
        ) && no_later(point, found@[current->0 as int].end)));
    }
}

/// A cell that lies in no match is not highlighted.
pub proof fn law_other_cells_are_not_highlighted(
    found: &Vec<SearchMatch>,
    current: Option<usize>,
    columns: usize,
    highlights: &Highlights,
    point: Point,
    kind: HighlightKind,
)
    requires
        call_ensures(Highlights::of, (found, current, columns), *highlights),
        call_ensures(Highlights::kind_at, (highlights, point), kind),
        current is Some ==> current->0 < found@.len(),
        forall|j: int|
            0 <= j < found@.len() ==> no_later((#[trigger] found@[j]).start, found@[j].end)
                && found@[j].start.column < columns && found@[j].end.column < columns,
        forall|j: int|
            0 <= j < found@.len() ==> !(no_later((#[trigger] found@[j]).start, point) && no_later(
                point,
                found@[j].end,
            )),
    ensures
        kind is Plain,
{
    assert forall|j: int| 0 <= j < found@.len() implies !match_cells(
        #[trigger] found@[j],
        columns,
    ).contains(point) by {}
}

/// There are highlights if, and only if, some cell is marked.
pub proof fn law_highlights_are_noticed(highlights: &Highlights, any: bool, point: Point)
    requires
        call_ensures(Highlights::any, (highlights,), any),
    ensures
        highlights.current_cells@.contains(point) ==> any,
        highlights.match_cells@.contains(point) ==> any,
        any ==> exists|p: Point| #[trigger]
            highlights.current_cells@.contains(p) || highlights.match_cells@.contains(p),
{
    if any {
        if forall|p: Point|
            !(#[trigger] highlights.current_cells@.contains(p)
                || highlights.match_cells@.contains(p)) {
            assert(highlights.current_cells@ =~= Set::empty());
            assert forall|p: Point| !highlights.match_cells@.contains(p) by {
                assert(!(highlights.current_cells@.contains(p) || highlights.match_cells@.contains(
                    p,
                )));
            }
            assert(highlights.match_cells@ =~= Set::empty());
        }
    }
}

/// How many lines two cells are apart.
pub open spec fn lines_apart(a: Point, b: Point) -> int {
    if a.line < b.line {
        b.line - a.line
    } else {
        a.line - b.line
    }
}

/// The current match begins in the column of the target, at most two hundred lines
/// from it. No match is nearer in lines, and none before it in the list as near.
pub proof fn law_the_current_match_is_the_nearest(
    found: &Vec<SearchMatch>,
    target: Point,
    current: Option<usize>,
    j: int,
)
    requires
        call_ensures(pick_current, (found, Some(target)), current),
        0 <= j < found@.len(),
        found@[j].start.column == target.column,
        target.column <= i32::MAX,
        current is Some,
    ensures
        ({
            let i = current->0 as int;
            &&& i < found@.len()
            &&& found@[i].start.column == target.column
            &&& lines_apart(found@[i].start, target) <= 200
            &&& lines_apart(found@[i].start, target) <= lines_apart(found@[j].start, target)
            &&& j < i ==> lines_apart(found@[i].start, target) < lines_apart(
                found@[j].start,
                target,
            )
        }),
{
    let i = current->0 as int;
    assert(score_of(found@[i].start, target) <= score_of(found@[j].start, target));
}

/// The distance that decides counts a line for a million columns.
pub proof fn law_lines_count_more_than_columns(
    found: &Vec<SearchMatch>,
    target: Point,
    current: Option<usize>,
    j: int,
)
    requires
        call_ensures(pick_current, (found, Some(target)), current),
        current is Some,
        0 <= j < found@.len(),
        target.column <= i32::MAX,
        found@[j].start.column <= i32::MAX,
    ensures
        ({
            let columns = if found@[j].start.column < target.column {
                target.column - found@[j].start.column
            } else {
                found@[j].start.column - target.column
            };
            1_000_000 * lines_apart(found@[current->0 as int].start, target) <= 1_000_000
                * lines_apart(found@[j].start, target) + columns
        }),
{
    let i = current->0 as int;
    assert(score_of(found@[i].start, target) <= score_of(found@[j].start, target));
}

/// How far two cells are apart, if a line counts for a million columns.
pub open spec fn distance(a: Point, b: Point) -> int {
    1_000_000 * lines_apart(a, b) + (if a.column < b.column {
        b.column - a.column
    } else {
        a.column - b.column
    })
}

/// The first of the matches that are nearest to the target is the current one, if it
/// begins in the target's column and at most two hundred lines off; else none is.
pub proof fn law_the_nearest_match_becomes_current(
    found: &Vec<SearchMatch>,
    target: Point,
    current: Option<usize>,
    i: int,
)
    requires
        call_ensures(pick_current, (found, Some(target)), current),
        target.column <= i32::MAX,
        forall|j: int| 0 <= j < found@.len() ==> (#[trigger] found@[j]).start.column <= i32::MAX,
        0 <= i < found@.len() <= usize::MAX,
        forall|j: int|
            0 <= j < found@.len() ==> distance(found@[i].start, target) <= distance(
                (#[trigger] found@[j]).start,
                target,
            ),
        forall|j: int|
            0 <= j < i ==> distance(found@[i].start, target) < distance(
                (#[trigger] found@[j]).start,
                target,
            ),
    ensures
        current == (if found@[i].start.column == target.column && lines_apart(
            found@[i].start,
            target,
        ) <= 200 {
            Some(i as usize)
        } else {
            None
        }),
{
    assert forall|j: int| 0 <= j < found@.len() implies score_of(
        (#[trigger] found@[j]).start,
        target,
    ) == distance(found@[j].start, target) by {}
    assert(closest_at(found@, target, i));
    if current is Some && current->0 != i {
        let k = current->0 as int;
        assert(closest_at(found@, target, k));
        assert(score_of(found@[i].start, target) == score_of(found@[k].start, target));
    }
}

/// Without a target, or without matches, there is no current match.
pub proof fn law_there_may_be_no_current_match(
    found: &Vec<SearchMatch>,
    target: Option<Point>,
    current: Option<usize>,
)
    requires
        call_ensures(pick_current, (found, target), current),
    ensures
        target is None ==> current is None,
        found@.len() == 0 ==> current is None,
{
}

} // verus!
