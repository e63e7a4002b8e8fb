//! What holds of searches.

use alacritty_terminal::term::search::RegexSearch;
use alacritty_terminal::term::Term;
use vstd::prelude::*;

use crate::backend::TerminalBackend;
use crate::geometry::{Point, SearchMatch, SelectionRange};
use crate::laws::{
    in_order, law_searching_the_viewport_is_bounded, lemma_first_match, lemma_line_matches,
};
use crate::search::{
    band_first, band_last, band_matches, clamp_to_grid, find_covering, first_match, from_line,
    last_match, lemma_wrap_end, line_matches, link_chars, link_text, next_match_after,
    prev_match_before, regex_match_at, scan_first, scan_last, search_all_in_term, settled,
    settled_end, settled_on, span_matches, text_behind, text_end, text_matches, to_line,
    visible_regex_match_iter, visible_regex_match_iter_in_cols, SearchPattern,
};
use crate::terminal::{match_left, match_right, term_model, EventProxy, GridText, TermModel};

verus! {

/// `a` comes no later than `b`, as cells are read.
pub open spec fn no_later(a: Point, b: Point) -> bool {
    a.line < b.line || a.line == b.line && a.column <= b.column
}

/// The cell carries the mark.
pub open spec fn marked(text: GridText, point: Point, mark: u16) -> bool {
    text.cells[(point.line as int, point.column as int)].flags & mark == mark
}

/// The last cell of the row is marked as going on in the next row.
pub open spec fn row_goes_on(text: GridText, row: int) -> bool {
    text.cells[(row, text.columns - 1)].flags & 0x10 == 0x10
}

/// The cell exists.
pub open spec fn in_grid(text: GridText, point: Point) -> bool {
    text.screen_lines - text.total_lines <= point.line < text.screen_lines && point.column
        < text.columns
}

pub open spec fn top_left(text: GridText) -> Point {
    Point { line: (text.screen_lines - text.total_lines) as i32, column: 0 }
}

pub open spec fn bottom_right(text: GridText) -> Point {
    Point { line: (text.screen_lines - 1) as i32, column: (text.columns - 1) as usize }
}

/// The cell that is read next.
pub open spec fn next_cell(text: GridText, point: Point) -> Point {
    if point.column >= text.columns - 1 {
        Point { line: (point.line + 1) as i32, column: 0 }
    } else {
        Point { line: point.line, column: (point.column + 1) as usize }
    }
}

/// The cell that is read before.
pub open spec fn cell_before(text: GridText, point: Point) -> Point {
    if point.column == 0 {
        Point { line: (point.line - 1) as i32, column: (text.columns - 1) as usize }
    } else {
        Point { line: point.line, column: (point.column - 1) as usize }
    }
}

/// No character in the grid is wider than a cell.
pub open spec fn is_narrow(text: GridText) -> bool {
    forall|point: Point| #[trigger]
        in_grid(text, point) ==> !marked(text, point, 0x20) && !marked(text, point, 0x40)
            && !marked(text, point, 0x400)
}

/// A search can come upon the cell: it is one of the two ends of the buffer, or
/// the cell before it is no spacer left empty before a wide character.
pub open spec fn reachable(text: GridText, point: Point) -> bool {
    point == top_left(text) || point == bottom_right(text) || !marked(
        text,
        cell_before(text, point),
        0x400,
    )
}

/// A search can end at the cell: it is the last of the buffer, or one that can be
/// come upon and that neither is such a spacer nor has its other half behind it.
pub open spec fn may_end(text: GridText, point: Point) -> bool {
    point == bottom_right(text) || reachable(text, point) && !marked(text, point, 0x400) && !(
    marked(text, point, 0x20) && point.column < text.columns - 1)
}

/// Points are compared as they are read.
pub proof fn law_points_are_compared_in_reading_order(a: &Point, b: &Point, earlier: bool)
    requires
        call_ensures(Point::is_at_most, (a, b), earlier),
    ensures
        earlier == no_later(*a, *b),
{
}

/// A match covers the cells from its start to its end, as they are read.
pub proof fn law_a_match_covers_the_cells_between_its_ends(
    found: &SearchMatch,
    point: &Point,
    covered: bool,
)
    requires
        call_ensures(SearchMatch::contains, (found, point), covered),
    ensures
        covered == (no_later(found.start, *point) && no_later(*point, found.end)),
{
}

/// A selection of running text covers the cells from its start to its end, as they
/// are read, whatever their column; a block covers a rectangle.
pub proof fn law_a_selection_covers_the_cells_between_its_ends(
    range: &SelectionRange,
    point: &Point,
    covered: bool,
)
    requires
        call_ensures(SelectionRange::contains, (range, point), covered),
    ensures
        !range.is_block ==> covered == (no_later(range.start, *point) && no_later(
            *point,
            range.end,
        )),
        range.is_block ==> covered == (range.start.line <= point.line <= range.end.line
            && range.start.column <= point.column <= range.end.column),
{
}

/// A point is brought to the nearest line and to the nearest column of the grid:
/// none of the grid is nearer.
pub proof fn law_clamping_finds_the_nearest_cell(
    term: &Term<EventProxy>,
    from: Point,
    point: Point,
    other: Point,
)
    requires
        term_model(*term).wf(),
        call_ensures(clamp_to_grid, (term, from), point),
        in_grid(term_model(*term).text(), other),
    ensures
        in_grid(term_model(*term).text(), point),
        from.line <= other.line ==> from.line <= point.line <= other.line,
        other.line <= from.line ==> other.line <= point.line <= from.line,
        from.column <= other.column ==> point.column == from.column,
        other.column <= from.column ==> other.column <= point.column <= from.column,
{
}

/// Rows that go on into one another are searched as one text, and apart from what
/// stands above and below: from the first of them to the first that does not go
/// on, or the last row searched.
pub proof fn law_rows_that_go_on_are_searched_together(
    text: GridText,
    regex: RegexSearch,
    first: int,
    end: int,
    last: int,
)
    requires
        first <= end <= last,
        forall|row: int| first <= row < end ==> #[trigger] row_goes_on(text, row),
        end == last || !row_goes_on(text, end),
    ensures
        text_end(text, first, last) == end,
        line_matches(text, regex, first, last) == text_matches(
            text,
            regex,
            Point { line: first as i32, column: 0 },
            end,
            Point { line: end as i32, column: (text.columns - 1) as usize },
        ) + line_matches(text, regex, end + 1, last),
    decreases end - first,
{
    if first < end {
        assert(row_goes_on(text, first));
        law_rows_that_go_on_are_searched_together(text, regex, first + 1, end, last);
    }
    let found = text_matches(
        text,
        regex,
        Point { line: first as i32, column: 0 },
        end,
        Point { line: end as i32, column: (text.columns - 1) as usize },
    );
    if end == last {
        assert(line_matches(text, regex, end + 1, last) =~= Seq::empty());
        assert(found + Seq::<SearchMatch>::empty() =~= found);
    }
}

/// The stretch of rows that is searched together ends at a row that does not go
/// on, or at the last one, and every row before that goes on. It is the wrapped
/// text that the first row belongs to, as far as it is searched.
pub proof fn law_a_stretch_ends_where_a_row_does_not_go_on(model: TermModel, first: int, last: int)
    requires
        first <= last <= model.screen_lines - 1,
    ensures
        ({
            let text = model.text();
            let end = text_end(text, first, last);
            &&& first <= end <= last
            &&& forall|row: int| first <= row < end ==> #[trigger] row_goes_on(text, row)
            &&& end == last || !row_goes_on(text, end)
            &&& end == (if model.wrap_end(first) < last {
                model.wrap_end(first)
            } else {
                last
            })
        }),
    decreases last - first,
{
    lemma_wrap_end(model, first);
    if first < last && row_goes_on(model.text(), first) {
        law_a_stretch_ends_where_a_row_does_not_go_on(model, first + 1, last);
        lemma_wrap_end(model, first + 1);
    }
}

/// A search of the whole buffer begins with the wrapped text at its top.
pub proof fn law_a_wrapped_text_is_searched_as_one(
    term: &Term<EventProxy>,
    pattern: &SearchPattern,
    found: Vec<SearchMatch>,
    end: int,
)
    requires
        term_model(*term).wf(),
        call_ensures(search_all_in_term, (term, pattern), found),
        ({
            let text = term_model(*term).text();
            let top = text.screen_lines - text.total_lines;
            &&& top <= end < text.screen_lines
            &&& forall|row: int| top <= row < end ==> #[trigger] row_goes_on(text, row)
            &&& end == text.screen_lines - 1 || !row_goes_on(text, end)
        }),
    ensures
        ({
            let text = term_model(*term).text();
            found@ == text_matches(
                text,
                pattern@,
                top_left(text),
                end,
                Point { line: end as i32, column: (text.columns - 1) as usize },
            ) + line_matches(text, pattern@, end + 1, text.screen_lines - 1)
        }),
{
    let text = term_model(*term).text();
    law_rows_that_go_on_are_searched_together(
        text,
        pattern@,
        text.topmost(),
        end,
        text.bottommost(),
    );
}

/// Behind a row that does not go on, the search begins anew: what is found up to
/// it and what is found from the next row on is found by itself.
pub proof fn law_the_search_begins_anew_behind_a_row_that_ends(
    text: GridText,
    regex: RegexSearch,
    first: int,
    middle: int,
    last: int,
)
    requires
        first <= middle <= last,
        !row_goes_on(text, middle),
    ensures
        line_matches(text, regex, first, last) == line_matches(text, regex, first, middle)
            + line_matches(text, regex, middle + 1, last),
    decreases middle - first,
{
    lemma_stretch_before(text, first, middle, last);
    let end = text_end(text, first, last);
    let found = text_matches(
        text,
        regex,
        Point { line: first as i32, column: 0 },
        end,
        Point { line: end as i32, column: (text.columns - 1) as usize },
    );
    if end < middle {
        law_the_search_begins_anew_behind_a_row_that_ends(text, regex, end + 1, middle, last);
    } else if middle == last {
        assert(line_matches(text, regex, middle + 1, last) =~= Seq::empty());
    }
    assert(line_matches(text, regex, first, last) =~= line_matches(text, regex, first, middle)
        + line_matches(text, regex, middle + 1, last));
}

proof fn lemma_stretch_before(text: GridText, first: int, middle: int, last: int)
    requires
        first <= middle <= last,
        !row_goes_on(text, middle),
    ensures
        first <= text_end(text, first, last) <= middle,
        text_end(text, first, middle) == text_end(text, first, last),
    decreases middle - first,
{
    if first < middle && row_goes_on(text, first) {
        lemma_stretch_before(text, first + 1, middle, last);
    }
}

/// Where a search is to end at a cell, it ends at the last cell up to it that it
/// can end at; where there is none, at the first cell of the buffer.
pub proof fn law_a_search_ends_at_the_last_cell_it_can(text: GridText, point: Point, other: Point)
    requires
        text.measured(),
        in_grid(text, point),
        in_grid(text, other),
    ensures
        ({
            let end = settled_end(text, point);
            &&& in_grid(text, end)
            &&& no_later(end, point)
            &&& end == top_left(text) || may_end(text, end)
            &&& no_later(other, point) && may_end(text, other) ==> no_later(other, end)
        }),
    decreases point.line - text.topmost(), point.column,
{
    if !may_end(text, point) && point != top_left(text) {
        let before = cell_before(text, point);
        assert(text.before(point) == before);
        law_a_search_ends_at_the_last_cell_it_can(text, before, other);
    }
}

/// A search from a cell on begins at the last cell up to it that it can come
/// upon.
pub proof fn law_a_search_begins_at_a_cell_it_can_come_upon(
    text: GridText,
    point: Point,
    other: Point,
)
    requires
        text.measured(),
        in_grid(text, point),
        in_grid(text, other),
    ensures
        ({
            let start = settled(text, point);
            &&& in_grid(text, start)
            &&& no_later(start, point)
            &&& reachable(text, start)
            &&& no_later(other, point) && reachable(text, other) ==> no_later(other, start)
        }),
    decreases point.line - text.topmost(), point.column,
{
    if !reachable(text, point) {
        let before = cell_before(text, point);
        assert(text.before(point) == before);
        law_a_search_begins_at_a_cell_it_can_come_upon(text, before, other);
    }
}

/// A search back from a cell begins at the first cell from it on that it can come
/// upon.
pub proof fn law_a_search_back_begins_at_a_cell_it_can_come_upon(
    text: GridText,
    point: Point,
    other: Point,
)
    requires
        text.measured(),
        in_grid(text, point),
        in_grid(text, other),
    ensures
        ({
            let start = settled_on(text, point);
            &&& in_grid(text, start)
            &&& no_later(point, start)
            &&& reachable(text, start)
            &&& no_later(point, other) && reachable(text, other) ==> no_later(start, other)
        }),
    decreases text.bottommost() - point.line, text.columns - point.column,
{
    if !reachable(text, point) {
        let behind = next_cell(text, point);
        assert(text.behind(point) == behind);
        law_a_search_back_begins_at_a_cell_it_can_come_upon(text, behind, other);
    }
}

/// The text up to the end of a row is searched up to the last cell of that row at
/// which a search can end; where characters are a cell wide, up to its last cell.
pub proof fn law_a_text_is_searched_to_the_end_of_its_last_row(
    text: GridText,
    regex: RegexSearch,
    from: Point,
    row: int,
    until: Point,
    end: Point,
)
    requires
        text.measured(),
        in_grid(text, from),
        text.screen_lines - text.total_lines <= row < text.screen_lines,
        in_grid(text, end),
        no_later(from, end),
        end.line <= row,
        may_end(text, end),
        forall|point: Point|
            in_grid(text, point) && point.line <= row && !no_later(point, end)
                ==> !#[trigger] may_end(text, point),
    ensures
        text_matches(text, regex, from, row, until) == span_matches(text, regex, from, end, until),
        is_narrow(text) ==> end.line == row && end.column == text.columns - 1,
{
    let corner = Point { line: row as i32, column: (text.columns - 1) as usize };
    law_a_search_ends_at_the_last_cell_it_can(text, corner, end);
    let stop = settled_end(text, corner);
    assert(in_grid(text, corner));
    if stop != end {
        assert(no_later(end, stop));
        if may_end(text, stop) {
            assert(!no_later(stop, end));
            assert(false);
        } else {
            assert(stop == top_left(text));
            assert(end == top_left(text));
        }
    }
    if is_narrow(text) {
        if corner != top_left(text) && corner != bottom_right(text) {
            assert(in_grid(text, cell_before(text, corner)));
        }
        assert(may_end(text, corner));
        assert(no_later(corner, end));
    }
}

/// Where a search could end at no cell from its first to the end of the last row,
/// nothing is found.
pub proof fn law_nothing_is_found_where_a_search_cannot_end(
    text: GridText,
    regex: RegexSearch,
    from: Point,
    row: int,
    until: Point,
)
    requires
        text.measured(),
        in_grid(text, from),
        text.screen_lines - text.total_lines <= row < text.screen_lines,
        forall|point: Point|
            in_grid(text, point) && no_later(from, point) && point.line <= row
                ==> !#[trigger] may_end(text, point),
    ensures
        text_matches(text, regex, from, row, until).len() == 0,
{
    let corner = Point { line: row as i32, column: (text.columns - 1) as usize };
    law_a_search_ends_at_the_last_cell_it_can(text, corner, corner);
    let stop = settled_end(text, corner);
    assert(text.stops_at(stop) == may_end(text, stop));
}

/// Each match of a text is the first one behind the match before, and the list
/// goes on as long as there is one that begins no later than it may.
pub proof fn law_each_match_is_the_first_behind_the_one_before(
    text: GridText,
    regex: RegexSearch,
    from: Point,
    end: Point,
    until: Point,
    i: int,
)
    requires
        text.measured(),
        in_grid(text, from),
        in_grid(text, end),
        no_later(from, end),
        0 <= i <= span_matches(text, regex, from, end, until).len(),
    ensures
        ({
            let found = span_matches(text, regex, from, end, until);
            let start = if i == 0 {
                from
            } else {
                next_cell(text, found[i - 1].end)
            };
            if i < found.len() {
                &&& first_match(text, regex, start, end) == Some(found[i])
                &&& no_later(found[i].start, until)
            } else {
                ||| i > 0 && found[i - 1].end == end
                ||| first_match(text, regex, start, end) is None
                ||| !no_later(first_match(text, regex, start, end)->0.start, until)
            }
        }),
    decreases text.bottommost() - from.line, text.columns - from.column,
{
    let found = span_matches(text, regex, from, end, until);
    lemma_first_match(text, regex, from, end);
    match first_match(text, regex, from, end) {
        None => {},
        Some(m) => {
            if m.start.at_most(until) {
                if m.end == end {
                    assert(found == seq![m]);
                } else {
                    let next = next_cell(text, m.end);
                    assert(text.behind(m.end) == next);
                    let rest = span_matches(text, regex, next, end, until);
                    assert(found == seq![m] + rest);
                    if i > 0 {
                        law_each_match_is_the_first_behind_the_one_before(
                            text,
                            regex,
                            next,
                            end,
                            until,
                            i - 1,
                        );
                        if i >= 2 {
                            assert(found[i - 1] == rest[i - 2]);
                        }
                        if i < found.len() {
                            assert(found[i] == rest[i - 1]);
                        }
                    }
                }
            }
        },
    }
}

/// The first match from a cell up to another is what the emulator finds from
/// there on, without what lies before the cell. Where the emulator finds nothing
/// there is none; where what it finds lies elsewhere, the search goes on from the
/// next cell.
pub proof fn law_the_first_match_is_what_the_emulator_finds(
    text: GridText,
    regex: RegexSearch,
    from: Point,
    end: Point,
    start: Point,
)
    requires
        text.measured(),
        in_grid(text, from),
        in_grid(text, end),
        no_later(from, end),
        start == settled(text, from),
    ensures
        ({
            let found = first_match(text, regex, from, end);
            match match_right(text, regex, start, end) {
                None => found is None,
                Some(m) => if no_later(start, m.start) && no_later(m.start, m.end) && no_later(
                    from,
                    m.end,
                ) && no_later(m.end, end) {
                    &&& found is Some
                    &&& found->0.end == m.end
                    &&& no_later(from, m.start) ==> found->0.start == m.start
                    &&& no_later(m.start, from) ==> found->0.start == from
                } else if from == end {
                    found is None
                } else {
                    found == first_match(text, regex, next_cell(text, from), end)
                },
            }
        }),
        is_narrow(text) ==> start == from,
{
    assert(text.behind(from) == next_cell(text, from));
    if is_narrow(text) && from != top_left(text) {
        assert(in_grid(text, cell_before(text, from)));
    }
}

/// The last match from a cell back to another is what the emulator finds going
/// back from there.
pub proof fn law_the_last_match_is_what_the_emulator_finds(
    text: GridText,
    regex: RegexSearch,
    from: Point,
    end: Point,
    start: Point,
)
    requires
        text.measured(),
        in_grid(text, from),
        in_grid(text, end),
        no_later(end, from),
        start == settled_on(text, from),
    ensures
        ({
            let found = last_match(text, regex, from, end);
            match match_left(text, regex, start, end) {
                None => found is None,
                Some(m) => if no_later(end, m.start) && no_later(m.start, m.end) && no_later(
                    m.end,
                    from,
                ) {
                    found == Some(m)
                } else if from == end {
                    found is None
                } else {
                    found == last_match(text, regex, cell_before(text, from), end)
                },
            }
        }),
        is_narrow(text) ==> start == from,
{
    assert(text.before(from) == cell_before(text, from));
    if is_narrow(text) && from != top_left(text) {
        assert(in_grid(text, cell_before(text, from)));
    }
}

/// The next match is the first behind the character at the anchor, up to the end
/// of the buffer: behind its second half, if it has one, and behind the wide
/// character that a spacer at the anchor was left for.
pub proof fn law_the_next_match_is_the_first_behind_the_character(
    term: &Term<EventProxy>,
    pattern: &SearchPattern,
    from: Point,
    found: Option<SearchMatch>,
)
    requires
        term_model(*term).wf(),
        in_grid(term_model(*term).text(), from),
        call_ensures(next_match_after, (term, pattern, from), found),
    ensures
        ({
            let text = term_model(*term).text();
            let end = bottom_right(text);
            let next = next_cell(text, from);
            &&& from == end ==> found is None
            &&& from != end && !marked(text, from, 0x400) && !marked(text, next, 0x40)
                ==> found == first_match(text, pattern@, next, end)
            &&& from != end && !marked(text, from, 0x400) && marked(text, next, 0x40) ==> if next
                == end {
                found is None
            } else {
                found == first_match(text, pattern@, next_cell(text, next), end)
            }
            &&& from != end && marked(text, from, 0x400) ==> if next == end {
                found is None
            } else if !marked(text, next_cell(text, next), 0x40) {
                found == first_match(text, pattern@, next_cell(text, next), end)
            } else if next_cell(text, next) == end {
                found is None
            } else {
                found == first_match(
                    text,
                    pattern@,
                    next_cell(text, next_cell(text, next)),
                    end,
                )
            }
        }),
{
    let text = term_model(*term).text();
    assert(text.last_cell() == bottom_right(text));
    assert(from != bottom_right(text) ==> text.behind(from) == next_cell(text, from));
}

/// The match before is the last before the character at the anchor, back to the
/// start of the buffer.
pub proof fn law_the_previous_match_is_the_last_before_the_character(
    term: &Term<EventProxy>,
    pattern: &SearchPattern,
    from: Point,
    found: Option<SearchMatch>,
)
    requires
        term_model(*term).wf(),
        in_grid(term_model(*term).text(), from),
        call_ensures(prev_match_before, (term, pattern, from), found),
    ensures
        ({
            let text = term_model(*term).text();
            let end = top_left(text);
            let before = cell_before(text, from);
            &&& from == end ==> found is None
            &&& from != end && !marked(text, from, 0x40) && !marked(text, before, 0x400)
                ==> found == last_match(text, pattern@, before, end)
            &&& from != end && !marked(text, from, 0x40) && marked(text, before, 0x400)
                ==> if before == end {
                found is None
            } else {
                found == last_match(text, pattern@, cell_before(text, before), end)
            }
            &&& from != end && marked(text, from, 0x40) ==> if before == end {
                found is None
            } else if !marked(text, cell_before(text, before), 0x400) {
                found == last_match(text, pattern@, cell_before(text, before), end)
            } else if cell_before(text, before) == end {
                found is None
            } else {
                found == last_match(
                    text,
                    pattern@,
                    cell_before(text, cell_before(text, before)),
                    end,
                )
            }
        }),
{
    let text = term_model(*term).text();
    assert(text.first_cell() == top_left(text));
    assert(from != top_left(text) ==> text.before(from) == cell_before(text, from));
}

/// An anchor outside the grid counts for the cell that it is clamped to.
pub proof fn law_anchors_outside_the_grid_are_clamped(
    term: &Term<EventProxy>,
    pattern: &SearchPattern,
    from: Point,
    nearest: Point,
    next: Option<SearchMatch>,
    same_next: Option<SearchMatch>,
    previous: Option<SearchMatch>,
    same_previous: Option<SearchMatch>,
)
    requires
        term_model(*term).wf(),
        call_ensures(clamp_to_grid, (term, from), nearest),
        call_ensures(next_match_after, (term, pattern, from), next),
        call_ensures(next_match_after, (term, pattern, nearest), same_next),
        call_ensures(prev_match_before, (term, pattern, from), previous),
        call_ensures(prev_match_before, (term, pattern, nearest), same_previous),
    ensures
        next == same_next,
        previous == same_previous,
{
}

/// A search of the viewport takes in the rows of the viewport, and those above and
/// below that go on into it, five at most: all of those rows, and no more.
pub proof fn law_the_viewport_is_searched_with_the_rows_that_go_on_into_it(model: TermModel)
    requires
        model.wf(),
    ensures
        ({
            let text = model.text();
            let top = model.screen_lines - model.total_lines;
            let start = -model.display_offset;
            let end = model.screen_lines - 1 - model.display_offset;
            let first = scan_first(model);
            let last = scan_last(model);
            &&& top <= first <= start
            &&& start - 5 <= first
            &&& forall|row: int| first <= row < start ==> #[trigger] row_goes_on(text, row)
            &&& first == top || first == start - 5 || !row_goes_on(text, first - 1)
            &&& end <= last < model.screen_lines
            &&& last <= end + 5
            &&& forall|row: int| end <= row < last ==> #[trigger] row_goes_on(text, row)
            &&& last == model.screen_lines - 1 || last == end + 5 || !row_goes_on(text, last)
        }),
{
    lemma_wraps_from(model, model.viewport_start());
    lemma_wraps_up_to(model, model.viewport_end());
}

proof fn lemma_wraps_from(model: TermModel, line: int)
    requires
        model.topmost() <= line,
    ensures
        model.topmost() <= model.wrap_start(line) <= line,
        forall|row: int|
            model.wrap_start(line) <= row < line ==> #[trigger] row_goes_on(model.text(), row),
        model.wrap_start(line) == model.topmost() || !row_goes_on(
            model.text(),
            model.wrap_start(line) - 1,
        ),
    decreases line - model.topmost(),
{
    if line > model.topmost() && row_goes_on(model.text(), line - 1) {
        lemma_wraps_from(model, line - 1);
    }
}

proof fn lemma_wraps_up_to(model: TermModel, line: int)
    requires
        line <= model.bottommost(),
    ensures
        line <= model.wrap_end(line) <= model.bottommost(),
        forall|row: int|
            line <= row < model.wrap_end(line) ==> #[trigger] row_goes_on(model.text(), row),
        model.wrap_end(line) == model.bottommost() || !row_goes_on(
            model.text(),
            model.wrap_end(line),
        ),
    decreases model.bottommost() - line,
{
    if line < model.bottommost() && row_goes_on(model.text(), line) {
        lemma_wraps_up_to(model, line + 1);
    }
}

/// Those that show on the lines from `first` to `last`.
pub open spec fn showing(found: Seq<SearchMatch>, first: int, last: int) -> Seq<SearchMatch> {
    found.filter(|m: SearchMatch| first <= m.end.line && m.start.line <= last)
}

proof fn lemma_showing_joins(a: Seq<SearchMatch>, b: Seq<SearchMatch>, first: int, last: int)
    ensures
        showing(a + b, first, last) == showing(a, first, last) + showing(b, first, last),
{
    Seq::filter_distributes_over_add(
        a,
        b,
        |m: SearchMatch| first <= m.end.line && m.start.line <= last,
    );
}

proof fn lemma_showing_one(m: SearchMatch, first: int, last: int)
    ensures
        showing(seq![m], first, last) == (if first <= m.end.line && m.start.line <= last {
            seq![m]
        } else {
            Seq::empty()
        }),
{
    reveal(Seq::filter);
    assert(seq![m].drop_last() =~= Seq::empty());
    let shown = |m: SearchMatch| first <= m.end.line && m.start.line <= last;
    assert(seq![m].drop_last().filter(shown) =~= Seq::empty());
    assert(seq![m].last() == m);
}

proof fn lemma_showing_none(found: Seq<SearchMatch>, first: int, last: int)
    requires
        forall|i: int|
            0 <= i < found.len() ==> (#[trigger] found[i]).end.line < first || last
                < found[i].start.line,
    ensures
        showing(found, first, last) == Seq::<SearchMatch>::empty(),
    decreases found.len(),
{
    reveal(Seq::filter);
    if found.len() > 0 {
        lemma_showing_none(found.drop_last(), first, last);
    }
    assert(showing(found, first, last) =~= Seq::empty());
}

proof fn lemma_rest_in_order(found: Seq<SearchMatch>)
    requires
        in_order(found),
        found.len() > 0,
    ensures
        in_order(found.drop_first()),
        found == seq![found[0]] + found.drop_first(),
        forall|i: int|
            0 <= i < found.len() - 1 ==> found[0].start.line <= (
            #[trigger] found.drop_first()[i]).start.line && found[0].end.line
                <= found.drop_first()[i].end.line,
{
    let rest = found.drop_first();
    assert forall|i: int, j: int| 0 <= i < j < rest.len() implies !(
    #[trigger] rest[j]).start.at_most((#[trigger] rest[i]).end) by {
        assert(rest[i] == found[i + 1] && rest[j] == found[j + 1]);
    }
    assert forall|i: int| 0 <= i < rest.len() implies (#[trigger] rest[i]).start.at_most(
        rest[i].end,
    ) && found[0].start.line <= rest[i].start.line && found[0].end.line <= rest[i].end.line by {
        assert(rest[i] == found[i + 1]);
        assert(!found[i + 1].start.at_most(found[0].end));
        assert(found[0].start.at_most(found[0].end));
    }
    assert(found =~= seq![found[0]] + rest);
}

proof fn lemma_cut_shows(found: Seq<SearchMatch>, first: int, last: int)
    requires
        in_order(found),
    ensures
        to_line(from_line(found, first), last) == showing(found, first, last),
    decreases found.len(),
{
    if found.len() == 0 {
        lemma_showing_none(found, first, last);
    } else {
        lemma_rest_in_order(found);
        let rest = found.drop_first();
        lemma_showing_joins(seq![found[0]], rest, first, last);
        lemma_showing_one(found[0], first, last);
        if found[0].end.line < first {
            lemma_cut_shows(rest, first, last);
            assert(showing(found, first, last) =~= showing(rest, first, last));
        } else {
            lemma_to_line_shows(found, first, last);
        }
    }
}

proof fn lemma_to_line_shows(found: Seq<SearchMatch>, first: int, last: int)
    requires
        in_order(found),
        found.len() > 0 ==> first <= found[0].end.line,
    ensures
        to_line(found, last) == showing(found, first, last),
    decreases found.len(),
{
    if found.len() == 0 {
        lemma_showing_none(found, first, last);
    } else {
        lemma_rest_in_order(found);
        let rest = found.drop_first();
        lemma_showing_joins(seq![found[0]], rest, first, last);
        lemma_showing_one(found[0], first, last);
        if rest.len() > 0 {
            assert(first <= rest[0].end.line);
        }
        if found[0].start.line <= last {
            lemma_to_line_shows(rest, first, last);
        } else {
            lemma_showing_none(found, first, last);
        }
    }
}

/// The matches that show in the viewport are all those, on the rows that are taken
/// in, that end on or below its first line and begin on or above its last.
pub proof fn law_the_visible_matches_are_all_that_show(
    term: &Term<EventProxy>,
    pattern: &SearchPattern,
    found: Vec<SearchMatch>,
)
    requires
        term_model(*term).wf(),
        call_ensures(visible_regex_match_iter, (term, pattern), found),
    ensures
        ({
            let model = term_model(*term);
            found@ == showing(
                line_matches(model.text(), pattern@, scan_first(model), scan_last(model)),
                -model.display_offset,
                model.screen_lines - 1 - model.display_offset,
            )
        }),
{
    let model = term_model(*term);
    law_searching_the_viewport_is_bounded(model);
    lemma_line_matches(model.text(), pattern@, scan_first(model), scan_last(model));
    lemma_cut_shows(
        line_matches(model.text(), pattern@, scan_first(model), scan_last(model)),
        model.viewport_start(),
        model.viewport_end(),
    );
}

/// Where the text that crosses the edges of the viewport begins and ends no more
/// than five rows beyond them, the matches that show in the viewport are those of
/// the whole buffer that show there, all of them and no others.
pub proof fn law_the_visible_search_agrees_with_the_whole_search(
    term: &Term<EventProxy>,
    pattern: &SearchPattern,
    visible: Vec<SearchMatch>,
    whole: Vec<SearchMatch>,
    first: int,
    last: int,
)
    requires
        term_model(*term).wf(),
        call_ensures(visible_regex_match_iter, (term, pattern), visible),
        call_ensures(search_all_in_term, (term, pattern), whole),
        ({
            let model = term_model(*term);
            let text = model.text();
            let start = -model.display_offset;
            let end = model.screen_lines - 1 - model.display_offset;
            &&& model.screen_lines - model.total_lines <= first <= start <= first + 5
            &&& end <= last <= end + 5
            &&& last < model.screen_lines
            &&& forall|row: int| first <= row < start ==> #[trigger] row_goes_on(text, row)
            &&& first == model.screen_lines - model.total_lines || !row_goes_on(text, first - 1)
            &&& forall|row: int| end <= row < last ==> #[trigger] row_goes_on(text, row)
            &&& last == model.screen_lines - 1 || !row_goes_on(text, last)
        }),
    ensures
        visible@ == showing(
            whole@,
            -term_model(*term).display_offset,
            term_model(*term).screen_lines - 1 - term_model(*term).display_offset,
        ),
{
    let model = term_model(*term);
    let text = model.text();
    let start = model.viewport_start();
    let end = model.viewport_end();
    let top = model.topmost();
    let bottom = model.bottommost();
    law_the_visible_matches_are_all_that_show(term, pattern, visible);
    law_the_viewport_is_searched_with_the_rows_that_go_on_into_it(model);
    assert(scan_first(model) == first) by {
        if scan_first(model) < first {
            assert(row_goes_on(text, first - 1));
        } else if first < scan_first(model) {
            assert(row_goes_on(text, scan_first(model) - 1));
        }
    }
    assert(scan_last(model) == last) by {
        if last < scan_last(model) {
            assert(row_goes_on(text, last));
        } else if scan_last(model) < last {
            assert(row_goes_on(text, scan_last(model)));
        }
    }
    let here = line_matches(text, pattern@, first, last);
    let from_here = line_matches(text, pattern@, first, bottom);
    let below = line_matches(text, pattern@, last + 1, bottom);
    assert(showing(from_here, start, end) == showing(here, start, end)) by {
        if last < bottom {
            law_the_search_begins_anew_behind_a_row_that_ends(
                text,
                pattern@,
                first,
                last,
                bottom,
            );
            lemma_line_matches(text, pattern@, last + 1, bottom);
            lemma_showing_joins(here, below, start, end);
            lemma_showing_none(below, start, end);
            assert(showing(here, start, end) + Seq::<SearchMatch>::empty() =~= showing(
                here,
                start,
                end,
            ));
        }
    }
    if top < first {
        let above = line_matches(text, pattern@, top, first - 1);
        law_the_search_begins_anew_behind_a_row_that_ends(text, pattern@, top, first - 1, bottom);
        lemma_line_matches(text, pattern@, top, first - 1);
        lemma_showing_joins(above, from_here, start, end);
        lemma_showing_none(above, start, end);
        assert(Seq::<SearchMatch>::empty() + showing(from_here, start, end) =~= showing(
            from_here,
            start,
            end,
        ));
    }
}

/// The search of a band takes in the rows of the viewport and as many above and
/// below as it is told, as far as there are any; each row is searched by itself,
/// from the first column that was asked for to the end of the row.
pub proof fn law_a_band_is_searched_row_by_row(
    term: &Term<EventProxy>,
    pattern: &SearchPattern,
    min_col: usize,
    max_col: usize,
    padding: i32,
    found: Vec<SearchMatch>,
    first: int,
    last: int,
    row: int,
)
    requires
        term_model(*term).wf(),
        call_ensures(
            visible_regex_match_iter_in_cols,
            (term, pattern, min_col, max_col, padding),
            found,
        ),
        ({
            let model = term_model(*term);
            let top = model.screen_lines - model.total_lines;
            let start = -model.display_offset;
            let end = model.screen_lines - 1 - model.display_offset;
            &&& top <= first
            &&& start - padding <= first
            &&& first == top || first == start - padding
            &&& last < model.screen_lines
            &&& last <= end + padding
            &&& last == model.screen_lines - 1 || last == end + padding
        }),
        first <= row <= last,
    ensures
        ({
            let text = term_model(*term).text();
            found@ == band_matches(text, pattern@, first, row - 1, min_col, max_col)
                + text_matches(
                text,
                pattern@,
                Point { line: row as i32, column: min_col },
                row,
                Point { line: row as i32, column: max_col },
            ) + band_matches(text, pattern@, row + 1, last, min_col, max_col)
        }),
{
    let model = term_model(*term);
    assert(band_first(model, padding as int) == first);
    assert(band_last(model, padding as int) == last);
    lemma_band_parts(model.text(), pattern@, first, row, last, min_col, max_col);
}

proof fn lemma_band_parts(
    text: GridText,
    regex: RegexSearch,
    first: int,
    row: int,
    last: int,
    min_col: usize,
    max_col: usize,
)
    requires
        first <= row <= last,
    ensures
        band_matches(text, regex, first, last, min_col, max_col) == band_matches(
            text,
            regex,
            first,
            row - 1,
            min_col,
            max_col,
        ) + text_matches(
            text,
            regex,
            Point { line: row as i32, column: min_col },
            row,
            Point { line: row as i32, column: max_col },
        ) + band_matches(text, regex, row + 1, last, min_col, max_col),
    decreases row - first,
{
    let here = text_matches(
        text,
        regex,
        Point { line: row as i32, column: min_col },
        row,
        Point { line: row as i32, column: max_col },
    );
    let below = band_matches(text, regex, row + 1, last, min_col, max_col);
    if first == row {
        assert(band_matches(text, regex, first, row - 1, min_col, max_col) =~= Seq::empty());
        assert(Seq::<SearchMatch>::empty() + here + below =~= here + below);
    } else {
        lemma_band_parts(text, regex, first + 1, row, last, min_col, max_col);
        let head = text_matches(
            text,
            regex,
            Point { line: first as i32, column: min_col },
            first,
            Point { line: first as i32, column: max_col },
        );
        let middle = band_matches(text, regex, first + 1, row - 1, min_col, max_col);
        assert(head + (middle + here + below) =~= head + middle + here + below);
    }
}

/// Where no row goes on, the search of a band that is as wide as the grid finds on
/// each row what a search of the whole buffer finds there.
pub proof fn law_a_full_band_finds_what_the_whole_search_finds(
    text: GridText,
    regex: RegexSearch,
    first: int,
    last: int,
)
    requires
        forall|row: int| first <= row <= last ==> !#[trigger] row_goes_on(text, row),
    ensures
        band_matches(text, regex, first, last, 0, (text.columns - 1) as usize) == line_matches(
            text,
            regex,
            first,
            last,
        ),
    decreases last - first + 1,
{
    if first <= last {
        assert(!row_goes_on(text, first));
        law_a_full_band_finds_what_the_whole_search_finds(text, regex, first + 1, last);
        law_rows_that_go_on_are_searched_together(text, regex, first, first, last);
    }
}

/// The match at a point is the first in the list that covers it; there is none if,
/// and only if, none covers it.
pub proof fn law_the_first_match_that_covers_a_point_is_taken(
    all: &Vec<SearchMatch>,
    point: Point,
    found: Option<SearchMatch>,
    i: int,
)
    requires
        call_ensures(find_covering, (all, point), found),
        0 <= i < all@.len(),
        no_later(all@[i].start, point),
        no_later(point, all@[i].end),
        forall|j: int|
            0 <= j < i ==> !(no_later((#[trigger] all@[j]).start, point) && no_later(
                point,
                all@[j].end,
            )),
    ensures
        found == Some(all@[i]),
{
    assert(all@[i].has(point));
    assert forall|j: int| 0 <= j < i implies !(#[trigger] all@[j]).has(point) by {}
}

/// See [`law_the_first_match_that_covers_a_point_is_taken`].
pub proof fn law_no_match_is_taken_that_does_not_cover_the_point(
    all: &Vec<SearchMatch>,
    point: Point,
    found: Option<SearchMatch>,
)
    requires
        call_ensures(find_covering, (all, point), found),
    ensures
        found matches Some(m) ==> all@.contains(m) && no_later(m.start, point) && no_later(
            point,
            m.end,
        ),
{
}

/// The match at a point of the terminal is looked for among those that show in the
/// viewport.
pub proof fn law_a_match_at_a_point_shows_in_the_viewport(
    term: &Term<EventProxy>,
    pattern: &SearchPattern,
    point: Point,
    all: &Vec<SearchMatch>,
    found: Option<SearchMatch>,
    same: Option<SearchMatch>,
)
    requires
        call_ensures(visible_regex_match_iter, (term, pattern), *all),
        call_ensures(find_covering, (all, point), same),
        call_ensures(regex_match_at, (term, point, pattern), found),
    ensures
        found == same,
{
    if found is Some {
        let i = choose|i: int|
            0 <= i < all@.len() && #[trigger] all@[i] == found->0 && found->0.has(point) && (forall|
                j: int,
            |
                0 <= j < i ==> !(#[trigger] all@[j]).has(point));
        law_the_first_match_that_covers_a_point_is_taken(all, point, same, i);
    } else if same is Some {
        let i = choose|i: int|
            0 <= i < all@.len() && #[trigger] all@[i] == same->0 && same->0.has(point) && (forall|
                j: int,
            |
                0 <= j < i ==> !(#[trigger] all@[j]).has(point));
        assert(false);
    }
}

/// The backend searches the terminal.
pub proof fn law_the_backend_searches_the_terminal(
    backend: &TerminalBackend,
    term: &Term<EventProxy>,
    pattern: &SearchPattern,
    from: Point,
    all: Vec<SearchMatch>,
    same_all: Vec<SearchMatch>,
    visible: Vec<SearchMatch>,
    same_visible: Vec<SearchMatch>,
    next: Option<SearchMatch>,
    same_next: Option<SearchMatch>,
    previous: Option<SearchMatch>,
    same_previous: Option<SearchMatch>,
)
    requires
        call_ensures(search_all_in_term, (term, pattern), all),
        call_ensures(TerminalBackend::search_all, (backend, term, pattern), same_all),
        call_ensures(visible_regex_match_iter, (term, pattern), visible),
        call_ensures(TerminalBackend::search_visible, (backend, term, pattern), same_visible),
        call_ensures(next_match_after, (term, pattern, from), next),
        call_ensures(TerminalBackend::next_match_after, (backend, term, pattern, from), same_next),
        call_ensures(prev_match_before, (term, pattern, from), previous),
        call_ensures(
            TerminalBackend::prev_match_before,
            (backend, term, pattern, from),
            same_previous,
        ),
    ensures
        all@ == same_all@,
        visible@ == same_visible@,
        next == same_next,
        previous == same_previous,
{
}

/// The position of a cell among the cells of the grid, line by line.
pub open spec fn position(columns: int, line: int, column: int) -> int {
    line * columns + column
}

proof fn lemma_text_behind(model: TermModel, line: int, column: int, end: Point, k: int)
    requires
        model.columns >= 1,
        line <= model.bottommost(),
        0 <= column < model.columns,
        end.line <= model.bottommost(),
        end.column < model.columns,
        line < end.line || line == end.line && column < end.column,
        0 <= k < text_behind(model, line, column, end).len(),
    ensures
        text_behind(model, line, column, end).len() == position(
            model.columns as int,
            end.line as int,
            end.column as int,
        ) - position(model.columns as int, line, column),
        forall|l: int, c: int|
            0 <= c < model.columns && #[trigger] position(model.columns as int, l, c) == position(
                model.columns as int,
                line,
                column,
            ) + 1 + k ==> text_behind(model, line, column, end)[k] == model.cells[(l, c)].c,
    decreases model.bottommost() - line, model.columns - column,
{
    let w = model.columns as int;
    let (l, c) = if column >= model.columns - 1 {
        (line + 1, 0int)
    } else {
        (line, column + 1)
    };
    assert(position(w, l, c) == position(w, line, column) + 1) by (nonlinear_arith)
        requires
            0 <= column < w,
            l == (if column >= w - 1 {
                line + 1
            } else {
                line
            }),
            c == (if column >= w - 1 {
                0
            } else {
                column + 1
            }),
    ;
    let all = text_behind(model, line, column, end);
    if l == end.line && c == end.column {
        assert(all == seq![model.cell(l, c).c]);
        assert(k == 0);
    } else {
        let rest = text_behind(model, l, c, end);
        assert(all == seq![model.cell(l, c).c] + rest);
        assert(rest.len() > 0) by {
            reveal_with_fuel(text_behind, 2);
        }
        lemma_text_behind(
            model,
            l,
            c,
            end,
            if k > 0 {
                k - 1
            } else {
                0
            },
        );
    }
    assert forall|a: int, b: int|
        0 <= b < model.columns && #[trigger] position(w, a, b) == position(w, line, column) + 1
            + k implies all[k] == model.cells[(a, b)].c by {
        if k == 0 {
            lemma_position_tells_apart(w, a, b, l, c);
        } else if !(l == end.line && c == end.column) {
            let rest = text_behind(model, l, c, end);
            assert(all[k] == rest[k - 1]);
            assert(position(w, a, b) == position(w, l, c) + 1 + (k - 1));
        }
    }
}

proof fn lemma_position_tells_apart(w: int, a: int, b: int, l: int, c: int)
    requires
        0 <= b < w,
        0 <= c < w,
        position(w, a, b) == position(w, l, c),
    ensures
        a == l,
        b == c,
{
    assert(a == l) by (nonlinear_arith)
        requires
            0 <= b < w,
            0 <= c < w,
            a * w + b == l * w + c,
    ;
}

/// The text of a link is the characters of the cells from its start to its end, one
/// for each, as they are read.
pub proof fn law_a_link_reads_from_its_start_to_its_end(
    term: &Term<EventProxy>,
    link: &SearchMatch,
    url: String,
    line: int,
    column: int,
)
    requires
        term_model(*term).wf(),
        in_grid(term_model(*term).text(), link.start),
        in_grid(term_model(*term).text(), link.end),
        no_later(link.start, link.end),
        call_ensures(link_text, (term, link), url),
        0 <= column < term_model(*term).columns,
        link.start.line < line || link.start.line == line && link.start.column <= column,
        line < link.end.line || line == link.end.line && column <= link.end.column,
    ensures
        ({
            let w = term_model(*term).columns as int;
            let start = position(w, link.start.line as int, link.start.column as int);
            let end = position(w, link.end.line as int, link.end.column as int);
            &&& url@.len() == end - start + 1
            &&& 0 <= position(w, line, column) - start < url@.len()
            &&& url@[position(w, line, column) - start] == term_model(*term).cells[(line, column)].c
        }),
{
    let model = term_model(*term);
    let w = model.columns as int;
    let sl = link.start.line as int;
    let sc = link.start.column as int;
    let el = link.end.line as int;
    let ec = link.end.column as int;
    assert(position(w, sl, sc) <= position(w, line, column) <= position(w, el, ec))
        by (nonlinear_arith)
        requires
            0 <= sc < w,
            0 <= ec < w,
            0 <= column < w,
            sl < line || sl == line && sc <= column,
            line < el || line == el && column <= ec,
    ;
    if link.start == link.end {
        assert(url@ == link_chars(model, *link));
    } else {
        let rest = text_behind(model, sl, sc, link.end);
        assert(rest.len() > 0) by {
            reveal_with_fuel(text_behind, 2);
        }
        assert(url@ == seq![model.cell(sl, sc).c] + rest);
        let k = position(w, line, column) - position(w, sl, sc) - 1;
        if k >= 0 {
            lemma_text_behind(model, sl, sc, link.end, 0);
            lemma_text_behind(model, sl, sc, link.end, k);
            assert(url@[k + 1] == rest[k]);
        } else {
            lemma_text_behind(model, sl, sc, link.end, 0);
            lemma_position_tells_apart(w, line, column, sl, sc);
        }
    }
}

/// A link whose end does not come behind its start reads on to the end of the grid.
pub proof fn law_a_link_without_an_end_reads_to_the_end_of_the_grid(
    term: &Term<EventProxy>,
    link: &SearchMatch,
    url: String,
    line: int,
    column: int,
)
    requires
        term_model(*term).wf(),
        in_grid(term_model(*term).text(), link.start),
        link.end != link.start,
        !in_grid(term_model(*term).text(), link.end) || no_later(link.end, link.start),
        call_ensures(link_text, (term, link), url),
        0 <= column < term_model(*term).columns,
        link.start.line < line || link.start.line == line && link.start.column <= column,
        line < term_model(*term).screen_lines,
    ensures
        ({
            let w = term_model(*term).columns as int;
            let start = position(w, link.start.line as int, link.start.column as int);
            let end = position(w, term_model(*term).screen_lines - 1, w - 1);
            &&& url@.len() == end - start + 1
            &&& 0 <= position(w, line, column) - start < url@.len()
            &&& url@[position(w, line, column) - start] == term_model(*term).cells[(line, column)].c
        }),
{
    let model = term_model(*term);
    let w = model.columns as int;
    let sl = link.start.line as int;
    let sc = link.start.column as int;
    let el = model.screen_lines - 1;
    assert(position(w, sl, sc) <= position(w, line, column) <= position(w, el, w - 1))
        by (nonlinear_arith)
        requires
            0 <= sc < w,
            0 <= column < w,
            sl < line || sl == line && sc <= column,
            line <= el,
    ;
    let rest = text_behind(model, sl, sc, link.end);
    assert(url@ == seq![model.cell(sl, sc).c] + rest);
    let k = position(w, line, column) - position(w, sl, sc) - 1;
    lemma_text_without_end(model, sl, sc, link.end, k);
    if k >= 0 {
        assert(url@[k + 1] == rest[k]);
    } else {
        lemma_position_tells_apart(w, line, column, sl, sc);
    }
}

proof fn lemma_text_without_end(model: TermModel, line: int, column: int, end: Point, k: int)
    requires
        model.columns >= 1,
        line <= model.bottommost(),
        0 <= column < model.columns,
        end.line > model.bottommost() || end.column >= model.columns || end.line < line || end.line
            == line && end.column <= column,
    ensures
        text_behind(model, line, column, end).len() == position(
            model.columns as int,
            model.bottommost(),
            model.columns - 1,
        ) - position(model.columns as int, line, column),
        0 <= k < text_behind(model, line, column, end).len() ==> forall|l: int, c: int|
            0 <= c < model.columns && #[trigger] position(model.columns as int, l, c) == position(
                model.columns as int,
                line,
                column,
            ) + 1 + k ==> text_behind(model, line, column, end)[k] == model.cells[(l, c)].c,
    decreases model.bottommost() - line, model.columns - column,
{
    let w = model.columns as int;
    if line == model.bottommost() && column >= w - 1 {
        assert(text_behind(model, line, column, end).len() == 0);
    } else {
        let (l, c) = if column >= w - 1 {
            (line + 1, 0int)
        } else {
            (line, column + 1)
        };
        assert(position(w, l, c) == position(w, line, column) + 1) by (nonlinear_arith)
            requires
                0 <= column < w,
                l == (if column >= w - 1 {
                    line + 1
                } else {
                    line
                }),
                c == (if column >= w - 1 {
                    0
                } else {
                    column + 1
                }),
        ;
        let all = text_behind(model, line, column, end);
        let rest = text_behind(model, l, c, end);
        assert(!(l == end.line && c == end.column));
        assert(all == seq![model.cell(l, c).c] + rest);
        lemma_text_without_end(model, l, c, end, k - 1);
        if 0 <= k < all.len() {
            assert forall|a: int, b: int|
                0 <= b < model.columns && #[trigger] position(w, a, b) == position(w, line, column)
                    + 1 + k implies all[k] == model.cells[(a, b)].c by {
                if k == 0 {
                    lemma_position_tells_apart(w, a, b, l, c);
                } else {
                    assert(all[k] == rest[k - 1]);
                    assert(position(w, a, b) == position(w, l, c) + 1 + (k - 1));
                }
            }
        }
    }
}

/// The address that is opened is the text of the link under the pointer.
pub proof fn law_the_link_under_the_pointer_is_opened(
    backend: &TerminalBackend,
    term: &Term<EventProxy>,
    link: &SearchMatch,
    url: String,
    opened: Option<String>,
)
    requires
        call_ensures(link_text, (term, link), url),
        call_ensures(TerminalBackend::open_link, (backend, term), opened),
    ensures
        backend.last_content.hovered_hyperlink == Some(*link) ==> opened is Some && opened->0@
            == url@,
        backend.last_content.hovered_hyperlink is None ==> opened is None,
{
}

} // verus!
