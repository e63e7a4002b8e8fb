//! Searching the terminal's buffer.

use alacritty_terminal::term::search::RegexSearch;
use alacritty_terminal::term::Term;
use vstd::prelude::*;

use crate::geometry::{Point, SearchMatch};
use crate::terminal::{
    cell, columns, compile, compiled, copy_regex, display_offset, fresh, line_search_left,
    line_search_right, match_left, match_right, screen_lines, search_left, search_right,
    term_model, total_lines, EventProxy, GridText, TermModel, LEADING_WIDE_CHAR_SPACER, WIDE_CHAR,
    WIDE_CHAR_SPACER, WRAPLINE,
};

verus! {

/// Lines above and below the viewport that a search of the viewport takes in,
/// for the sake of matches that cross its edge.
pub const SCAN_PADDING: i32 = 5;

/// The point of the grid nearest to `from`, line and column each by itself.
pub open spec fn clamped(model: TermModel, from: Point) -> Point {
    Point {
        line: (if from.line < model.topmost() {
            model.topmost()
        } else if from.line > model.bottommost() {
            model.bottommost()
        } else {
            from.line as int
        }) as i32,
        column: (if from.column >= model.columns {
            model.columns - 1
        } else {
            from.column as int
        }) as usize,
    }
}

/// Brings a point into the grid, so that an anchor from before the buffer
/// changed cannot point outside it.
pub fn clamp_to_grid(term: &Term<EventProxy>, from: Point) -> (point: Point)
    requires
        term_model(*term).wf(),
    ensures
        point == clamped(term_model(*term), from),
        term_model(*term).holds(point),
{
    let screen: usize = screen_lines(term);
    let history: usize = total_lines(term) - screen;
    let top: i32 = -(history as i32);
    let bottom: i32 = screen as i32 - 1;
    let last_column: usize = columns(term) - 1;
    let line: i32 = if from.line < top {
        top
    } else if from.line > bottom {
        bottom
    } else {
        from.line
    };
    let column: usize = if from.column > last_column {
        last_column
    } else {
        from.column
    };
    Point { line, column }
}

/// The nearest point, going back, that a search can come upon.
pub open spec fn settled(text: GridText, point: Point) -> Point
    decreases point.line - text.topmost(), point.column,
{
    if !text.measured() || !text.holds(point) || text.open_at(point) {
        point
    } else {
        settled(text, text.before(point))
    }
}

/// The nearest point, going on, that a search can come upon.
pub open spec fn settled_on(text: GridText, point: Point) -> Point
    decreases text.bottommost() - point.line, text.columns - point.column,
{
    if !text.measured() || !text.holds(point) || text.open_at(point) {
        point
    } else {
        settled_on(text, text.behind(point))
    }
}

/// The nearest point, going back, that a search can stop at; where there is
/// none, the first cell of the buffer.
pub open spec fn settled_end(text: GridText, point: Point) -> Point
    decreases point.line - text.topmost(), point.column,
{
    if !text.measured() || !text.holds(point) || text.stops_at(point) || point
        == text.first_cell() {
        point
    } else {
        settled_end(text, text.before(point))
    }
}

/// Decides [`GridText::open_at`].
fn is_open(term: &Term<EventProxy>, point: Point) -> (b: bool)
    requires
        term_model(*term).wf(),
        term_model(*term).holds(point),
    ensures
        b == term_model(*term).text().open_at(point),
{
    let columns: usize = columns(term);
    let screen: usize = screen_lines(term);
    let top: i32 = -((total_lines(term) - screen) as i32);
    let first = point.line == top && point.column == 0;
    let last = point.line == screen as i32 - 1 && point.column == columns - 1;
    if first || last {
        true
    } else if point.column > 0 {
        !cell(term, point.line, point.column - 1).contains(LEADING_WIDE_CHAR_SPACER)
    } else {
        !cell(term, point.line - 1, columns - 1).contains(LEADING_WIDE_CHAR_SPACER)
    }
}

/// Decides [`GridText::stops_at`].
fn is_stop(term: &Term<EventProxy>, point: Point) -> (b: bool)
    requires
        term_model(*term).wf(),
        term_model(*term).holds(point),
    ensures
        b == term_model(*term).text().stops_at(point),
{
    let columns: usize = columns(term);
    if point.line == screen_lines(term) as i32 - 1 && point.column == columns - 1 {
        return true;
    }
    let here = cell(term, point.line, point.column);
    is_open(term, point) && !here.contains(LEADING_WIDE_CHAR_SPACER) && (!here.contains(WIDE_CHAR)
        || point.column == columns - 1)
}

/// Builds [`GridText::before`].
fn cell_before(term: &Term<EventProxy>, point: Point) -> (before: Point)
    requires
        term_model(*term).wf(),
        term_model(*term).holds(point),
        point != term_model(*term).text().first_cell(),
    ensures
        before == term_model(*term).text().before(point),
        term_model(*term).holds(before),
{
    if point.column > 0 {
        Point { line: point.line, column: point.column - 1 }
    } else {
        Point { line: point.line - 1, column: columns(term) - 1 }
    }
}

/// Builds [`GridText::behind`].
fn cell_behind(term: &Term<EventProxy>, point: Point) -> (behind: Point)
    requires
        term_model(*term).wf(),
        term_model(*term).holds(point),
        point != term_model(*term).text().last_cell(),
    ensures
        behind == term_model(*term).text().behind(point),
        term_model(*term).holds(behind),
{
    if point.column < columns(term) - 1 {
        Point { line: point.line, column: point.column + 1 }
    } else {
        Point { line: point.line + 1, column: 0 }
    }
}

/// Builds [`settled`].
fn settle(term: &Term<EventProxy>, point: Point) -> (settled: Point)
    requires
        term_model(*term).wf(),
        term_model(*term).holds(point),
    ensures
        settled == self::settled(term_model(*term).text(), point),
        term_model(*term).holds(settled),
        term_model(*term).text().open_at(settled),
        settled.at_most(point),
{
    let ghost text = term_model(*term).text();
    let mut at = point;
    while !is_open(term, at)
        invariant
            text == term_model(*term).text(),
            term_model(*term).wf(),
            text.holds(at),
            at.at_most(point),
            self::settled(text, at) == self::settled(text, point),
        decreases at.line - text.topmost(), at.column,
    {
        at = cell_before(term, at);
    }
    at
}

/// Builds [`settled_on`].
fn settle_on(term: &Term<EventProxy>, point: Point) -> (settled: Point)
    requires
        term_model(*term).wf(),
        term_model(*term).holds(point),
    ensures
        settled == self::settled_on(term_model(*term).text(), point),
        term_model(*term).holds(settled),
        term_model(*term).text().open_at(settled),
{
    let ghost text = term_model(*term).text();
    let mut at = point;
    while !is_open(term, at)
        invariant
            text == term_model(*term).text(),
            term_model(*term).wf(),
            text.holds(at),
            self::settled_on(text, at) == self::settled_on(text, point),
        decreases text.bottommost() - at.line, text.columns - at.column,
    {
        at = cell_behind(term, at);
    }
    at
}

/// Builds [`settled_end`].
fn settle_end(term: &Term<EventProxy>, point: Point) -> (settled: Point)
    requires
        term_model(*term).wf(),
        term_model(*term).holds(point),
    ensures
        settled == self::settled_end(term_model(*term).text(), point),
        term_model(*term).holds(settled),
        settled.at_most(point),
{
    let ghost text = term_model(*term).text();
    let top: i32 = -((total_lines(term) - screen_lines(term)) as i32);
    let mut at = point;
    while !is_stop(term, at) && !(at.line == top && at.column == 0)
        invariant
            text == term_model(*term).text(),
            term_model(*term).wf(),
            top == text.topmost(),
            text.holds(at),
            at.at_most(point),
            self::settled_end(text, at) == self::settled_end(text, point),
        decreases at.line - text.topmost(), at.column,
    {
        at = cell_before(term, at);
    }
    at
}

/// The last cell of the character that the point lies in: a leading spacer goes
/// with the character behind it, and the two halves of a wide one together.
pub open spec fn char_end(text: GridText, point: Point) -> Point {
    let body = if point != text.last_cell() && text.at(point).has(LEADING_WIDE_CHAR_SPACER) {
        text.behind(point)
    } else {
        point
    };
    if body != text.last_cell() && text.at(text.behind(body)).has(WIDE_CHAR_SPACER) {
        text.behind(body)
    } else {
        body
    }
}

/// The first cell of the character that the point lies in.
pub open spec fn char_start(text: GridText, point: Point) -> Point {
    let body = if point != text.first_cell() && text.at(point).has(WIDE_CHAR_SPACER) {
        text.before(point)
    } else {
        point
    };
    if body != text.first_cell() && text.at(text.before(body)).has(LEADING_WIDE_CHAR_SPACER) {
        text.before(body)
    } else {
        body
    }
}

/// What the emulator finds from a point on is a match behind the point, up to
/// `end`. It may begin with the leading spacer before the point.
pub open spec fn lies_behind(text: GridText, found: SearchMatch, from: Point, end: Point) -> bool {
    &&& settled(text, from).at_most(found.start)
    &&& found.start.at_most(found.end)
    &&& from.at_most(found.end)
    &&& found.end.at_most(end)
}

/// The match without what lies before the point.
pub open spec fn cut_before(found: SearchMatch, from: Point) -> SearchMatch {
    if found.start.at_most(from) {
        SearchMatch { start: from, end: found.end }
    } else {
        found
    }
}

/// The first match from a point up to `end`. Around wide characters the emulator
/// can come upon one that lies elsewhere; the search then goes on from the next
/// cell.
pub open spec fn first_match(
    text: GridText,
    regex: RegexSearch,
    from: Point,
    end: Point,
) -> Option<SearchMatch>
    decreases text.bottommost() - from.line, text.columns - from.column,
{
    if !text.measured() || !text.holds(from) || !text.holds(end) || !from.at_most(end) {
        None
    } else {
        match match_right(text, regex, settled(text, from), end) {
            None => None,
            Some(m) => if lies_behind(text, m, from, end) {
                Some(cut_before(m, from))
            } else if from == end {
                None
            } else {
                first_match(text, regex, text.behind(from), end)
            },
        }
    }
}

/// The last match from a point back to `end`. One that lies elsewhere is passed
/// over as in [`first_match`].
pub open spec fn last_match(
    text: GridText,
    regex: RegexSearch,
    from: Point,
    end: Point,
) -> Option<SearchMatch>
    decreases from.line - text.topmost(), from.column,
{
    if !text.measured() || !text.holds(from) || !text.holds(end) || !end.at_most(from) {
        None
    } else {
        match match_left(text, regex, settled_on(text, from), end) {
            None => None,
            Some(m) => if end.at_most(m.start) && m.start.at_most(m.end) && m.end.at_most(from) {
                Some(m)
            } else if from == end {
                None
            } else {
                last_match(text, regex, text.before(from), end)
            },
        }
    }
}

/// A pattern to search for.
pub struct SearchPattern {
    regex: RegexSearch,
}

/// A pattern does not compile.
#[derive(Clone, Copy, Debug, PartialEq, Eq, Structural)]
pub struct PatternError;

impl SearchPattern {
    #[verifier::type_invariant]
    spec fn inv(self) -> bool {
        fresh(self.regex)
    }

    /// The compiled form of the pattern.
    pub closed spec fn view(self) -> RegexSearch {
        self.regex
    }

    /// Compiles a pattern.
    pub fn new(pattern: &str) -> (compiled: Result<SearchPattern, PatternError>)
        ensures
            compiled is Ok <==> self::compiled(pattern@) is Some,
            compiled is Ok ==> compiled->Ok_0@ == self::compiled(pattern@)->0,
    {
        match compile(pattern) {
            Ok(regex) => Ok(SearchPattern { regex }),
            Err(_) => Err(PatternError),
        }
    }

    /// The same pattern once more.
    pub fn copy(&self) -> (copy: SearchPattern)
        ensures
            copy@ == self@,
    {
        proof {
            use_type_invariant(self);
        }
        SearchPattern { regex: copy_regex(&self.regex) }
    }

    /// Builds [`first_match`].
    fn first(&self, term: &Term<EventProxy>, from: Point, end: Point) -> (found: Option<
        SearchMatch,
    >)
        requires
            term_model(*term).wf(),
            term_model(*term).holds(from),
            term_model(*term).holds(end),
            from.at_most(end),
            term_model(*term).text().open_at(end),
        ensures
            found == first_match(term_model(*term).text(), self@, from, end),
            found matches Some(m) ==> from.at_most(m.start) && m.start.at_most(m.end)
                && m.end.at_most(end) && term_model(*term).holds(m.start) && term_model(
                *term,
            ).holds(m.end),
    {
        proof {
            use_type_invariant(self);
        }
        let ghost text = term_model(*term).text();
        let mut at = from;
        loop
            invariant
                term_model(*term).wf(),
                text == term_model(*term).text(),
                fresh(self.regex),
                text.holds(at),
                text.holds(end),
                from.at_most(at),
                at.at_most(end),
                text.open_at(end),
                first_match(text, self@, at, end) == first_match(text, self@, from, end),
            decreases text.bottommost() - at.line, text.columns - at.column,
        {
            let start = settle(term, at);
            match search_right(term, copy_regex(&self.regex), start, end) {
                None => {
                    return None;
                },
                Some(m) => {
                    if start.is_at_most(&m.start) && m.start.is_at_most(&m.end) && at.is_at_most(
                        &m.end,
                    ) && m.end.is_at_most(&end) {
                        return if m.start.is_at_most(&at) {
                            Some(SearchMatch { start: at, end: m.end })
                        } else {
                            Some(m)
                        };
                    }
                },
            }
            if at == end {
                return None;
            }
            at = cell_behind(term, at);
        }
    }

    /// Builds [`last_match`].
    fn last(&self, term: &Term<EventProxy>, from: Point, end: Point) -> (found: Option<
        SearchMatch,
    >)
        requires
            term_model(*term).wf(),
            term_model(*term).holds(from),
            term_model(*term).holds(end),
            end.at_most(from),
            term_model(*term).text().open_at(end),
        ensures
            found == last_match(term_model(*term).text(), self@, from, end),
    {
        proof {
            use_type_invariant(self);
        }
        let ghost text = term_model(*term).text();
        let mut at = from;
        loop
            invariant
                term_model(*term).wf(),
                text == term_model(*term).text(),
                fresh(self.regex),
                text.holds(at),
                text.holds(end),
                end.at_most(at),
                text.open_at(end),
                last_match(text, self@, at, end) == last_match(text, self@, from, end),
            decreases at.line - text.topmost(), at.column,
        {
            let start = settle_on(term, at);
            match search_left(term, copy_regex(&self.regex), start, end) {
                None => {
                    return None;
                },
                Some(m) => {
                    if end.is_at_most(&m.start) && m.start.is_at_most(&m.end) && m.end.is_at_most(
                        &at,
                    ) {
                        return Some(m);
                    }
                },
            }
            if at == end {
                return None;
            }
            at = cell_before(term, at);
        }
    }

    /// Builds [`span_matches`], behind what has been found before.
    fn collect(
        &self,
        term: &Term<EventProxy>,
        from: Point,
        end: Point,
        until: Point,
        found: &mut Vec<SearchMatch>,
    )
        requires
            term_model(*term).wf(),
            term_model(*term).holds(from),
            term_model(*term).holds(end),
            from.at_most(end),
            term_model(*term).text().open_at(end),
            all_in_grid(term_model(*term), old(found)@),
        ensures
            final(found)@ == old(found)@ + span_matches(
                term_model(*term).text(),
                self@,
                from,
                end,
                until,
            ),
            all_in_grid(term_model(*term), final(found)@),
    {
        let ghost text = term_model(*term).text();
        let ghost before = found@;
        let ghost wanted = span_matches(text, self@, from, end, until);
        let mut at = from;
        loop
            invariant
                term_model(*term).wf(),
                text == term_model(*term).text(),
                text.holds(at),
                text.holds(end),
                at.at_most(end),
                text.open_at(end),
                all_in_grid(term_model(*term), found@),
                before == old(found)@,
                wanted == span_matches(text, self@, from, end, until),
                before + wanted == found@ + span_matches(text, self@, at, end, until),
            decreases text.bottommost() - at.line, text.columns - at.column,
        {
            let ghost here = found@;
            let ghost tail = span_matches(text, self@, at, end, until);
            match self.first(term, at, end) {
                None => {
                    assert(tail == Seq::<SearchMatch>::empty());
                    assert(found@ == before + wanted);
                    return ;
                },
                Some(m) => {
                    if !m.start.is_at_most(&until) {
                        assert(tail == Seq::<SearchMatch>::empty());
                        assert(found@ == before + wanted);
                        return ;
                    }
                    found.push(m);
                    if m.end == end {
                        assert(tail == seq![m]);
                        assert(found@ == here + tail);
                        return ;
                    }
                    let next = cell_behind(term, m.end);
                    let ghost rest = span_matches(text, self@, next, end, until);
                    assert(tail == seq![m] + rest);
                    assert(here + tail == found@ + rest);
                    at = next;
                },
            }
        }
    }
}

/// Both ends of every match lie in the grid.
pub open spec fn all_in_grid(model: TermModel, found: Seq<SearchMatch>) -> bool {
    forall|i: int|
        0 <= i < found.len() ==> model.holds((#[trigger] found[i]).start) && model.holds(
            found[i].end,
        )
}

/// The matches from a point up to `end` that begin no later than `until`, each
/// looked for behind the one before.
pub open spec fn span_matches(
    text: GridText,
    regex: RegexSearch,
    from: Point,
    end: Point,
    until: Point,
) -> Seq<SearchMatch>
    decreases text.bottommost() - from.line, text.columns - from.column,
{
    match first_match(text, regex, from, end) {
        None => Seq::empty(),
        Some(m) => if !m.start.at_most(until) {
            Seq::empty()
        } else if !text.holds(from) || !text.holds(end) || !from.at_most(m.end) || !m.end.at_most(
            end,
        ) || m.end == end {
            seq![m]
        } else {
            seq![m] + span_matches(text, regex, text.behind(m.end), end, until)
        },
    }
}

/// The matches of the text from a point to the end of the line `last` that begin no
/// later than `until`. Where the search has nowhere to stop, there are none.
pub open spec fn text_matches(
    text: GridText,
    regex: RegexSearch,
    from: Point,
    last: int,
    until: Point,
) -> Seq<SearchMatch> {
    let end = settled_end(
        text,
        Point { line: last as i32, column: (text.columns - 1) as usize },
    );
    if text.stops_at(end) && from.at_most(end) {
        span_matches(text, regex, from, end, until)
    } else {
        Seq::empty()
    }
}

/// The last line, up to `last`, of the text that goes on from line to line.
pub open spec fn text_end(text: GridText, line: int, last: int) -> int
    decreases last - line,
{
    if line < last && text.wraps(line) {
        text_end(text, line + 1, last)
    } else {
        line
    }
}

/// The matches on the lines from `first` to `last`: text that goes on from line to
/// line is searched as one, and apart from what stands above and below it.
pub open spec fn line_matches(
    text: GridText,
    regex: RegexSearch,
    first: int,
    last: int,
) -> Seq<SearchMatch>
    decreases last - first + 1,
{
    if first > last {
        Seq::empty()
    } else {
        let end = text_end(text, first, last);
        let found = text_matches(
            text,
            regex,
            Point { line: first as i32, column: 0 },
            end,
            Point { line: end as i32, column: (text.columns - 1) as usize },
        );
        if end < first || end >= last {
            found
        } else {
            found + line_matches(text, regex, end + 1, last)
        }
    }
}

/// Searches the text on some lines, see [`text_matches`].
fn collect_text(
    term: &Term<EventProxy>,
    pattern: &SearchPattern,
    from: Point,
    last: i32,
    until: Point,
    found: &mut Vec<SearchMatch>,
)
    requires
        term_model(*term).wf(),
        term_model(*term).holds(from),
        term_model(*term).covers(last as int, 0),
        all_in_grid(term_model(*term), old(found)@),
    ensures
        final(found)@ == old(found)@ + text_matches(
            term_model(*term).text(),
            pattern@,
            from,
            last as int,
            until,
        ),
        all_in_grid(term_model(*term), final(found)@),
{
    let end = settle_end(term, Point { line: last, column: columns(term) - 1 });
    if is_stop(term, end) && from.is_at_most(&end) {
        pattern.collect(term, from, end, until, found);
    } else {
        assert(found@ == old(found)@ + Seq::<SearchMatch>::empty());
    }
}

pub(crate) proof fn lemma_text_end(text: GridText, line: int, last: int)
    requires
        line <= last,
    ensures
        line <= text_end(text, line, last) <= last,
    decreases last - line,
{
    if line < last && text.wraps(line) {
        lemma_text_end(text, line + 1, last);
    }
}

/// Builds [`line_matches`].
fn search_lines(term: &Term<EventProxy>, pattern: &SearchPattern, first: i32, last: i32) -> (found:
    Vec<SearchMatch>)
    requires
        term_model(*term).wf(),
        term_model(*term).covers(first as int, 0),
        term_model(*term).covers(last as int, 0),
        first <= last,
    ensures
        found@ == line_matches(term_model(*term).text(), pattern@, first as int, last as int),
        all_in_grid(term_model(*term), found@),
{
    let ghost model = term_model(*term);
    let ghost text = model.text();
    let last_col: usize = columns(term) - 1;
    let mut found: Vec<SearchMatch> = Vec::new();
    let mut line: i64 = first as i64;
    while line <= last as i64
        invariant
            model == term_model(*term),
            text == model.text(),
            model.wf(),
            last_col == model.columns - 1,
            model.covers(first as int, 0),
            model.covers(last as int, 0),
            first <= line <= last + 1,
            all_in_grid(model, found@),
            line_matches(text, pattern@, first as int, last as int) == found@ + line_matches(
                text,
                pattern@,
                line as int,
                last as int,
            ),
        decreases last + 1 - line,
    {
        let start: i32 = line as i32;
        let mut end: i32 = start;
        while end < last && cell(term, end, last_col).contains(WRAPLINE)
            invariant
                model == term_model(*term),
                text == model.text(),
                model.wf(),
                last_col == model.columns - 1,
                model.covers(start as int, 0),
                model.covers(last as int, 0),
                start <= end <= last,
                text_end(text, start as int, last as int) == text_end(
                    text,
                    end as int,
                    last as int,
                ),
            decreases last - end,
        {
            end = end + 1;
        }
        let ghost here = found@;
        collect_text(
            term,
            pattern,
            Point { line: start, column: 0 },
            end,
            Point { line: end, column: last_col },
            &mut found,
        );
        proof {
            lemma_text_end(text, start as int, last as int);
        }
        assert(found@ + line_matches(text, pattern@, end + 1, last as int) == here + line_matches(
            text,
            pattern@,
            start as int,
            last as int,
        ));
        line = end as i64 + 1;
    }
    found
}

/// Every match in the buffer.
pub open spec fn whole_matches(text: GridText, regex: RegexSearch) -> Seq<SearchMatch> {
    line_matches(text, regex, text.topmost(), text.bottommost())
}

/// Every match in the buffer, from its first cell to its last, in order.
pub fn search_all_in_term(term: &Term<EventProxy>, pattern: &SearchPattern) -> (found: Vec<
    SearchMatch,
>)
    requires
        term_model(*term).wf(),
    ensures
        found@ == whole_matches(term_model(*term).text(), pattern@),
        all_in_grid(term_model(*term), found@),
{
    let screen: usize = screen_lines(term);
    let history: usize = total_lines(term) - screen;
    search_lines(term, pattern, -(history as i32), screen as i32 - 1)
}

/// The next match behind the character at the point of the grid nearest to
/// `from`, up to the end of the buffer.
pub open spec fn next_match(model: TermModel, regex: RegexSearch, from: Point) -> Option<
    SearchMatch,
> {
    let text = model.text();
    let anchor = char_end(text, clamped(model, from));
    if anchor == text.last_cell() {
        None
    } else {
        first_match(text, regex, text.behind(anchor), text.last_cell())
    }
}

/// The next match before the character at the point of the grid nearest to
/// `from`, back to the start of the buffer.
pub open spec fn previous_match(model: TermModel, regex: RegexSearch, from: Point) -> Option<
    SearchMatch,
> {
    let text = model.text();
    let anchor = char_start(text, clamped(model, from));
    if anchor == text.first_cell() {
        None
    } else {
        last_match(text, regex, text.before(anchor), text.first_cell())
    }
}

/// The next match behind `from`, up to the end of the buffer.
pub fn next_match_after(term: &Term<EventProxy>, pattern: &SearchPattern, from: Point) -> (found:
    Option<SearchMatch>)
    requires
        term_model(*term).wf(),
    ensures
        found == next_match(term_model(*term), pattern@, from),
{
    let mut anchor = clamp_to_grid(term, from);
    let last = Point { line: screen_lines(term) as i32 - 1, column: columns(term) - 1 };
    if anchor != last && cell(term, anchor.line, anchor.column).contains(LEADING_WIDE_CHAR_SPACER) {
        anchor = cell_behind(term, anchor);
    }
    if anchor == last {
        return None;
    }
    let mut next = cell_behind(term, anchor);
    if cell(term, next.line, next.column).contains(WIDE_CHAR_SPACER) {
        if next == last {
            return None;
        }
        next = cell_behind(term, next);
    }
    pattern.first(term, next, last)
}

/// The next match before `from`, back to the start of the buffer.
pub fn prev_match_before(term: &Term<EventProxy>, pattern: &SearchPattern, from: Point) -> (found:
    Option<SearchMatch>)
    requires
        term_model(*term).wf(),
    ensures
        found == previous_match(term_model(*term), pattern@, from),
{
    let mut anchor = clamp_to_grid(term, from);
    let history: usize = total_lines(term) - screen_lines(term);
    let first = Point { line: -(history as i32), column: 0 };
    if anchor != first && cell(term, anchor.line, anchor.column).contains(WIDE_CHAR_SPACER) {
        anchor = cell_before(term, anchor);
    }
    if anchor == first {
        return None;
    }
    let mut previous = cell_before(term, anchor);
    if cell(term, previous.line, previous.column).contains(LEADING_WIDE_CHAR_SPACER) {
        if previous == first {
            return None;
        }
        previous = cell_before(term, previous);
    }
    pattern.last(term, previous, first)
}

/// The matches without those at the front that end above line `first`.
pub open spec fn from_line(found: Seq<SearchMatch>, first: int) -> Seq<SearchMatch>
    decreases found.len(),
{
    if found.len() > 0 && found[0].end.line < first {
        from_line(found.drop_first(), first)
    } else {
        found
    }
}

/// The matches up to the first that begins below line `last`.
pub open spec fn to_line(found: Seq<SearchMatch>, last: int) -> Seq<SearchMatch>
    decreases found.len(),
{
    if found.len() > 0 && found[0].start.line <= last {
        seq![found[0]] + to_line(found.drop_first(), last)
    } else {
        Seq::empty()
    }
}

/// The first line that a search of the viewport takes in: that of the wrapped text
/// around the viewport's first line, at most [`SCAN_PADDING`] lines above it.
pub open spec fn scan_first(model: TermModel) -> int {
    let first = model.viewport_start();
    let wrapped = model.wrap_start(first);
    if wrapped < first - SCAN_PADDING {
        first - SCAN_PADDING
    } else {
        wrapped
    }
}

/// The last line that a search of the viewport takes in.
pub open spec fn scan_last(model: TermModel) -> int {
    let last = model.viewport_end();
    let wrapped = model.wrap_end(last);
    if wrapped > last + SCAN_PADDING {
        last + SCAN_PADDING
    } else {
        wrapped
    }
}

/// The matches that show in the viewport: the list of those on the lines that are
/// taken in begins with the first that ends no higher than the viewport, and stops
/// before the first after it that begins below.
pub open spec fn visible_matches(model: TermModel, regex: RegexSearch) -> Seq<SearchMatch> {
    to_line(
        from_line(
            line_matches(model.text(), regex, scan_first(model), scan_last(model)),
            model.viewport_start(),
        ),
        model.viewport_end(),
    )
}

/// Wrapped text begins in the grid, no later than any of its lines.
pub(crate) proof fn lemma_wrap_start(model: TermModel, line: int)
    requires
        model.topmost() <= line,
    ensures
        model.topmost() <= model.wrap_start(line) <= line,
    decreases line - model.topmost(),
{
    if line > model.topmost() && model.wraps(line - 1) {
        lemma_wrap_start(model, line - 1);
    }
}

/// Wrapped text ends in the grid, no earlier than any of its lines.
pub(crate) proof fn lemma_wrap_end(model: TermModel, line: int)
    requires
        line <= model.bottommost(),
    ensures
        line <= model.wrap_end(line) <= model.bottommost(),
    decreases model.bottommost() - line,
{
    if line < model.bottommost() && model.wraps(line) {
        lemma_wrap_end(model, line + 1);
    }
}

/// The matches that show in the viewport.
pub fn visible_regex_match_iter(term: &Term<EventProxy>, pattern: &SearchPattern) -> (found: Vec<
    SearchMatch,
>)
    requires
        term_model(*term).wf(),
    ensures
        found@ == visible_matches(term_model(*term), pattern@),
        all_in_grid(term_model(*term), found@),
{
    let ghost model = term_model(*term);
    let first: i32 = -(display_offset(term) as i32);
    let last: i32 = first + (screen_lines(term) as i32 - 1);
    let mut start: i32 = line_search_left(term, first).line;
    let mut end: i32 = line_search_right(term, last).line;
    proof {
        lemma_wrap_start(model, first as int);
        lemma_wrap_end(model, last as int);
    }
    if (start as i64) < first as i64 - SCAN_PADDING as i64 {
        start = first - SCAN_PADDING;
    }
    if end as i64 > last as i64 + SCAN_PADDING as i64 {
        end = last + SCAN_PADDING;
    }
    let read = search_lines(term, pattern, start, end);
    let mut at: usize = 0;
    assert(read@.skip(0) == read@);
    while at < read.len() && read[at].end.line < first
        invariant
            at <= read@.len(),
            from_line(read@.skip(at as int), first as int) == from_line(read@, first as int),
        decreases read@.len() - at,
    {
        assert(read@.skip(at as int).drop_first() == read@.skip(at + 1));
        at = at + 1;
    }
    let ghost rest = read@.skip(at as int);
    assert(from_line(rest, first as int) == rest);
    let mut found: Vec<SearchMatch> = Vec::new();
    while at < read.len() && read[at].start.line <= last
        invariant
            at <= read@.len(),
            found@ + to_line(read@.skip(at as int), last as int) == to_line(rest, last as int),
            all_in_grid(model, read@),
            all_in_grid(model, found@),
        decreases read@.len() - at,
    {
        let ghost left = read@.skip(at as int);
        assert(left.drop_first() == read@.skip(at + 1));
        assert(left[0] == read@[at as int]);
        assert(found@.push(left[0]) + to_line(left.drop_first(), last as int) == found@ + to_line(
            left,
            last as int,
        ));
        found.push(read[at]);
        at = at + 1;
    }
    found
}

/// `found` is the first of `all` that covers the point, if any does.
pub open spec fn first_covering(
    all: Seq<SearchMatch>,
    point: Point,
    found: Option<SearchMatch>,
) -> bool {
    match found {
        Some(m) => exists|i: int|
            0 <= i < all.len() && #[trigger] all[i] == m && m.has(point) && (forall|j: int|
                0 <= j < i ==> !(#[trigger] all[j]).has(point)),
        None => forall|j: int| 0 <= j < all.len() ==> !(#[trigger] all[j]).has(point),
    }
}

/// The first of `all` that covers the point.
pub fn find_covering(all: &Vec<SearchMatch>, point: Point) -> (found: Option<SearchMatch>)
    ensures
        first_covering(all@, point, found),
{
    let mut i: usize = 0;
    while i < all.len()
        invariant
            i <= all@.len(),
            forall|j: int| 0 <= j < i ==> !(#[trigger] all@[j]).has(point),
        decreases all@.len() - i,
    {
        if all[i].contains(&point) {
            return Some(all[i]);
        }
        i = i + 1;
    }
    None
}

/// The match in the viewport that the point lies in.
pub fn regex_match_at(term: &Term<EventProxy>, point: Point, pattern: &SearchPattern) -> (found:
    Option<SearchMatch>)
    requires
        term_model(*term).wf(),
    ensures
        first_covering(visible_matches(term_model(*term), pattern@), point, found),
        found matches Some(m) ==> m.has(point) && term_model(*term).holds(m.start)
            && term_model(*term).holds(m.end),
{
    let all = visible_regex_match_iter(term, pattern);
    find_covering(&all, point)
}

/// The matches of the rows from `line` to `last` that begin in the columns from
/// `min_col` to `max_col`, one row after the other. A match may go on beyond
/// `max_col`, up to the end of the row.
pub open spec fn band_matches(
    text: GridText,
    regex: RegexSearch,
    line: int,
    last: int,
    min_col: usize,
    max_col: usize,
) -> Seq<SearchMatch>
    decreases last - line + 1,
{
    if line > last {
        Seq::empty()
    } else {
        text_matches(
            text,
            regex,
            Point { line: line as i32, column: min_col },
            line,
            Point { line: line as i32, column: max_col },
        ) + band_matches(text, regex, line + 1, last, min_col, max_col)
    }
}

/// The first line of the viewport and `padding` lines more, as far as the
/// buffer goes.
pub open spec fn band_first(model: TermModel, padding: int) -> int {
    if model.viewport_start() - padding < model.topmost() {
        model.topmost()
    } else {
        model.viewport_start() - padding
    }
}

/// The last line of the viewport and `padding` lines more, as far as the
/// buffer goes.
pub open spec fn band_last(model: TermModel, padding: int) -> int {
    if model.viewport_end() + padding > model.bottommost() {
        model.bottommost()
    } else {
        model.viewport_end() + padding
    }
}

/// The matches that begin in the columns from `min_col` to `max_col` of the
/// viewport's rows, and of `line_padding` rows above and below it, in order. A
/// match may extend past `max_col`. The rows are searched each by itself.
pub fn visible_regex_match_iter_in_cols(
    term: &Term<EventProxy>,
    pattern: &SearchPattern,
    min_col: usize,
    max_col: usize,
    line_padding: i32,
) -> (found: Vec<SearchMatch>)
    requires
        term_model(*term).wf(),
        min_col < term_model(*term).columns,
    ensures
        found@ == band_matches(
            term_model(*term).text(),
            pattern@,
            band_first(term_model(*term), line_padding as int),
            band_last(term_model(*term), line_padding as int),
            min_col,
            max_col,
        ),
        all_in_grid(term_model(*term), found@),
{
    let ghost model = term_model(*term);
    let screen: usize = screen_lines(term);
    let history: usize = total_lines(term) - screen;
    let viewport_start: i64 = -(display_offset(term) as i64);
    let bottom: i64 = screen as i64 - 1;
    let viewport_end: i64 = viewport_start + bottom;
    let top: i64 = -(history as i64);
    let padding: i64 = line_padding as i64;
    let first: i64 = if viewport_start - padding < top {
        top
    } else {
        viewport_start - padding
    };
    let last: i64 = if viewport_end + padding > bottom {
        bottom
    } else {
        viewport_end + padding
    };
    let ghost text = model.text();
    let ghost wanted = band_matches(text, pattern@, first as int, last as int, min_col, max_col);
    let mut found: Vec<SearchMatch> = Vec::new();
    let mut line: i64 = first;
    while line <= last
        invariant
            model == term_model(*term),
            model.wf(),
            text == model.text(),
            min_col < model.columns,
            first == band_first(model, line_padding as int),
            last == band_last(model, line_padding as int),
            first <= line,
            first <= last ==> line <= last + 1,
            first > last ==> line == first,
            all_in_grid(model, found@),
            wanted == found@ + band_matches(
                text,
                pattern@,
                line as int,
                last as int,
                min_col,
                max_col,
            ),
        decreases last - line + 1,
    {
        let ghost here = found@;
        let ghost tail = band_matches(text, pattern@, line as int, last as int, min_col, max_col);
        let row: i32 = line as i32;
        collect_text(
            term,
            pattern,
            Point { line: row, column: min_col },
            row,
            Point { line: row, column: max_col },
            &mut found,
        );
        assert(here + tail == found@ + band_matches(
            text,
            pattern@,
            line + 1,
            last as int,
            min_col,
            max_col,
        ));
        line = line + 1;
    }
    found
}

/// The characters behind a cell in reading order, up to the cell `end` or, if
/// that does not come, the end of the grid.
pub open spec fn text_behind(model: TermModel, line: int, column: int, end: Point) -> Seq<char>
    decreases model.bottommost() - line, model.columns - column,
{
    if line > model.bottommost() || line == model.bottommost() && column >= model.columns - 1 {
        Seq::empty()
    } else {
        let (l, c) = if column >= model.columns - 1 {
            (line + 1, 0)
        } else {
            (line, column + 1)
        };
        if l == end.line && c == end.column {
            seq![model.cell(l, c).c]
        } else {
            seq![model.cell(l, c).c] + text_behind(model, l, c, end)
        }
    }
}

/// The text of a link: the cells from its start to its end.
pub open spec fn link_chars(model: TermModel, link: SearchMatch) -> Seq<char> {
    let first = seq![model.cell(link.start.line as int, link.start.column as int).c];
    if link.start == link.end {
        first
    } else {
        first + text_behind(
            model,
            link.start.line as int,
            link.start.column as int,
            link.end,
        )
    }
}

/// Reads the text of a link off the grid.
pub fn link_text(term: &Term<EventProxy>, link: &SearchMatch) -> (url: String)
    requires
        term_model(*term).wf(),
        term_model(*term).holds(link.start),
    ensures
        url@ == link_chars(term_model(*term), *link),
{
    let ghost model = term_model(*term);
    let bottom: i32 = screen_lines(term) as i32 - 1;
    let last_col: usize = columns(term) - 1;
    let mut url = String::new();
    let mut line: i32 = link.start.line;
    let mut column: usize = link.start.column;
    url.push(cell(term, line, column).c);
    let mut done: bool = link.start == link.end;
    assert(url@ == seq![model.cell(line as int, column as int).c]);
    while !done && (line < bottom || column < last_col)
        invariant
            model == term_model(*term),
            model.wf(),
            bottom == model.bottommost(),
            last_col == model.columns - 1,
            model.covers(line as int, column as int),
            !done ==> url@ + text_behind(model, line as int, column as int, link.end)
                == link_chars(model, *link),
            done ==> url@ == link_chars(model, *link),
        decreases
                (if done {
                    0int
                } else {
                    1int
                }),
                bottom - line,
                last_col - column,
    {
        let ghost behind = text_behind(model, line as int, column as int, link.end);
        let ghost here = url@;
        if column >= last_col {
            column = 0;
            line = line + 1;
        } else {
            column = column + 1;
        }
        let c = cell(term, line, column).c;
        url.push(c);
        if line == link.end.line && column == link.end.column {
            done = true;
            assert(behind == seq![c]);
            assert(url@ == here + behind);
        } else {
            let ghost rest = text_behind(model, line as int, column as int, link.end);
            assert(behind == seq![c] + rest);
            assert(url@ + rest == here + behind);
        }
    }
    url
}

} // verus!
