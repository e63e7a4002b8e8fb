//! What holds of the text that is read off the grid.

use alacritty_terminal::term::Term;
use vstd::prelude::*;

use crate::backend::TerminalBackend;
use crate::geometry::SelectionRange;
use crate::laws::law_trimming_cuts_white_space_only;
use crate::terminal::{term_model, EventProxy, TermModel};
use crate::text::{
    full_lines, full_text, is_white_space, row_text, selected_lines, selection_text, trimmed,
    white_space, without_blank_tail,
};

verus! {

/// The last cell of a line is marked as going on in the next line.
pub open spec fn goes_on(model: TermModel, line: int) -> bool {
    model.cells[(line, model.columns - 1)].flags & 0x10 == 0x10
}

/// The code points of white space.
pub open spec fn is_blank(c: char) -> bool {
    ||| c == '\t' || c == '\n' || c == '\u{b}' || c == '\u{c}' || c == '\r' || c == ' '
    ||| c == '\u{85}' || c == '\u{a0}' || c == '\u{1680}' || c == '\u{2028}' || c == '\u{2029}'
    ||| c == '\u{202f}' || c == '\u{205f}' || c == '\u{3000}'
    ||| '\u{2000}' <= c <= '\u{200a}'
}

/// `piece` holds the characters of a line from column `from` on, up to the last
/// before column `to` that is no white space.
pub open spec fn is_piece(
    model: TermModel,
    line: int,
    from: int,
    to: int,
    piece: Seq<char>,
) -> bool {
    &&& piece.len() == 0 || from + piece.len() <= to
    &&& forall|k: int|
        0 <= k < piece.len() ==> #[trigger] piece[k] == model.cells[(line, from + k)].c
    &&& piece.len() > 0 ==> !is_blank(piece.last())
    &&& forall|column: int|
        from + piece.len() <= column < to ==> is_blank(#[trigger] model.cells[(line, column)].c)
}

/// The pieces one after the other, with a line break behind those that `broken`
/// names.
pub open spec fn lines_joined(pieces: Seq<Seq<char>>, broken: spec_fn(int) -> bool) -> Seq<char>
    decreases pieces.len(),
{
    if pieces.len() == 0 {
        Seq::empty()
    } else {
        let before = lines_joined(pieces.drop_last(), broken) + pieces.last();
        if broken(pieces.len() - 1) {
            before.push('\n')
        } else {
            before
        }
    }
}

/// How many line breaks there are.
pub open spec fn line_breaks(text: Seq<char>) -> nat
    decreases text.len(),
{
    if text.len() == 0 {
        0
    } else {
        line_breaks(text.drop_last()) + (if text.last() == '\n' {
            1nat
        } else {
            0
        })
    }
}

/// How many of the lines from `first` up to, but without, `end` do not go on in
/// the next line.
pub open spec fn lines_ended(model: TermModel, first: int, end: int) -> nat
    decreases end - first,
{
    if first >= end {
        0
    } else {
        lines_ended(model, first, end - 1) + (if goes_on(model, end - 1) {
            0nat
        } else {
            1
        })
    }
}

/// What stands between the line breaks.
pub open spec fn split(text: Seq<char>) -> Seq<Seq<char>>
    decreases text.len(),
{
    if text.len() == 0 {
        seq![Seq::empty()]
    } else {
        let before = split(text.drop_last());
        if text.last() == '\n' {
            before.push(Seq::empty())
        } else {
            before.drop_last().push(before.last().push(text.last()))
        }
    }
}

/// No cell of the grid holds a line break.
pub open spec fn holds_no_break(model: TermModel) -> bool {
    forall|line: int, column: int|
        model.screen_lines - model.total_lines <= line < model.screen_lines && 0 <= column
            < model.columns ==> #[trigger] model.cells[(line, column)].c != '\n'
}

/// The selection has lines, they lie in the grid, and so does its last column.
pub open spec fn lies_in_grid(model: TermModel, range: SelectionRange) -> bool {
    &&& model.screen_lines - model.total_lines <= range.start.line <= range.end.line
        < model.screen_lines
    &&& range.end.column < model.columns
}

/// White space is what Unicode says it is.
pub proof fn law_white_space_is_that_of_unicode(c: char, b: bool)
    requires
        call_ensures(is_white_space, (c,), b),
    ensures
        b == is_blank(c),
        white_space(c) == is_blank(c),
{
}

proof fn lemma_piece(model: TermModel, line: int, from: int, to: int)
    ensures
        is_piece(model, line, from, to, trimmed(row_text(model, line, from, to))),
{
    let row = row_text(model, line, from, to);
    let piece = trimmed(row);
    law_trimming_cuts_white_space_only(row);
    assert forall|column: int| from + piece.len() <= column < to implies is_blank(
        #[trigger] model.cells[(line, column)].c,
    ) by {
        assert(row[column - from] == model.cells[(line, column)].c);
    }
}

proof fn lemma_selected_lines(model: TermModel, range: SelectionRange, last: int) -> (pieces: Seq<
    Seq<char>,
>)
    requires
        range.start.line - 1 <= last <= range.end.line,
        range.start.line <= range.end.line,
    ensures
        pieces.len() == last - range.start.line + 1,
        forall|i: int|
            0 <= i < pieces.len() ==> is_piece(
                model,
                range.start.line + i,
                if i == 0 {
                    range.start.column as int
                } else {
                    0
                },
                if range.start.line + i == range.end.line {
                    range.end.column + 1
                } else {
                    model.columns as int
                },
                #[trigger] pieces[i],
            ),
        selected_lines(model, range, last) == lines_joined(
            pieces,
            |i: int| range.start.line + i < range.end.line && !goes_on(model, range.start.line + i),
        ),
    decreases last - range.start.line + 1,
{
    if last < range.start.line {
        Seq::empty()
    } else {
        let before = lemma_selected_lines(model, range, last - 1);
        let from = if last == range.start.line {
            range.start.column as int
        } else {
            0
        };
        let to = if last == range.end.line {
            range.end.column + 1
        } else {
            model.columns as int
        };
        let piece = trimmed(row_text(model, last, from, to));
        lemma_piece(model, last, from, to);
        let pieces = before.push(piece);
        assert(pieces.drop_last() =~= before);
        pieces
    }
}

/// The text of a selection has one piece for every line of it: the selected
/// cells without the white space at their end. A line break stands behind a piece
/// if, and only if, there is a next line and the line does not go on in it.
pub proof fn law_a_selection_reads_line_by_line(
    term: &Term<EventProxy>,
    range: &SelectionRange,
    text: String,
) -> (pieces: Seq<Seq<char>>)
    requires
        range.start.line <= range.end.line,
        call_ensures(selection_text, (term, range), text),
    ensures
        ({
            let model = term_model(*term);
            &&& pieces.len() == range.end.line - range.start.line + 1
            &&& forall|i: int|
                0 <= i < pieces.len() ==> is_piece(
                    model,
                    range.start.line + i,
                    if i == 0 {
                        range.start.column as int
                    } else {
                        0
                    },
                    if i == pieces.len() - 1 {
                        range.end.column + 1
                    } else {
                        model.columns as int
                    },
                    #[trigger] pieces[i],
                )
            &&& text@ == lines_joined(
                pieces,
                |i: int|
                    range.start.line + i < range.end.line && !goes_on(model, range.start.line + i),
            )
        }),
{
    lemma_selected_lines(term_model(*term), *range, range.end.line as int)
}

proof fn lemma_breaks_of_both(a: Seq<char>, b: Seq<char>)
    ensures
        line_breaks(a + b) == line_breaks(a) + line_breaks(b),
    decreases b.len(),
{
    if b.len() == 0 {
        assert(a + b =~= a);
    } else {
        lemma_breaks_of_both(a, b.drop_last());
        assert((a + b).drop_last() =~= a + b.drop_last());
    }
}

proof fn lemma_no_breaks(text: Seq<char>)
    requires
        forall|k: int| 0 <= k < text.len() ==> #[trigger] text[k] != '\n',
    ensures
        line_breaks(text) == 0,
    decreases text.len(),
{
    if text.len() > 0 {
        lemma_no_breaks(text.drop_last());
    }
}

proof fn lemma_push_break(text: Seq<char>)
    ensures
        line_breaks(text.push('\n')) == line_breaks(text) + 1,
{
    assert(text.push('\n').drop_last() =~= text);
}

proof fn lemma_breaks_joined(
    model: TermModel,
    first: int,
    pieces: Seq<Seq<char>>,
    broken: spec_fn(int) -> bool,
)
    requires
        forall|i: int, k: int|
            0 <= i < pieces.len() && 0 <= k < pieces[i].len() ==> #[trigger] pieces[i][k] != '\n',
        forall|i: int| 0 <= i < pieces.len() ==> #[trigger] broken(i) == !goes_on(model, first + i),
    ensures
        line_breaks(lines_joined(pieces, broken)) == lines_ended(
            model,
            first,
            first + pieces.len(),
        ),
    decreases pieces.len(),
{
    if pieces.len() > 0 {
        let before = pieces.drop_last();
        assert forall|i: int, k: int| 0 <= i < before.len() && 0 <= k < before[i].len() implies
            #[trigger] before[i][k] != '\n' by {
            assert(before[i] == pieces[i]);
            assert(pieces[i][k] != '\n');
        }
        lemma_breaks_joined(model, first, before, broken);
        let last = pieces.last();
        assert forall|k: int| 0 <= k < last.len() implies #[trigger] last[k] != '\n' by {
            assert(pieces[pieces.len() - 1][k] != '\n');
        }
        lemma_no_breaks(last);
        lemma_breaks_of_both(lines_joined(before, broken), last);
        lemma_push_break(lines_joined(before, broken) + last);
        assert(broken(pieces.len() - 1) == !goes_on(model, first + (pieces.len() - 1)));
    }
}

/// The text of a selection has as many line breaks as there are lines, from its
/// first up to, but without, its last, that do not go on in the next line.
pub proof fn law_a_selection_breaks_where_lines_end(
    term: &Term<EventProxy>,
    range: &SelectionRange,
    text: String,
)
    requires
        lies_in_grid(term_model(*term), *range),
        holds_no_break(term_model(*term)),
        call_ensures(selection_text, (term, range), text),
    ensures
        line_breaks(text@) == lines_ended(
            term_model(*term),
            range.start.line as int,
            range.end.line as int,
        ),
{
    let model = term_model(*term);
    let pieces = law_a_selection_reads_line_by_line(term, range, text);
    let broken = |i: int|
        range.start.line + i < range.end.line && !goes_on(model, range.start.line + i);
    let before = pieces.drop_last();
    assert forall|i: int, k: int| 0 <= i < pieces.len() && 0 <= k < pieces[i].len() implies
        #[trigger] pieces[i][k] != '\n' by {
        let from = if i == 0 {
            range.start.column as int
        } else {
            0
        };
        assert(pieces[i][k] == model.cells[(range.start.line + i, from + k)].c);
    }
    assert forall|i: int, k: int| 0 <= i < before.len() && 0 <= k < before[i].len() implies
        #[trigger] before[i][k] != '\n' by {
        assert(pieces[i][k] != '\n');
    }
    lemma_breaks_joined(model, range.start.line as int, before, broken);
    let last = pieces.last();
    assert forall|k: int| 0 <= k < last.len() implies #[trigger] last[k] != '\n' by {
        assert(pieces[pieces.len() - 1][k] != '\n');
    }
    lemma_no_breaks(last);
    lemma_breaks_of_both(lines_joined(before, broken), last);
    assert(!broken(pieces.len() - 1));
}

proof fn lemma_split_behind(a: Seq<char>, b: Seq<char>)
    requires
        forall|k: int| 0 <= k < b.len() ==> #[trigger] b[k] != '\n',
    ensures
        split(a.push('\n') + b) == split(a).push(b),
    decreases b.len(),
{
    let all = a.push('\n') + b;
    if b.len() == 0 {
        assert(all =~= a.push('\n'));
        assert(all.drop_last() =~= a);
        assert(b =~= Seq::empty());
    } else {
        let less = b.drop_last();
        lemma_split_behind(a, less);
        assert(all.drop_last() =~= a.push('\n') + less);
        assert(all.last() == b.last());
        assert(b.last() == b[b.len() - 1]);
        assert(split(a).push(less).drop_last() =~= split(a));
        assert(less.push(b.last()) =~= b);
    }
}

proof fn lemma_split_plain(text: Seq<char>)
    requires
        forall|k: int| 0 <= k < text.len() ==> #[trigger] text[k] != '\n',
    ensures
        split(text) == seq![text],
    decreases text.len(),
{
    if text.len() > 0 {
        let less = text.drop_last();
        lemma_split_plain(less);
        assert(text.last() == text[text.len() - 1]);
        assert(less.push(text.last()) =~= text);
        assert(split(text) =~= seq![text]);
    } else {
        assert(text =~= Seq::empty());
    }
}

proof fn lemma_split_joined(pieces: Seq<Seq<char>>, broken: spec_fn(int) -> bool)
    requires
        pieces.len() > 0,
        forall|i: int, k: int|
            0 <= i < pieces.len() && 0 <= k < pieces[i].len() ==> #[trigger] pieces[i][k] != '\n',
        forall|i: int| 0 <= i < pieces.len() - 1 ==> #[trigger] broken(i),
    ensures
        split(lines_joined(pieces.drop_last(), broken) + pieces.last()) == pieces,
    decreases pieces.len(),
{
    let before = pieces.drop_last();
    let last = pieces.last();
    assert forall|k: int| 0 <= k < last.len() implies #[trigger] last[k] != '\n' by {
        assert(pieces[pieces.len() - 1][k] != '\n');
    }
    if before.len() == 0 {
        assert(lines_joined(before, broken) + last =~= last);
        lemma_split_plain(last);
        assert(seq![last] =~= pieces);
    } else {
        assert forall|i: int, k: int| 0 <= i < before.len() && 0 <= k < before[i].len() implies
            #[trigger] before[i][k] != '\n' by {
            assert(pieces[i][k] != '\n');
        }
        lemma_split_joined(before, broken);
        assert(broken(before.len() - 1));
        let head = lines_joined(before.drop_last(), broken) + before.last();
        assert(lines_joined(before, broken) == head.push('\n'));
        lemma_split_behind(head, last);
        assert(before.push(last) =~= pieces);
    }
}

/// The text of a selection without wrapped lines, split at its line breaks, gives
/// one piece for every line: its selected cells without the white space at their
/// end.
pub proof fn law_a_selection_splits_into_its_lines(
    term: &Term<EventProxy>,
    range: &SelectionRange,
    text: String,
    i: int,
)
    requires
        lies_in_grid(term_model(*term), *range),
        holds_no_break(term_model(*term)),
        forall|line: int|
            range.start.line <= line < range.end.line ==> !#[trigger] goes_on(
                term_model(*term),
                line,
            ),
        call_ensures(selection_text, (term, range), text),
        0 <= i <= range.end.line - range.start.line,
    ensures
        split(text@).len() == range.end.line - range.start.line + 1,
        is_piece(
            term_model(*term),
            range.start.line + i,
            if i == 0 {
                range.start.column as int
            } else {
                0
            },
            if i == range.end.line - range.start.line {
                range.end.column + 1
            } else {
                term_model(*term).columns as int
            },
            split(text@)[i],
        ),
{
    let model = term_model(*term);
    let pieces = law_a_selection_reads_line_by_line(term, range, text);
    let broken = |i: int|
        range.start.line + i < range.end.line && !goes_on(model, range.start.line + i);
    assert forall|i: int, k: int| 0 <= i < pieces.len() && 0 <= k < pieces[i].len() implies
        #[trigger] pieces[i][k] != '\n' by {
        let from = if i == 0 {
            range.start.column as int
        } else {
            0
        };
        assert(pieces[i][k] == model.cells[(range.start.line + i, from + k)].c);
    }
    assert forall|i: int| 0 <= i < pieces.len() - 1 implies #[trigger] broken(i) by {
        assert(!goes_on(model, range.start.line + i));
    }
    lemma_split_joined(pieces, broken);
    assert(!broken(pieces.len() - 1));
    assert(text@ =~= lines_joined(pieces.drop_last(), broken) + pieces.last());
    assert(is_piece(
        model,
        range.start.line + i,
        if i == 0 {
            range.start.column as int
        } else {
            0
        },
        if i == range.end.line - range.start.line {
            range.end.column + 1
        } else {
            model.columns as int
        },
        pieces[i],
    ));
}

/// A selection that ends above the line it begins in has no text.
pub proof fn law_a_reversed_selection_is_empty(
    term: &Term<EventProxy>,
    range: &SelectionRange,
    text: String,
)
    requires
        range.end.line < range.start.line,
        call_ensures(selection_text, (term, range), text),
    ensures
        text@.len() == 0,
{
}

/// What is copied is the text of the selection that was last taken over for
/// drawing; without one there is none.
pub proof fn law_copying_takes_the_selection(
    backend: &TerminalBackend,
    term: &Term<EventProxy>,
    copied: String,
    range: &SelectionRange,
    text: String,
)
    requires
        call_ensures(TerminalBackend::selectable_content, (backend, term), copied),
        call_ensures(selection_text, (term, range), text),
    ensures
        backend.last_content.selectable_range == Some(*range) ==> copied@ == text@,
        backend.last_content.selectable_range is None ==> copied@.len() == 0,
{
}

proof fn lemma_full_lines(model: TermModel, first: int, last: int) -> (pieces: Seq<Seq<char>>)
    requires
        first - 1 <= last,
    ensures
        pieces.len() == last - first + 1,
        forall|i: int|
            0 <= i < pieces.len() ==> is_piece(
                model,
                first + i,
                0,
                model.columns as int,
                #[trigger] pieces[i],
            ),
        full_lines(model, first, last) == lines_joined(pieces, |i: int| !goes_on(model, first + i)),
    decreases last - first + 1,
{
    if last < first {
        Seq::empty()
    } else {
        let before = lemma_full_lines(model, first, last - 1);
        let piece = trimmed(row_text(model, last, 0, model.columns as int));
        lemma_piece(model, last, 0, model.columns as int);
        let pieces = before.push(piece);
        assert(pieces.drop_last() =~= before);
        let broken = |i: int| !goes_on(model, first + i);
        assert(broken(pieces.len() - 1) == !goes_on(model, last));
        assert(full_lines(model, first, last) =~= lines_joined(pieces, broken));
        pieces
    }
}

proof fn lemma_tail(all: Seq<char>)
    ensures
        ({
            let text = without_blank_tail(all);
            &&& text.len() <= all.len()
            &&& text == all.take(text.len() as int)
            &&& forall|k: int| text.len() <= k < all.len() ==> #[trigger] all[k] == '\n'
            &&& text.len() < all.len() ==> text.len() > 0 && text.last() == '\n'
            &&& text.len() >= 2 && text.last() == '\n' ==> text[text.len() - 2] != '\n'
        }),
    decreases all.len(),
{
    if all.len() >= 2 && all[all.len() - 1] == '\n' && all[all.len() - 2] == '\n' {
        let less = all.drop_last();
        lemma_tail(less);
        let text = without_blank_tail(all);
        assert(text == without_blank_tail(less));
        assert forall|k: int| text.len() <= k < all.len() implies #[trigger] all[k] == '\n' by {
            if k < less.len() {
                assert(less[k] == all[k]);
            }
        }
        assert(text =~= all.take(text.len() as int));
    } else {
        assert(all.take(all.len() as int) =~= all);
    }
}

/// The whole text has one piece for every line of the scrollback and of the
/// screen: its cells without the white space at their end, and a line break if,
/// and only if, the line does not go on in the next. Of the line breaks at the very
/// end one is left.
pub proof fn law_the_whole_text_reads_line_by_line(
    term: &Term<EventProxy>,
    text: String,
) -> (pieces: Seq<Seq<char>>)
    requires
        term_model(*term).wf(),
        call_ensures(full_text, (term,), text),
    ensures
        ({
            let model = term_model(*term);
            let first = model.screen_lines - model.total_lines;
            let all = lines_joined(pieces, |i: int| !goes_on(model, first + i));
            &&& pieces.len() == model.total_lines
            &&& forall|i: int|
                0 <= i < pieces.len() ==> is_piece(
                    model,
                    first + i,
                    0,
                    model.columns as int,
                    #[trigger] pieces[i],
                )
            &&& text@.len() <= all.len()
            &&& text@ == all.take(text@.len() as int)
            &&& forall|k: int| text@.len() <= k < all.len() ==> #[trigger] all[k] == '\n'
            &&& text@.len() < all.len() ==> text@.len() > 0 && text@.last() == '\n'
            &&& text@.len() >= 2 && text@.last() == '\n' ==> text@[text@.len() - 2] != '\n'
        }),
{
    let model = term_model(*term);
    let pieces = lemma_full_lines(model, model.topmost(), model.bottommost());
    lemma_tail(full_lines(model, model.topmost(), model.bottommost()));
    pieces
}

/// The backend's text is that of the terminal.
pub proof fn law_the_backend_reads_the_whole_text(
    backend: &TerminalBackend,
    term: &Term<EventProxy>,
    text: String,
    same: String,
)
    requires
        call_ensures(full_text, (term,), text),
        call_ensures(TerminalBackend::full_text, (backend, term), same),
    ensures
        same@ == text@,
{
}

} // verus!
