//! The text that lines of the grid make up.

use alacritty_terminal::term::Term;
use vstd::prelude::*;

use crate::geometry::SelectionRange;
use crate::terminal::{cell, columns, term_model, EventProxy, TermModel, WRAPLINE};

verus! {

/// `String::push`: the character goes to the end.
pub assume_specification[ String::push ](text: &mut String, c: char)
    ensures
        final(text)@ == old(text)@.push(c),
;

/// Whether a character has the Unicode property `White_Space`.
pub open spec fn white_space(c: char) -> bool {
    let code = c as u32;
    ||| 0x09 <= code <= 0x0d
    ||| code == 0x20
    ||| code == 0x85
    ||| code == 0xa0
    ||| code == 0x1680
    ||| 0x2000 <= code <= 0x200a
    ||| 0x2028 <= code <= 0x2029
    ||| code == 0x202f
    ||| code == 0x205f
    ||| code == 0x3000
}

/// Decides [`white_space`].
pub fn is_white_space(c: char) -> (b: bool)
    ensures
        b == white_space(c),
{
    let code: u32 = c as u32;
    (0x09 <= code && code <= 0x0d) || code == 0x20 || code == 0x85 || code == 0xa0 || code == 0x1680
        || (0x2000 <= code && code <= 0x200a) || code == 0x2028 || code == 0x2029 || code == 0x202f
        || code == 0x205f || code == 0x3000
}

/// The text without the white space at its end.
pub open spec fn trimmed(text: Seq<char>) -> Seq<char>
    decreases text.len(),
{
    if text.len() > 0 && white_space(text.last()) {
        trimmed(text.drop_last())
    } else {
        text
    }
}

/// The characters of a line from column `from` up to, but without, column `to`.
pub open spec fn row_text(model: TermModel, line: int, from: int, to: int) -> Seq<char> {
    Seq::new((if from < to { to - from } else { 0 }) as nat, |i: int| model.cell(line, from + i).c)
}

/// A line, trimmed, with a line break unless its text goes on in the next line.
pub open spec fn full_line(model: TermModel, line: int) -> Seq<char> {
    let text = trimmed(row_text(model, line, 0, model.columns as int));
    if model.wraps(line) {
        text
    } else {
        text.push('\n')
    }
}

/// The lines from `first` to `last`, one after the other.
pub open spec fn full_lines(model: TermModel, first: int, last: int) -> Seq<char>
    decreases last - first + 1,
{
    if first > last {
        Seq::empty()
    } else {
        full_lines(model, first, last - 1) + full_line(model, last)
    }
}

/// The text without the empty lines at its end.
pub open spec fn without_blank_tail(text: Seq<char>) -> Seq<char>
    decreases text.len(),
{
    if text.len() >= 2 && text[text.len() - 1] == '\n' && text[text.len() - 2] == '\n' {
        without_blank_tail(text.drop_last())
    } else {
        text
    }
}

/// Everything in the terminal, scrollback first.
pub open spec fn whole_text(model: TermModel) -> Seq<char> {
    without_blank_tail(full_lines(model, model.topmost(), model.bottommost()))
}

/// The column at which the selected part of a line begins.
pub open spec fn selection_from(range: SelectionRange, line: int) -> int {
    if line == range.start.line {
        range.start.column as int
    } else {
        0
    }
}

/// The column before which the selected part of a line ends.
pub open spec fn selection_to(model: TermModel, range: SelectionRange, line: int) -> int {
    if line == range.end.line {
        range.end.column + 1
    } else {
        model.columns as int
    }
}

/// The selected part of a line, trimmed, with a line break unless the line is
/// the last one or its text goes on in the next.
pub open spec fn selected_line(model: TermModel, range: SelectionRange, line: int) -> Seq<char> {
    let text = trimmed(
        row_text(model, line, selection_from(range, line), selection_to(model, range, line)),
    );
    if line < range.end.line && !model.wraps(line) {
        text.push('\n')
    } else {
        text
    }
}

/// The selected parts of the lines from the first selected one to `last`.
pub open spec fn selected_lines(model: TermModel, range: SelectionRange, last: int) -> Seq<char>
    decreases last - range.start.line + 1,
{
    if range.start.line > last {
        Seq::empty()
    } else {
        selected_lines(model, range, last - 1) + selected_line(model, range, last)
    }
}

/// The text of a selection.
pub open spec fn selected_text(model: TermModel, range: SelectionRange) -> Seq<char> {
    selected_lines(model, range, range.end.line as int)
}

/// Every line of the selection, if it has any, lies in the grid, and so does
/// its last column.
pub open spec fn selection_fits(model: TermModel, range: SelectionRange) -> bool {
    range.start.line <= range.end.line ==> {
        &&& model.topmost() <= range.start.line
        &&& range.end.line <= model.bottommost()
        &&& range.end.column < model.columns
    }
}

/// Appends the characters to the text.
fn append(text: &mut String, chars: &Vec<char>)
    ensures
        final(text)@ == old(text)@ + chars@,
{
    let mut i: usize = 0;
    while i < chars.len()
        invariant
            i <= chars@.len(),
            text@ == old(text)@ + chars@.take(i as int),
        decreases chars@.len() - i,
    {
        text.push(chars[i]);
        i = i + 1;
        assert(chars@.take(i as int) == chars@.take(i - 1).push(chars@[i - 1]));
    }
    assert(chars@.take(i as int) == chars@);
}

/// Cuts the white space off the end.
fn trim_end(chars: &mut Vec<char>)
    ensures
        final(chars)@ == trimmed(old(chars)@),
{
    let mut len: usize = chars.len();
    assert(chars@.take(len as int) == chars@);
    while len > 0 && is_white_space(chars[len - 1])
        invariant
            len <= chars@.len(),
            chars@ == old(chars)@,
            trimmed(chars@.take(len as int)) == trimmed(chars@),
        decreases len,
    {
        assert(chars@.take(len as int).drop_last() == chars@.take(len - 1));
        len = len - 1;
    }
    chars.truncate(len);
}

/// Reads a line from column `from` up to, but without, column `to`, and trims
/// it.
fn read_row(term: &Term<EventProxy>, line: i32, from: usize, to: usize) -> (row: Vec<char>)
    requires
        term_model(*term).wf(),
        term_model(*term).covers(line as int, 0),
        to <= term_model(*term).columns,
    ensures
        row@ == trimmed(row_text(term_model(*term), line as int, from as int, to as int)),
{
    let ghost model = term_model(*term);
    let mut row: Vec<char> = Vec::new();
    let mut column: usize = from;
    while column < to
        invariant
            model == term_model(*term),
            model.wf(),
            model.covers(line as int, 0),
            to <= model.columns,
            from <= column,
            from <= to ==> column <= to,
            from > to ==> column == from,
            row@ == row_text(model, line as int, from as int, column as int),
        decreases to - column,
    {
        row.push(cell(term, line, column).c);
        column = column + 1;
    }
    assert(row@ == row_text(model, line as int, from as int, to as int));
    trim_end(&mut row);
    row
}

/// Whether the text of a line goes on in the next.
fn is_wrapped(term: &Term<EventProxy>, line: i32, columns: usize) -> (b: bool)
    requires
        term_model(*term).wf(),
        term_model(*term).covers(line as int, 0),
        columns == term_model(*term).columns,
    ensures
        b == term_model(*term).wraps(line as int),
{
    cell(term, line, columns - 1).contains(WRAPLINE)
}

/// The text of the whole buffer, scrollback and screen: every line trimmed,
/// wrapped lines joined, empty lines at the end dropped.
pub fn full_text(term: &Term<EventProxy>) -> (text: String)
    requires
        term_model(*term).wf(),
    ensures
        text@ == whole_text(term_model(*term)),
{
    let ghost model = term_model(*term);
    let columns: usize = columns(term);
    let screen: usize = crate::terminal::screen_lines(term);
    let history: usize = crate::terminal::total_lines(term) - screen;
    let first: i32 = -(history as i32);
    let end: i32 = screen as i32;
    let mut chars: Vec<char> = Vec::new();
    let mut line: i32 = first;
    while line < end
        invariant
            model == term_model(*term),
            model.wf(),
            columns == model.columns,
            first == model.topmost(),
            end == model.bottommost() + 1,
            first <= line <= end,
            chars@ == full_lines(model, first as int, line - 1),
        decreases end - line,
    {
        let ghost before = chars@;
        let mut row = read_row(term, line, 0, columns);
        chars.append(&mut row);
        if !is_wrapped(term, line, columns) {
            chars.push('\n');
        }
        assert(chars@ == before + full_line(model, line as int));
        line = line + 1;
    }
    let ghost all = chars@;
    let mut len: usize = chars.len();
    assert(all.take(len as int) == all);
    while len >= 2 && chars[len - 1] == '\n' && chars[len - 2] == '\n'
        invariant
            len <= chars@.len(),
            chars@ == all,
            without_blank_tail(all.take(len as int)) == without_blank_tail(all),
        decreases len,
    {
        assert(all.take(len as int).drop_last() == all.take(len - 1));
        len = len - 1;
    }
    chars.truncate(len);
    let mut text = String::new();
    append(&mut text, &chars);
    text
}

/// The text of a selection: the selected part of every line trimmed, wrapped
/// lines joined.
pub fn selection_text(term: &Term<EventProxy>, range: &SelectionRange) -> (text: String)
    requires
        term_model(*term).wf(),
        selection_fits(term_model(*term), *range),
    ensures
        text@ == selected_text(term_model(*term), *range),
{
    let ghost model = term_model(*term);
    let columns: usize = columns(term);
    let mut chars: Vec<char> = Vec::new();
    let mut line: i32 = range.start.line;
    while line <= range.end.line
        invariant
            model == term_model(*term),
            model.wf(),
            columns == model.columns,
            selection_fits(model, *range),
            range.start.line <= line,
            range.start.line <= range.end.line ==> line <= range.end.line + 1,
            range.start.line > range.end.line ==> line == range.start.line,
            chars@ == selected_lines(model, *range, line - 1),
        decreases range.end.line - line + 1,
    {
        let ghost before = chars@;
        let from: usize = if line == range.start.line {
            range.start.column
        } else {
            0
        };
        let to: usize = if line == range.end.line {
            range.end.column + 1
        } else {
            columns
        };
        let mut row = read_row(term, line, from, to);
        chars.append(&mut row);
        if line < range.end.line && !is_wrapped(term, line, columns) {
            chars.push('\n');
        }
        assert(chars@ == before + selected_line(model, *range, line as int));
        line = line + 1;
    }
    let mut text = String::new();
    append(&mut text, &chars);
    text
}

} // verus!
