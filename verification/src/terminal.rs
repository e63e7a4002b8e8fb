//! The emulated terminal: what the rest of the library knows of it, and the
//! calls into it.
//!
//! The emulator itself is `alacritty_terminal`. Its [`Term`] is opaque here;
//! [`term_model`] names what a terminal holds, and each function below that is
//! marked `external_body` makes one call and says over that name what the call
//! does.

use alacritty_terminal::event::{Event, EventListener};
use alacritty_terminal::grid::{Dimensions, Scroll};
use alacritty_terminal::index::{Column, Direction, Line};
use alacritty_terminal::selection::Selection;
use alacritty_terminal::term::cell::Cell;
use alacritty_terminal::term::search::{BuildError, RegexSearch};
use alacritty_terminal::term::test::TermSize;
use alacritty_terminal::term::{Config, Term};
use alacritty_terminal::vte::ansi::Processor;
use std::sync::atomic::{AtomicBool, Ordering};
use std::sync::mpsc::Sender;
use std::sync::Arc;
use vstd::prelude::*;
use vstd::utf8::valid_utf8;

use crate::geometry::{Point, SearchMatch, SelectionRange};
use crate::mode::{TerminalMode, ALT_SCREEN, INITIAL_MODES, VI};
use crate::sequence::Sequence;

verus! {

/// An event that the emulator raises, carried through unread.
#[verifier::external_type_specification]
#[verifier::external_body]
pub struct ExEvent(Event);

/// The emulator.
#[verifier::external_type_specification]
#[verifier::external_body]
#[verifier::reject_recursive_types(T)]
pub struct ExTerm<T>(Term<T>);

/// A cell with its colours, carried through unread.
#[verifier::external_type_specification]
#[verifier::external_body]
pub struct ExCell(Cell);

/// A compiled pattern, together with the automaton states that earlier
/// searches have built.
#[verifier::external_type_specification]
#[verifier::external_body]
pub struct ExRegexSearch(RegexSearch);

/// Why a pattern does not compile.
#[verifier::external_type_specification]
#[verifier::external_body]
pub struct ExBuildError(BuildError);

/// The sending half of a channel.
#[verifier::external_type_specification]
#[verifier::external_body]
#[verifier::reject_recursive_types(T)]
pub struct ExSender<T>(Sender<T>);

/// Hands the emulator's events on, and notes that there is something new to
/// draw.
pub struct EventProxy {
    sender: Sender<Event>,
    dirty: Arc<AtomicBool>,
}

impl EventProxy {
    /// Events go to `sender`; `dirty` is raised with each of them.
    pub fn new(sender: Sender<Event>, dirty: Arc<AtomicBool>) -> (proxy: EventProxy)
        ensures
            proxy.sink() == sender,
            proxy.flag() == dirty,
    {
        EventProxy { sender, dirty }
    }

    pub closed spec fn sink(self) -> Sender<Event> {
        self.sender
    }

    pub closed spec fn flag(self) -> Arc<AtomicBool> {
        self.dirty
    }
}

/// `std::sync::mpsc::Sender::send`, with the failure dropped: it says only that
/// nobody listens any more. Nothing is claimed of what the other side sees.
#[verifier::external_body]
fn forward(sender: &Sender<Event>, event: Event) {
    let _ = sender.send(event);
}

impl EventListener for EventProxy {
    fn send_event(&self, event: Event) {
        self.dirty.store(true, Ordering::Release);
        forward(&self.sender, event);
    }
}

/// The cell's text wraps into the next line.
pub const WRAPLINE: u16 = 0x10;

/// The cell's character is two columns wide.
pub const WIDE_CHAR: u16 = 0x20;

/// The cell lies under the second half of a wide character.
pub const WIDE_CHAR_SPACER: u16 = 0x40;

/// The cell is left empty at the end of a line, since the wide character behind
/// it did not fit.
pub const LEADING_WIDE_CHAR_SPACER: u16 = 0x400;

/// A grid of this many lines above or below the screen leaves room for any
/// arithmetic on lines.
pub const LINE_ROOM: i32 = 0x4000_0000;

/// As many bytes cannot move a selection by more than [`LINE_ROOM`] lines.
pub const FEED_ROOM: usize = 0x1_0000;

/// What a cell shows: its character and its attribute bits.
#[derive(Clone, Copy, Debug, PartialEq, Eq, Structural)]
pub struct CellText {
    pub c: char,
    pub flags: u16,
}

impl CellText {
    /// All of `flags` are set.
    pub open spec fn has(self, flags: u16) -> bool {
        self.flags & flags == flags
    }

    /// Some bit of `flags` is set.
    pub open spec fn has_any(self, flags: u16) -> bool {
        self.flags & flags != 0
    }

    pub fn contains(&self, flags: u16) -> (b: bool)
        ensures
            b == self.has(flags),
    {
        self.flags & flags == flags
    }

    pub fn intersects(&self, flags: u16) -> (b: bool)
        ensures
            b == self.has_any(flags),
    {
        self.flags & flags != 0
    }
}

/// What a selection grows by.
#[derive(Clone, Copy, Debug, PartialEq, Eq, Structural)]
pub enum SelectionType {
    Simple,
    Block,
    Semantic,
    Lines,
}

/// The half of a cell that a position falls in.
#[derive(Clone, Copy, Debug, PartialEq, Eq, Structural)]
pub enum Side {
    Left,
    Right,
}

/// One end of a selection.
#[derive(Clone, Copy, Debug, PartialEq, Eq, Structural)]
pub struct Anchor {
    pub point: Point,
    pub side: Side,
}

/// A selection as it was made: where it began and where it has been drawn to.
#[derive(Clone, Copy, Debug, PartialEq, Eq, Structural)]
pub struct SelectionAnchors {
    pub kind: SelectionType,
    pub start: Anchor,
    pub end: Anchor,
}

/// A movement of the viewport over the scrollback. A positive delta moves
/// towards older lines.
#[derive(Clone, Copy, Debug, PartialEq, Eq, Structural)]
pub enum ScrollMove {
    Delta(i32),
    Top,
    Bottom,
}

/// The text of a grid: its cells by line and column, scrollback included, and
/// its shape.
pub struct GridText {
    pub cells: Map<(int, int), CellText>,
    pub columns: nat,
    pub screen_lines: nat,
    /// Lines of the screen and of the scrollback together.
    pub total_lines: nat,
}

impl GridText {
    /// The oldest line of the scrollback.
    pub open spec fn topmost(self) -> int {
        self.screen_lines - self.total_lines
    }

    /// The last line of the screen.
    pub open spec fn bottommost(self) -> int {
        self.screen_lines - 1
    }

    pub open spec fn holds(self, point: Point) -> bool {
        self.topmost() <= point.line <= self.bottommost() && point.column < self.columns
    }

    /// The grid has a cell, and every cell has an index.
    pub open spec fn measured(self) -> bool {
        &&& 1 <= self.columns <= usize::MAX
        &&& 1 <= self.screen_lines <= self.total_lines <= i32::MAX
    }

    pub open spec fn at(self, point: Point) -> CellText {
        self.cells[(point.line as int, point.column as int)]
    }

    /// The line's text goes on in the next line.
    pub open spec fn wraps(self, line: int) -> bool {
        self.cells[(line, self.columns - 1)].has(WRAPLINE)
    }

    /// The first cell of the buffer.
    pub open spec fn first_cell(self) -> Point {
        Point { line: self.topmost() as i32, column: 0 }
    }

    /// The last cell of the buffer.
    pub open spec fn last_cell(self) -> Point {
        Point { line: self.bottommost() as i32, column: (self.columns - 1) as usize }
    }

    /// The cell before, in reading order.
    pub open spec fn before(self, point: Point) -> Point {
        if point.column > 0 {
            Point { line: point.line, column: (point.column - 1) as usize }
        } else {
            Point { line: (point.line - 1) as i32, column: (self.columns - 1) as usize }
        }
    }

    /// The cell behind, in reading order.
    pub open spec fn behind(self, point: Point) -> Point {
        if point.column + 1 < self.columns {
            Point { line: point.line, column: (point.column + 1) as usize }
        } else {
            Point { line: (point.line + 1) as i32, column: 0 }
        }
    }

    /// A search can come upon the cell: it does not lie right behind a leading
    /// spacer, from which a search goes on two cells at once. The last cell of
    /// the buffer is never stepped over.
    pub open spec fn open_at(self, point: Point) -> bool {
        point == self.last_cell() || point == self.first_cell() || !self.at(
            self.before(point),
        ).has(LEADING_WIDE_CHAR_SPACER)
    }

    /// A search that ends at the cell does not go beyond it: it is no leading
    /// spacer, and no first half of a wide character that has a second one.
    pub open spec fn stops_at(self, point: Point) -> bool {
        point == self.last_cell() || {
            &&& self.open_at(point)
            &&& !self.at(point).has(LEADING_WIDE_CHAR_SPACER)
            &&& self.at(point).has(WIDE_CHAR) ==> point.column + 1 >= self.columns
        }
    }
}

/// What a terminal holds.
pub struct TermModel {
    /// The cells of the active grid by line and column, scrollback included.
    pub cells: Map<(int, int), CellText>,
    pub columns: nat,
    pub screen_lines: nat,
    /// Lines of the screen and of the scrollback together.
    pub total_lines: nat,
    /// How far the viewport is scrolled up from the screen.
    pub display_offset: nat,
    pub mode: TerminalMode,
    pub cursor: Point,
    /// The cell under the cursor.
    pub cursor_cell: Cell,
    pub selection: Option<SelectionAnchors>,
    /// The line of the cursor that the vi mode moves, and its column.
    pub vi_line: int,
    pub vi_column: nat,
    /// The emulator's option to report keys in the way of `kitty` is on.
    pub kitty_keyboard: bool,
}

impl TermModel {
    /// The text of the active grid.
    pub open spec fn text(self) -> GridText {
        GridText {
            cells: self.cells,
            columns: self.columns,
            screen_lines: self.screen_lines,
            total_lines: self.total_lines,
        }
    }

    /// The two show the same text in the same modes, with the cursor at the
    /// same place.
    pub open spec fn same_page(self, other: TermModel) -> bool {
        self.text() == other.text() && self.mode == other.mode && self.cursor == other.cursor
    }

    /// Lines of scrollback.
    pub open spec fn history(self) -> int {
        self.total_lines - self.screen_lines
    }

    /// The oldest line of the scrollback.
    pub open spec fn topmost(self) -> int {
        -self.history()
    }

    /// The last line of the screen.
    pub open spec fn bottommost(self) -> int {
        self.screen_lines - 1
    }

    /// The cell lies in the grid.
    pub open spec fn covers(self, line: int, column: int) -> bool {
        self.topmost() <= line <= self.bottommost() && 0 <= column < self.columns
    }

    pub open spec fn holds(self, point: Point) -> bool {
        self.covers(point.line as int, point.column as int)
    }

    /// The grid has a cell, every line has an index, the viewport lies in the
    /// grid, and the cursor on the screen.
    pub open spec fn wf(self) -> bool {
        &&& self.text().measured()
        &&& self.display_offset <= self.history()
        &&& 0 <= self.cursor.line < self.screen_lines
        &&& self.cursor.column < self.columns
    }

    /// What the library keeps to, but cannot read off a terminal: the ends of the
    /// selection, if there is one, are at columns that have a next one, and so is
    /// the vi mode's cursor, which can become an end; and keys are not reported in
    /// the way of `kitty`.
    pub open spec fn kept(self) -> bool {
        &&& self.selection matches Some(selection) ==> selection.start.point.column < usize::MAX
            && selection.end.point.column < usize::MAX
        &&& self.vi_column < usize::MAX
        &&& !self.kitty_keyboard
    }

    /// The lines of the screen, of the selection's ends and of the vi mode's
    /// cursor leave room for moving them.
    pub open spec fn roomy(self) -> bool {
        &&& self.screen_lines <= LINE_ROOM
        &&& -LINE_ROOM <= self.vi_line <= LINE_ROOM
        &&& self.selection matches Some(selection) ==> selection.start.point.line >= -LINE_ROOM
            && selection.end.point.line >= -LINE_ROOM
    }

    /// Nothing has been written to the terminal yet: it shows blanks, has no
    /// scrollback and no selection, and is in the initial modes.
    pub open spec fn blank(self, columns: usize, lines: usize) -> bool {
        &&& self.columns == columns
        &&& self.screen_lines == lines
        &&& self.total_lines == lines
        &&& self.display_offset == 0
        &&& self.mode.bits == INITIAL_MODES
        &&& self.cursor == (Point { line: 0, column: 0 })
        &&& self.selection is None
        &&& self.vi_line == 0
        &&& self.vi_column == 0
        &&& !self.kitty_keyboard
        &&& forall|line: int, column: int| #[trigger]
            self.covers(line, column) ==> self.cell(line, column) == (CellText {
                c: ' ',
                flags: 0,
            })
    }

    /// The first line of the viewport.
    pub open spec fn viewport_start(self) -> int {
        -self.display_offset
    }

    /// The last line of the viewport.
    pub open spec fn viewport_end(self) -> int {
        self.bottommost() - self.display_offset
    }

    pub open spec fn cell(self, line: int, column: int) -> CellText {
        self.cells[(line, column)]
    }

    /// The line's text goes on in the next line.
    pub open spec fn wraps(self, line: int) -> bool {
        self.text().wraps(line)
    }

    /// The first line of the wrapped text that `line` belongs to.
    pub open spec fn wrap_start(self, line: int) -> int
        decreases line - self.topmost(),
    {
        if line > self.topmost() && self.wraps(line - 1) {
            self.wrap_start(line - 1)
        } else {
            line
        }
    }

    /// The last line of the wrapped text that `line` belongs to.
    pub open spec fn wrap_end(self, line: int) -> int
        decreases self.bottommost() - line,
    {
        if line < self.bottommost() && self.wraps(line) {
            self.wrap_end(line + 1)
        } else {
            line
        }
    }

    /// Where `to` leaves the viewport: never above the scrollback, never below
    /// the screen.
    pub open spec fn offset_after(self, to: ScrollMove) -> nat {
        match to {
            ScrollMove::Delta(delta) => {
                let wanted = self.display_offset + delta;
                if wanted < 0 {
                    0
                } else if wanted > self.history() {
                    self.history() as nat
                } else {
                    wanted as nat
                }
            },
            ScrollMove::Top => self.history() as nat,
            ScrollMove::Bottom => 0,
        }
    }

    /// The same terminal with its viewport moved.
    pub open spec fn scrolled(self, to: ScrollMove) -> TermModel {
        TermModel { display_offset: self.offset_after(to), ..self }
    }

    /// The same terminal with its viewport moved, and the vi mode's cursor kept
    /// inside the viewport.
    pub open spec fn scrolled_with_cursor(self, to: ScrollMove) -> TermModel {
        let after = self.scrolled(to);
        TermModel {
            vi_line: if self.vi_line < after.viewport_start() {
                after.viewport_start()
            } else if self.vi_line > after.viewport_end() {
                after.viewport_end()
            } else {
                self.vi_line
            },
            ..after
        }
    }

    /// The movement can be worked out in 32 bits.
    pub open spec fn can_scroll(self, to: ScrollMove) -> bool {
        to matches ScrollMove::Delta(delta) ==> self.display_offset <= i32::MAX
            && self.display_offset + delta <= i32::MAX
    }
}

/// What a terminal holds: its active grid, its modes, its cursor and the
/// selection in it.
pub uninterp spec fn term_model(term: Term<EventProxy>) -> TermModel;

/// What a cell shows.
pub uninterp spec fn text_of(cell: Cell) -> CellText;

/// `Term::new` with the default configuration: a blank terminal of the given
/// shape, without scrollback or selection, in the emulator's initial modes.
#[verifier::external_body]
pub(crate) fn new_term(columns: usize, lines: usize, proxy: EventProxy) -> (term: Term<EventProxy>)
    requires
        2 <= columns <= u16::MAX,
        1 <= lines <= u16::MAX,
    ensures
        term_model(term).blank(columns, lines),
{
    Term::new(Config::default(), &TermSize::new(columns, lines), proxy)
}

/// `Grid::total_lines`.
#[verifier::external_body]
pub(crate) fn total_lines(term: &Term<EventProxy>) -> (n: usize)
    ensures
        n == term_model(*term).total_lines,
{
    term.grid().total_lines()
}

/// `Grid::screen_lines`.
#[verifier::external_body]
pub(crate) fn screen_lines(term: &Term<EventProxy>) -> (n: usize)
    ensures
        n == term_model(*term).screen_lines,
{
    term.grid().screen_lines()
}

/// `Grid::columns`.
#[verifier::external_body]
pub(crate) fn columns(term: &Term<EventProxy>) -> (n: usize)
    ensures
        n == term_model(*term).columns,
{
    term.grid().columns()
}

/// `Grid::display_offset`.
#[verifier::external_body]
pub(crate) fn display_offset(term: &Term<EventProxy>) -> (n: usize)
    ensures
        n == term_model(*term).display_offset,
{
    term.grid().display_offset()
}

/// `Term::mode`, as its bits.
#[verifier::external_body]
pub(crate) fn mode(term: &Term<EventProxy>) -> (mode: TerminalMode)
    ensures
        mode == term_model(*term).mode,
{
    TerminalMode { bits: term.mode().bits() }
}

/// The position of the grid's cursor.
#[verifier::external_body]
pub(crate) fn cursor_point(term: &Term<EventProxy>) -> (point: Point)
    ensures
        point == term_model(*term).cursor,
{
    let point = term.grid().cursor.point;
    Point { line: point.line.0, column: point.column.0 }
}

/// `Grid::cursor_cell`, copied out. The call needs the grid mutably, and leaves
/// what it holds as it was.
#[verifier::external_body]
pub(crate) fn cursor_cell(term: &mut Term<EventProxy>) -> (cell: Cell)
    requires
        term_model(*old(term)).wf(),
    ensures
        cell == term_model(*old(term)).cursor_cell,
        text_of(cell) == term_model(*old(term)).text().at(term_model(*old(term)).cursor),
        term_model(*final(term)) == term_model(*old(term)),
{
    term.grid_mut().cursor_cell().clone()
}

/// `Index<Point>` of the grid: the character and the attributes of one cell.
#[verifier::external_body]
pub(crate) fn cell(term: &Term<EventProxy>, line: i32, column: usize) -> (text: CellText)
    requires
        term_model(*term).wf(),
        term_model(*term).covers(line as int, column as int),
    ensures
        text == term_model(*term).cell(line as int, column as int),
{
    let cell = &term.grid()[Line(line)][Column(column)];
    CellText { c: cell.c, flags: cell.flags.bits() }
}

/// `Grid::scroll_display`: the viewport moves as [`TermModel::offset_after`]
/// says, and nothing else changes.
#[verifier::external_body]
pub(crate) fn scroll_grid(term: &mut Term<EventProxy>, to: ScrollMove)
    requires
        term_model(*old(term)).wf(),
        term_model(*old(term)).can_scroll(to),
    ensures
        term_model(*final(term)) == term_model(*old(term)).scrolled(to),
{
    let scroll = match to {
        ScrollMove::Delta(delta) => Scroll::Delta(delta),
        ScrollMove::Top => Scroll::Top,
        ScrollMove::Bottom => Scroll::Bottom,
    };
    term.grid_mut().scroll_display(scroll);
}

/// `Term::scroll_display`: the viewport moves as [`TermModel::offset_after`]
/// says, and the vi mode's cursor stays inside it. While the vi mode is on, the
/// selection may follow that cursor; otherwise nothing else of the model
/// changes. What bytes do to the text afterwards does not depend on where the
/// viewport is.
#[verifier::external_body]
pub(crate) fn scroll_term(term: &mut Term<EventProxy>, to: ScrollMove)
    requires
        term_model(*old(term)).text().measured(),
        term_model(*old(term)).can_scroll(to),
        term_model(*old(term)).kept(),
    ensures
        term_model(*final(term)) == (TermModel {
            selection: term_model(*final(term)).selection,
            ..term_model(*old(term)).scrolled_with_cursor(to)
        }),
        !term_model(*old(term)).mode.has(VI) ==> term_model(*final(term)).selection
            == term_model(*old(term)).selection,
        term_model(*final(term)).kept(),
        forall|feeder: Feeder, data: Seq<u8>|
            #![trigger fed(feeder, *final(term), data)]
            fed(feeder, *final(term), data).same_page(fed(feeder, *old(term), data)),
{
    let scroll = match to {
        ScrollMove::Delta(delta) => Scroll::Delta(delta),
        ScrollMove::Top => Scroll::Top,
        ScrollMove::Bottom => Scroll::Bottom,
    };
    term.scroll_display(scroll);
}

/// The emulator's parser, with what it has read of an unfinished sequence.
#[verifier::external_body]
pub struct Feeder {
    processor: Processor,
}

/// How many bytes the parser holds back until a synchronized update ends.
pub uninterp spec fn held_back(feeder: Feeder) -> nat;

/// A synchronized update has begun and not ended.
pub uninterp spec fn updating(feeder: Feeder) -> bool;

/// The parser stands between two characters.
pub uninterp spec fn between_chars(feeder: Feeder) -> bool;

/// The unfinished sequence that the parser stands in, if it is one of those that
/// matter here.
pub uninterp spec fn unfinished(feeder: Feeder) -> Sequence;

/// The end of a synchronized update.
pub open spec fn update_end() -> Seq<u8> {
    seq![0x1bu8, 0x5b, 0x3f, 0x32, 0x30, 0x32, 0x36, 0x6c]
}

/// The bytes end a synchronized update, and no sequence comes behind that.
pub open spec fn ends_update(bytes: Seq<u8>) -> bool {
    exists|i: int|
        0 <= i <= bytes.len() - 8 && #[trigger] bytes.subrange(i, i + 8) == update_end()
            && !bytes.skip(i + 8).contains(0x1b)
}

/// What a terminal holds after it has taken bytes in. The cell under the cursor
/// is left open: a hyperlink in it carries a number that the process counts.
pub uninterp spec fn fed(feeder: Feeder, term: Term<EventProxy>, data: Seq<u8>) -> TermModel;

/// `Processor::new`: nothing has been read.
#[verifier::external_body]
pub(crate) fn new_feeder() -> (feeder: Feeder)
    ensures
        held_back(feeder) == 0,
        !updating(feeder),
        between_chars(feeder),
        unfinished(feeder) is Outside,
{
    Feeder { processor: Processor::new() }
}

/// `Processor::sync_bytes_count`.
#[verifier::external_body]
pub(crate) fn held_back_bytes(feeder: &Feeder) -> (n: usize)
    ensures
        n == held_back(*feeder),
{
    feeder.processor.sync_bytes_count()
}

/// `Processor::advance`: the terminal takes the bytes in. It keeps its shape and
/// its options, makes no selection, keeps the cursor on the screen, and leaves the
/// viewport of the main screen at the screen. A viewport that is scrolled up can
/// be raised above the scrollback, by lines that scroll below a fixed one.
///
/// Text taken in one piece after the other does what it does taken in together.
/// Nothing of that kind is claimed of pieces cut within a character, of which the
/// parser can lose the next one, or of synchronized updates: one that was asked
/// for along with another mode is overlooked behind one in the same piece.
///
/// The parser shifts the parts of a colour by their length and overflows on long
/// ones, so that those are left out. With a
/// selection, the bytes are few enough not to move it out of reach.
#[verifier::external_body]
pub(crate) fn feed(feeder: &mut Feeder, term: &mut Term<EventProxy>, data: &[u8])
    requires
        term_model(*old(term)).wf(),
        term_model(*old(term)).columns >= 2,
        term_model(*old(term)).kept(),
        term_model(*old(term)).roomy(),
        unfinished(*old(feeder)).has_room(data@),
        term_model(*old(term)).selection is Some ==> held_back(*old(feeder)) + data@.len()
            <= FEED_ROOM,
    ensures
        term_model(*final(term)) == (TermModel {
            cursor_cell: term_model(*final(term)).cursor_cell,
            ..fed(*old(feeder), *old(term), data@)
        }),
        term_model(*final(term)).columns == term_model(*old(term)).columns,
        term_model(*final(term)).screen_lines == term_model(*old(term)).screen_lines,
        term_model(*final(term)).screen_lines <= term_model(*final(term)).total_lines,
        0 <= term_model(*final(term)).cursor.line < term_model(*final(term)).screen_lines,
        term_model(*final(term)).cursor.column < term_model(*final(term)).columns,
        term_model(*final(term)).kept(),
        term_model(*old(term)).selection is None ==> term_model(*final(term)).selection is None,
        term_model(*old(term)).display_offset == 0 && !term_model(*old(term)).mode.has(ALT_SCREEN)
            ==> term_model(*final(term)).display_offset == 0,
        held_back(*final(feeder)) <= held_back(*old(feeder)) + data@.len(),
        unfinished(*final(feeder)) is Outside || unfinished(*final(feeder)) == unfinished(
            *old(feeder),
        ).after(data@),
        !updating(*old(feeder)) && !unfinished(*old(feeder)).asks_update(data@) || ends_update(
            data@,
        ) ==> !updating(*final(feeder)),
        between_chars(*old(feeder)) && valid_utf8(data@) ==> between_chars(*final(feeder)),
        forall|more: Seq<u8>|
            #![trigger fed(*final(feeder), *final(term), more)]
            !updating(*old(feeder)) && !unfinished(*old(feeder)).asks_update(data@ + more)
                && between_chars(*old(feeder)) && valid_utf8(data@) && valid_utf8(more) ==> fed(
                *final(feeder),
                *final(term),
                more,
            ).same_page(fed(*old(feeder), *old(term), data@ + more)),
{
    feeder.processor.advance(term, data);
}

/// What a terminal becomes when it is laid out anew with the given columns and
/// lines.
pub uninterp spec fn resized(
    term: Term<EventProxy>,
    columns: usize,
    lines: usize,
) -> Term<EventProxy>;

/// `Term::resize`: the grid takes the given shape and the modes stay. How the
/// text is wrapped into the new shape is the emulator's own business; viewport
/// and cursor are brought into it, so that the terminal is usable unless its
/// lines have become too many. The emulator documents two columns as the least
/// that it can lay out. The grid that is not active is laid out along with it.
#[verifier::external_body]
pub(crate) fn resize(term: &mut Term<EventProxy>, columns: usize, lines: usize)
    requires
        term_model(*old(term)).wf(),
        term_model(*old(term)).kept(),
        term_model(*old(term)).roomy(),
        2 <= columns <= u16::MAX,
        1 <= lines <= u16::MAX,
    ensures
        *final(term) == resized(*old(term), columns, lines),
        term_model(*final(term)).columns == columns,
        term_model(*final(term)).screen_lines == lines,
        term_model(*final(term)).mode == term_model(*old(term)).mode,
        term_model(*final(term)).kept(),
        term_model(*final(term)).kitty_keyboard == term_model(*old(term)).kitty_keyboard,
        term_model(*final(term)).total_lines <= i32::MAX ==> term_model(*final(term)).wf(),
{
    term.resize(TermSize::new(columns, lines));
}

/// `Selection::new`, put in the place of the terminal's selection: both ends
/// lie at the given position.
#[verifier::external_body]
pub(crate) fn begin_selection(
    term: &mut Term<EventProxy>,
    kind: SelectionType,
    point: Point,
    side: Side,
)
    ensures
        term_model(*final(term)) == (TermModel {
            selection: Some(
                SelectionAnchors { kind, start: Anchor { point, side }, end: Anchor { point, side } },
            ),
            ..term_model(*old(term))
        }),
{
    let kind = match kind {
        SelectionType::Simple => alacritty_terminal::selection::SelectionType::Simple,
        SelectionType::Block => alacritty_terminal::selection::SelectionType::Block,
        SelectionType::Semantic => alacritty_terminal::selection::SelectionType::Semantic,
        SelectionType::Lines => alacritty_terminal::selection::SelectionType::Lines,
    };
    let side = match side {
        Side::Left => Direction::Left,
        Side::Right => Direction::Right,
    };
    let point = alacritty_terminal::index::Point::new(Line(point.line), Column(point.column));
    term.selection = Some(Selection::new(kind, point, side));
}

/// Whether the terminal has a selection, `Term`'s field of that name.
#[verifier::external_body]
pub(crate) fn has_selection(term: &Term<EventProxy>) -> (b: bool)
    ensures
        b == (term_model(*term).selection is Some),
{
    term.selection.is_some()
}

/// `Selection::intersects_range`: whether the selection, if there is one, begins
/// and ends no higher than the given line.
#[verifier::external_body]
pub(crate) fn selection_is_below(term: &Term<EventProxy>, line: i32) -> (b: bool)
    requires
        line > i32::MIN,
    ensures
        b == (term_model(*term).selection matches Some(selection) ==> selection.start.point.line
            >= line && selection.end.point.line >= line),
{
    !term.selection.as_ref().is_some_and(|selection| selection.intersects_range(..Line(line)))
}

/// The line of the vi mode's cursor, `Term`'s field of that name.
#[verifier::external_body]
pub(crate) fn vi_line(term: &Term<EventProxy>) -> (line: i32)
    ensures
        line == term_model(*term).vi_line,
{
    term.vi_mode_cursor.point.line.0
}

/// `Selection::update`: the end of the selection moves to the given position.
#[verifier::external_body]
pub(crate) fn extend_selection(term: &mut Term<EventProxy>, point: Point, side: Side)
    requires
        term_model(*old(term)).selection is Some,
    ensures
        term_model(*final(term)) == (TermModel {
            selection: Some(
                SelectionAnchors {
                    end: Anchor { point, side },
                    ..term_model(*old(term)).selection->0
                },
            ),
            ..term_model(*old(term))
        }),
{
    let side = match side {
        Side::Left => Direction::Left,
        Side::Right => Direction::Right,
    };
    let point = alacritty_terminal::index::Point::new(Line(point.line), Column(point.column));
    term.selection.as_mut().unwrap().update(point, side);
}

/// The cells that the terminal's selection covers.
pub uninterp spec fn selected_range(term: Term<EventProxy>) -> Option<SelectionRange>;

/// `Selection::to_range` of the terminal's selection. A selection can cover no
/// cell; a terminal without one covers none. A range begins and ends on lines of
/// the grid and ends in one of its columns; it begins in one too, but for a block
/// that is drawn back from the right edge.
#[verifier::external_body]
pub(crate) fn selection_range(term: &Term<EventProxy>) -> (range: Option<SelectionRange>)
    requires
        term_model(*term).wf(),
        term_model(*term).kept(),
    ensures
        range == selected_range(*term),
        term_model(*term).selection is None ==> range is None,
        range matches Some(range) ==> term_model(*term).covers(range.start.line as int, 0)
            && term_model(*term).holds(range.end) && (range.is_block || term_model(*term).holds(
            range.start,
        )),
{
    let range = term.selection.as_ref().and_then(|selection| selection.to_range(term))?;
    Some(
        SelectionRange {
            start: Point { line: range.start.line.0, column: range.start.column.0 },
            end: Point { line: range.end.line.0, column: range.end.column.0 },
            is_block: range.is_block,
        },
    )
}

/// `Term::line_search_left`: the start of the wrapped text around a line.
#[verifier::external_body]
pub(crate) fn line_search_left(term: &Term<EventProxy>, line: i32) -> (point: Point)
    requires
        term_model(*term).wf(),
        term_model(*term).covers(line as int, 0),
    ensures
        point.line == term_model(*term).wrap_start(line as int),
        point.column == 0,
{
    let from = alacritty_terminal::index::Point::new(Line(line), Column(0));
    let point = term.line_search_left(from);
    Point { line: point.line.0, column: point.column.0 }
}

/// `Term::line_search_right`: the end of the wrapped text around a line.
#[verifier::external_body]
pub(crate) fn line_search_right(term: &Term<EventProxy>, line: i32) -> (point: Point)
    requires
        term_model(*term).wf(),
        term_model(*term).covers(line as int, 0),
    ensures
        point.line == term_model(*term).wrap_end(line as int),
        point.column == term_model(*term).columns - 1,
{
    let from = alacritty_terminal::index::Point::new(Line(line), Column(0));
    let point = term.line_search_right(from);
    Point { line: point.line.0, column: point.column.0 }
}

/// The compiled form of a pattern, where it compiles.
pub uninterp spec fn compiled(pattern: Seq<char>) -> Option<RegexSearch>;

/// No search has been made with the pattern yet.
pub uninterp spec fn fresh(regex: RegexSearch) -> bool;

/// `RegexSearch::new`.
#[verifier::external_body]
pub(crate) fn compile(pattern: &str) -> (regex: Result<RegexSearch, Box<BuildError>>)
    ensures
        regex is Ok <==> compiled(pattern@) is Some,
        regex is Ok ==> regex->Ok_0 == compiled(pattern@)->0,
        regex is Ok ==> fresh(regex->Ok_0),
{
    RegexSearch::new(pattern)
}

/// `RegexSearch::clone`.
#[verifier::external_body]
pub(crate) fn copy_regex(regex: &RegexSearch) -> (copy: RegexSearch)
    ensures
        copy == *regex,
{
    regex.clone()
}

/// The first match from `start` on towards `end`, as a pattern finds it that has
/// not been searched with before.
pub uninterp spec fn match_right(
    text: GridText,
    regex: RegexSearch,
    start: Point,
    end: Point,
) -> Option<SearchMatch>;

/// `Term::regex_search_right`. A match has both ends in the grid. That it lies
/// between `start` and `end` is not claimed: around wide characters the emulator
/// can go beyond either. Both points must be such that a search comes upon them;
/// it would else go round for ever. A pattern is used for one search: the emulator
/// panics on one whose automaton an earlier search has grown beyond its cache.
#[verifier::external_body]
pub(crate) fn search_right(
    term: &Term<EventProxy>,
    regex: RegexSearch,
    start: Point,
    end: Point,
) -> (found: Option<SearchMatch>)
    requires
        term_model(*term).wf(),
        term_model(*term).holds(start),
        term_model(*term).holds(end),
        term_model(*term).text().open_at(start),
        term_model(*term).text().open_at(end),
        fresh(regex),
    ensures
        found == match_right(term_model(*term).text(), regex, start, end),
        found matches Some(m) ==> term_model(*term).holds(m.start) && term_model(*term).holds(
            m.end,
        ),
{
    let mut regex = regex;
    let start = alacritty_terminal::index::Point::new(Line(start.line), Column(start.column));
    let end = alacritty_terminal::index::Point::new(Line(end.line), Column(end.column));
    let found = term.regex_search_right(&mut regex, start, end)?;
    Some(
        SearchMatch {
            start: Point { line: found.start().line.0, column: found.start().column.0 },
            end: Point { line: found.end().line.0, column: found.end().column.0 },
        },
    )
}

/// The first match from `start` back towards `end`, as a pattern finds it that has
/// not been searched with before.
pub uninterp spec fn match_left(
    text: GridText,
    regex: RegexSearch,
    start: Point,
    end: Point,
) -> Option<SearchMatch>;

/// `Term::regex_search_left`. A match has both ends in the grid; what is said of
/// [`search_right`] holds here too.
#[verifier::external_body]
pub(crate) fn search_left(
    term: &Term<EventProxy>,
    regex: RegexSearch,
    start: Point,
    end: Point,
) -> (found: Option<SearchMatch>)
    requires
        term_model(*term).wf(),
        term_model(*term).holds(start),
        term_model(*term).holds(end),
        term_model(*term).text().open_at(start),
        term_model(*term).text().open_at(end),
        fresh(regex),
    ensures
        found == match_left(term_model(*term).text(), regex, start, end),
        found matches Some(m) ==> term_model(*term).holds(m.start) && term_model(*term).holds(
            m.end,
        ),
{
    let mut regex = regex;
    let start = alacritty_terminal::index::Point::new(Line(start.line), Column(start.column));
    let end = alacritty_terminal::index::Point::new(Line(end.line), Column(end.column));
    let found = term.regex_search_left(&mut regex, start, end)?;
    Some(
        SearchMatch {
            start: Point { line: found.start().line.0, column: found.start().column.0 },
            end: Point { line: found.end().line.0, column: found.end().column.0 },
        },
    )
}

/// `viewport_to_point`: a position in the viewport as a point of the grid.
#[verifier::external_body]
pub(crate) fn viewport_to_point(display_offset: usize, line: usize, column: usize) -> (point: Point)
    requires
        display_offset <= i32::MAX,
        line <= i32::MAX,
    ensures
        point.line == line - display_offset,
        point.column == column,
{
    let shown = alacritty_terminal::index::Point::new(line, Column(column));
    let point = alacritty_terminal::term::viewport_to_point(display_offset, shown);
    Point { line: point.line.0, column: point.column.0 }
}

/// `Cell::default`: a blank. Its colours are the emulator's defaults.
#[verifier::external_body]
pub(crate) fn blank_cell() -> (cell: Cell)
    ensures
        text_of(cell) == (CellText { c: ' ', flags: 0 }),
{
    Cell::default()
}

/// Whether the terminal meets [`TermModel::wf`], which the functions that read
/// it rely on.
pub fn usable(term: &Term<EventProxy>) -> (b: bool)
    ensures
        b == term_model(*term).wf(),
{
    let columns: usize = columns(term);
    let screen: usize = screen_lines(term);
    let total: usize = total_lines(term);
    let offset: usize = display_offset(term);
    let cursor = cursor_point(term);
    if columns < 1 || screen < 1 || screen > total || total > i32::MAX as usize {
        return false;
    }
    let history: usize = total - screen;
    offset <= history && cursor.line >= 0 && cursor.line < screen as i32 && cursor.column < columns
}

/// Whether the terminal is [`TermModel::roomy`].
pub fn is_roomy(term: &Term<EventProxy>) -> (b: bool)
    ensures
        b == term_model(*term).roomy(),
{
    let line: i32 = vi_line(term);
    screen_lines(term) <= LINE_ROOM as usize && -LINE_ROOM <= line && line <= LINE_ROOM
        && selection_is_below(term, -LINE_ROOM)
}

} // verus!
