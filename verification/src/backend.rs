//! The state behind a terminal widget and the commands that change it.

use alacritty_terminal::term::cell::Cell;
use alacritty_terminal::term::Term;
use vstd::prelude::*;
use vstd::utf8::{encode_utf8, valid_utf8};

use crate::geometry::{GridBounds, Point, SearchMatch, SelectionRange};
use crate::input::{BackendCommand, Fitting, LinkAction};
use crate::mode::{TerminalMode, ALTERNATE_SCROLLING, ALT_SCREEN, VI};
use crate::report::{can_report, process_mouse_report, report_fits, report_of};
use crate::search::{
    all_in_grid, first_covering, link_chars, link_text, next_match, next_match_after,
    prev_match_before, previous_match, regex_match_at, search_all_in_term, visible_matches,
    visible_regex_match_iter, whole_matches, PatternError, SearchPattern,
};
use crate::sequence::Sequence;
use crate::size::{TerminalSize, WindowSize};
use crate::terminal::{
    begin_selection, between_chars, blank_cell, columns, compiled, cursor_cell, cursor_point,
    display_offset, ends_update, extend_selection, fed, feed, has_selection, held_back,
    held_back_bytes, is_roomy, mode, new_feeder, new_term, resize, resized, screen_lines,
    scroll_grid, scroll_term, selected_range, selection_range, term_model, text_of, total_lines,
    unfinished, updating, usable, viewport_to_point, Anchor, CellText, EventProxy, Feeder,
    ScrollMove, SelectionAnchors, SelectionType, Side, TermModel, FEED_ROOM,
};
use crate::text::{full_text, selected_text, selection_fits, selection_text, whole_text};

verus! {

/// What a link looks like: a known scheme and everything up to white space, a
/// control character or a delimiter.
pub const URL_PATTERN: &'static str =
    "(ipfs:|ipns:|magnet:|mailto:|gemini://|gopher://|https://|http://|news:|file://|git://|ssh:|ftp://)[^\\u{0000}-\\u{001F}\\u{007F}-\\u{009F}<>\"\\s{-}\\^⟨⟩`]+";

/// Compiles the pattern for links.
pub fn url_regex() -> (regex: Result<SearchPattern, PatternError>)
    ensures
        regex is Ok <==> compiled(URL_PATTERN@) is Some,
        regex is Ok ==> regex->Ok_0@ == compiled(URL_PATTERN@)->0,
{
    SearchPattern::new(URL_PATTERN)
}

/// What the widget draws from: the terminal as it was when it was last looked
/// at.
pub struct RenderableContent {
    pub display_offset: usize,
    pub cursor_point: Point,
    pub hovered_hyperlink: Option<SearchMatch>,
    pub selectable_range: Option<SelectionRange>,
    pub cursor: Cell,
    pub terminal_mode: TerminalMode,
    pub terminal_size: TerminalSize,
}

impl Default for RenderableContent {
    /// Nothing to draw yet. The cell under the cursor is a blank in the
    /// emulator's default colours.
    fn default() -> (content: RenderableContent)
        ensures
            content.display_offset == 0,
            content.cursor_point == (Point { line: 0, column: 0 }),
            content.hovered_hyperlink is None,
            content.selectable_range is None,
            text_of(content.cursor) == (CellText { c: ' ', flags: 0 }),
            content.terminal_mode.bits == 0,
            content.terminal_size == TerminalSize::initial(),
    {
        RenderableContent {
            display_offset: 0,
            cursor_point: Point::default(),
            hovered_hyperlink: None,
            selectable_range: None,
            cursor: blank_cell(),
            terminal_mode: TerminalMode::empty(),
            terminal_size: TerminalSize::default(),
        }
    }
}

/// What a command asks to be done outside the terminal.
#[derive(Debug, Clone)]
pub enum Effect {
    Nothing,
    /// Send these bytes to the program in the terminal.
    Notify(Vec<u8>),
    /// Tell the program's side that the terminal has a new size.
    Resized(WindowSize),
    /// Open this address.
    OpenLink(String),
}

impl Effect {
    pub open spec fn notifies(self, bytes: Seq<u8>) -> bool {
        self matches Effect::Notify(sent) && sent@ == bytes
    }

    pub open spec fn opens(self, url: Seq<char>) -> bool {
        self matches Effect::OpenLink(opened) && opened@ == url
    }
}

/// The cell of the grid under a position in the widget. Positions beyond the
/// last column or line count for the last one.
pub open spec fn point_at(size: TerminalSize, x: nat, y: nat, display_offset: nat) -> Point {
    let column = x / (size.cell_width as nat);
    let line = y / (size.cell_height as nat);
    Point {
        line: ((if line < size.num_lines {
            line as int
        } else {
            size.num_lines - 1
        }) - display_offset) as i32,
        column: (if column < size.num_cols {
            column as int
        } else {
            size.num_cols - 1
        }) as usize,
    }
}

/// The half of the cell that a position falls in; its middle still counts as
/// the left one.
pub open spec fn side_at(size: TerminalSize, x: nat) -> Side {
    if x % (size.cell_width as nat) > (size.cell_width as nat) / 2 {
        Side::Right
    } else {
        Side::Left
    }
}

/// The counter after one more write or movement. It starts over when it runs
/// out.
pub open spec fn next_revision(revision: u64) -> u64 {
    if revision == u64::MAX {
        0
    } else {
        (revision + 1) as u64
    }
}

/// The cursor keys that stand for turning the wheel: one sequence for each
/// line, up for a positive count.
pub open spec fn cursor_keys(lines: int) -> Seq<u8> {
    let n = if lines < 0 {
        -lines
    } else {
        lines
    };
    Seq::new(
        (3 * n) as nat,
        |i: int|
            if i % 3 == 0 {
                0x1bu8
            } else if i % 3 == 1 {
                0x4fu8
            } else if lines > 0 {
                0x41u8
            } else {
                0x42u8
            },
    )
}

/// Builds [`cursor_keys`].
fn build_cursor_keys(lines: i32) -> (keys: Vec<u8>)
    requires
        lines > i32::MIN,
    ensures
        keys@ == cursor_keys(lines as int),
{
    let last: u8 = if lines > 0 {
        0x41
    } else {
        0x42
    };
    let count: i32 = if lines < 0 {
        -lines
    } else {
        lines
    };
    let mut keys: Vec<u8> = Vec::new();
    let mut done: i32 = 0;
    while done < count
        invariant
            0 <= done <= count,
            count == (if lines < 0 {
                -lines
            } else {
                lines as int
            }),
            last == (if lines > 0 {
                0x41u8
            } else {
                0x42u8
            }),
            keys@.len() == 3 * done,
            forall|i: int| 0 <= i < keys@.len() ==> keys@[i] == #[trigger] cursor_keys(lines as int)[i],
        decreases count - done,
    {
        let ghost wanted = cursor_keys(lines as int);
        let ghost n = 3 * done;
        assert(n % 3 == 0 && (n + 1) % 3 == 1 && (n + 2) % 3 == 2);
        keys.push(0x1b);
        keys.push(0x4f);
        keys.push(last);
        assert(keys@[n] == wanted[n] && keys@[n + 1] == wanted[n + 1] && keys@[n + 2] == wanted[n
            + 2]);
        done = done + 1;
    }
    assert(keys@ == cursor_keys(lines as int));
    keys
}

/// What the emulator's events mean to those who wait for them.
#[derive(Clone, Debug)]
pub enum PtySignal {
    /// The program has ended.
    Exit,
    /// The emulator answers the program.
    PtyWrite(String),
    Other,
}

/// What to do after an event.
#[derive(Clone, Debug)]
pub enum PtyStep {
    /// Wait for no more events.
    Stop,
    /// Send these bytes to the program and go on.
    Reply(Vec<u8>),
    Continue,
}

/// Decides what to do after an event, or after the channel of events has
/// closed.
pub fn subscription_step(signal: Option<PtySignal>) -> (step: PtyStep)
    ensures
        match signal {
            None => step is Stop,
            Some(PtySignal::Exit) => step is Stop,
            Some(PtySignal::PtyWrite(text)) => step matches PtyStep::Reply(bytes) && bytes@
                == encode_utf8(text@),
            Some(PtySignal::Other) => step is Continue,
        },
{
    match signal {
        None => PtyStep::Stop,
        Some(PtySignal::Exit) => PtyStep::Stop,
        Some(PtySignal::PtyWrite(text)) => {
            let mut bytes: Vec<u8> = Vec::new();
            bytes.extend_from_slice(text.as_str().as_bytes());
            assert(bytes@ == encode_utf8(text@));
            PtyStep::Reply(bytes)
        },
        Some(PtySignal::Other) => PtyStep::Continue,
    }
}

/// The backend of one terminal widget. The terminal itself is locked by the
/// caller and handed in with each call.
pub struct TerminalBackend {
    pub id: u64,
    pub pty_id: u32,
    pub url_regex: SearchPattern,
    pub size: TerminalSize,
    pub last_content: RenderableContent,
    /// There is something that has not been drawn.
    pub dirty: bool,
    /// Counts writes and movements, see [`TerminalBackend::content_revision`].
    pub content_revision: u64,
    /// Keep the view in place as content arrives; `None` where the terminal is
    /// not written to directly.
    pub sticky_scroll: Option<bool>,
}

impl TerminalBackend {
    /// The layout is the one in use, or has no room for a cell.
    pub open spec fn ignores(self, fitting: Fitting) -> bool {
        ||| fitting.layout_size == self.size.layout_size && fitting.cell_width
            == self.size.cell_width && fitting.cell_height == self.size.cell_height
        ||| fitting.num_lines == 0
        ||| fitting.num_cols == 0
    }

    /// The layout changes the number of lines or columns.
    pub open spec fn reshapes(self, fitting: Fitting) -> bool {
        !self.ignores(fitting) && (fitting.num_lines != self.size.num_lines || fitting.num_cols
            != self.size.num_cols)
    }

    /// The size after fitting the terminal to a layout.
    pub open spec fn fitted(self, fitting: Fitting) -> TerminalSize {
        if self.ignores(fitting) {
            self.size
        } else {
            TerminalSize {
                layout_size: fitting.layout_size,
                cell_width: fitting.cell_width,
                cell_height: fitting.cell_height,
                num_lines: fitting.num_lines,
                num_cols: fitting.num_cols,
            }
        }
    }

    /// Whether turning the wheel by `delta` lines can be carried out.
    pub open spec fn can_wheel(self, model: TermModel, delta: i32) -> bool {
        if model.mode.has(ALTERNATE_SCROLLING) {
            delta > i32::MIN
        } else {
            model.can_scroll(ScrollMove::Delta(delta))
        }
    }

    /// The command can be carried out on a terminal like this one.
    pub open spec fn accepts(self, model: TermModel, cmd: BackendCommand) -> bool {
        &&& model.wf()
        &&& match cmd {
            BackendCommand::Write(_) => true,
            BackendCommand::Scroll(delta) => self.can_wheel(model, delta),
            BackendCommand::Resize(fitting) => self.reshapes(fitting) ==> fitting.num_cols >= 2
                && model.roomy(),
            BackendCommand::SelectStart(_, _, _) => self.size.divides(),
            BackendCommand::SelectUpdate(_, _) => self.size.divides(),
            BackendCommand::ProcessLink(action, _) => action is Open ==> (
            self.last_content.hovered_hyperlink matches Some(link) ==> model.holds(link.start)),
            BackendCommand::MouseReport(_, _, point, _) => report_fits(
                self.last_content.terminal_mode,
                point,
            ),
        }
    }

    /// Decides [`TerminalBackend::accepts`].
    pub fn can_process(&self, term: &Term<EventProxy>, cmd: &BackendCommand) -> (b: bool)
        ensures
            b == self.accepts(term_model(*term), *cmd),
    {
        if !usable(term) {
            return false;
        }
        match cmd {
            BackendCommand::Write(_) => true,
            BackendCommand::Scroll(delta) => if mode(term).contains(ALTERNATE_SCROLLING) {
                *delta > i32::MIN
            } else {
                display_offset(term) as i64 + *delta as i64 <= i32::MAX as i64
            },
            BackendCommand::Resize(fitting) => {
                let same = fitting.layout_size == self.size.layout_size && fitting.cell_width
                    == self.size.cell_width && fitting.cell_height == self.size.cell_height;
                let reshapes = !same && fitting.num_lines != 0 && fitting.num_cols != 0 && (
                fitting.num_lines != self.size.num_lines || fitting.num_cols != self.size.num_cols);
                !reshapes || (fitting.num_cols >= 2 && is_roomy(term))
            },
            BackendCommand::SelectStart(_, _, _) => self.size.is_divisible(),
            BackendCommand::SelectUpdate(_, _) => self.size.is_divisible(),
            BackendCommand::ProcessLink(action, _) => match action {
                LinkAction::Open => match &self.last_content.hovered_hyperlink {
                    Some(link) => {
                        let screen: usize = screen_lines(term);
                        let history: usize = total_lines(term) - screen;
                        link.start.line >= -(history as i32) && link.start.line < screen as i32
                            && link.start.column < columns(term)
                    },
                    None => true,
                },
                _ => true,
            },
            BackendCommand::MouseReport(_, _, point, _) => can_report(
                self.last_content.terminal_mode,
                *point,
            ),
        }
    }

    /// What a command does: to the backend, to the terminal, and outside.
    pub open spec fn outcome(
        self,
        term: Term<EventProxy>,
        cmd: BackendCommand,
        after: TerminalBackend,
        term_after: Term<EventProxy>,
        effect: Effect,
    ) -> bool {
        let model = term_model(term);
        let model_after = term_model(term_after);
        let touched = TerminalBackend { dirty: true, ..self };
        match cmd {
            BackendCommand::Write(input) => {
                &&& after == self.moved()
                &&& effect.notifies(input@)
                &&& model_after == (TermModel {
                    selection: model_after.selection,
                    ..model.scrolled_with_cursor(ScrollMove::Bottom)
                })
                &&& !model.mode.has(VI) ==> model_after.selection == model.selection
            },
            BackendCommand::Scroll(delta) => {
                &&& after == (if model_after.display_offset == model.display_offset {
                    touched
                } else {
                    self.moved()
                })
                &&& if delta == 0 {
                    effect is Nothing && term_after == term
                } else if model.mode.has(ALTERNATE_SCROLLING) {
                    effect.notifies(cursor_keys(delta as int)) && term_after == term
                } else {
                    effect is Nothing && model_after == model.scrolled(ScrollMove::Delta(delta))
                }
            },
            BackendCommand::Resize(fitting) => {
                &&& after == (TerminalBackend {
                    size: self.fitted(fitting),
                    dirty: self.dirty || self.reshapes(fitting),
                    ..self
                })
                &&& if self.reshapes(fitting) {
                    &&& effect == Effect::Resized(
                        WindowSize {
                            num_lines: fitting.num_lines,
                            num_cols: fitting.num_cols,
                            cell_width: fitting.cell_width,
                            cell_height: fitting.cell_height,
                        },
                    )
                    &&& term_after == resized(
                        term,
                        fitting.num_cols as usize,
                        fitting.num_lines as usize,
                    )
                    &&& model_after.columns == fitting.num_cols
                    &&& model_after.screen_lines == fitting.num_lines
                    &&& model_after.mode == model.mode
                    &&& model_after.total_lines <= i32::MAX ==> model_after.wf()
                } else {
                    effect is Nothing && term_after == term
                }
            },
            BackendCommand::SelectStart(kind, x, y) => {
                let anchor = Anchor {
                    point: point_at(self.size, x as nat, y as nat, model.display_offset),
                    side: side_at(self.size, x as nat),
                };
                &&& after == touched
                &&& effect is Nothing
                &&& model_after == (TermModel {
                    selection: Some(SelectionAnchors { kind, start: anchor, end: anchor }),
                    ..model
                })
            },
            BackendCommand::SelectUpdate(x, y) => {
                let anchor = Anchor {
                    point: point_at(self.size, x as nat, y as nat, model.display_offset),
                    side: side_at(self.size, x as nat),
                };
                &&& after == touched
                &&& effect is Nothing
                &&& match model.selection {
                    Some(selection) => model_after == (TermModel {
                        selection: Some(SelectionAnchors { end: anchor, ..selection }),
                        ..model
                    }),
                    None => term_after == term,
                }
            },
            BackendCommand::ProcessLink(action, point) => {
                &&& term_after == term
                &&& match action {
                    LinkAction::Clear => {
                        &&& effect is Nothing
                        &&& after == touched.hovering(None)
                    },
                    LinkAction::Hover => {
                        &&& effect is Nothing
                        &&& after == touched.hovering(after.last_content.hovered_hyperlink)
                        &&& self.links_at(term, point, after.last_content.hovered_hyperlink)
                    },
                    LinkAction::Open => {
                        &&& after == touched
                        &&& match self.last_content.hovered_hyperlink {
                            Some(link) => effect.opens(link_chars(model, link)),
                            None => effect is Nothing,
                        }
                    },
                }
            },
            BackendCommand::MouseReport(button, modifiers, point, pressed) => {
                &&& after == touched
                &&& term_after == term
                &&& match report_of(
                    self.last_content.terminal_mode,
                    button,
                    modifiers,
                    point,
                    pressed,
                ) {
                    Some(bytes) => effect.notifies(bytes),
                    None => effect is Nothing,
                }
            },
        }
    }

    /// The same backend after a write or a movement of the viewport.
    pub open spec fn moved(self) -> TerminalBackend {
        TerminalBackend {
            dirty: true,
            content_revision: next_revision(self.content_revision),
            ..self
        }
    }

    /// Notes a write or a movement of the viewport: there is something to draw,
    /// and the count goes up.
    pub(crate) fn note_movement(&mut self)
        ensures
            *final(self) == old(self).moved(),
    {
        self.dirty = true;
        self.content_revision = self.content_revision.wrapping_add(1);
    }

    /// Notes that the viewport may have moved: there is something to draw, and the
    /// count goes up if it has.
    pub(crate) fn note_scroll(&mut self, before: usize, term: &Term<EventProxy>)
        ensures
            *final(self) == (if term_model(*term).display_offset == before {
                TerminalBackend { dirty: true, ..*old(self) }
            } else {
                old(self).moved()
            }),
    {
        if display_offset(term) == before {
            self.dirty = true;
        } else {
            self.note_movement();
        }
    }

    /// The same backend with another link under the pointer.
    pub open spec fn hovering(self, link: Option<SearchMatch>) -> TerminalBackend {
        TerminalBackend {
            last_content: RenderableContent { hovered_hyperlink: link, ..self.last_content },
            ..self
        }
    }

    /// `link` is the first link in the viewport that covers the point, if any
    /// does.
    pub open spec fn links_at(
        self,
        term: Term<EventProxy>,
        point: Point,
        link: Option<SearchMatch>,
    ) -> bool {
        first_covering(visible_matches(term_model(term), self.url_regex@), point, link)
    }

    /// A new backend over `term`.
    pub open spec fn starts(
        self,
        id: u64,
        pty_id: u32,
        model: TermModel,
        url_regex: SearchPattern,
        sticky_scroll: Option<bool>,
    ) -> bool {
        self == (TerminalBackend {
            id,
            pty_id,
            url_regex,
            size: TerminalSize::initial(),
            last_content: RenderableContent {
                display_offset: model.display_offset as usize,
                cursor_point: model.cursor,
                hovered_hyperlink: None,
                selectable_range: None,
                cursor: model.cursor_cell,
                terminal_mode: model.mode,
                terminal_size: TerminalSize::initial(),
            },
            dirty: true,
            content_revision: 0,
            sticky_scroll,
        })
    }

    /// A new backend over a terminal.
    fn attach(
        id: u64,
        pty_id: u32,
        term: &mut Term<EventProxy>,
        url_regex: SearchPattern,
        sticky_scroll: Option<bool>,
    ) -> (backend: TerminalBackend)
        requires
            term_model(*old(term)).wf(),
        ensures
            backend.starts(id, pty_id, term_model(*old(term)), url_regex, sticky_scroll),
            text_of(backend.last_content.cursor) == term_model(*old(term)).text().at(
                term_model(*old(term)).cursor,
            ),
            term_model(*final(term)) == term_model(*old(term)),
    {
        let size = TerminalSize::default();
        let last_content = RenderableContent {
            display_offset: display_offset(term),
            cursor_point: cursor_point(term),
            hovered_hyperlink: None,
            selectable_range: None,
            terminal_mode: mode(term),
            terminal_size: size,
            cursor: cursor_cell(term),
        };
        TerminalBackend {
            id,
            pty_id,
            url_regex,
            size,
            last_content,
            dirty: true,
            content_revision: 0,
            sticky_scroll,
        }
    }

    /// A new backend together with a blank terminal of its size.
    fn start(
        id: u64,
        pty_id: u32,
        proxy: EventProxy,
        url_regex: SearchPattern,
        sticky_scroll: Option<bool>,
    ) -> (made: (TerminalBackend, Term<EventProxy>))
        ensures
            made.0.starts(id, pty_id, term_model(made.1), url_regex, sticky_scroll),
            made.0.over_blank(term_model(made.1)),
    {
        let size = TerminalSize::default();
        let mut term = new_term(size.num_cols as usize, size.num_lines as usize, proxy);
        let backend = TerminalBackend::attach(id, pty_id, &mut term, url_regex, sticky_scroll);
        assert(term_model(term).covers(0, 0));
        (backend, term)
    }

    /// The terminal is blank and of the backend's size, and so is the cell under
    /// its cursor.
    pub open spec fn over_blank(self, model: TermModel) -> bool {
        &&& model.blank(self.size.num_cols as usize, self.size.num_lines as usize)
        &&& text_of(self.last_content.cursor) == (CellText { c: ' ', flags: 0 })
    }

    /// A backend and its terminal, which is fed by the process `pty_id`.
    pub fn new(id: u64, pty_id: u32, proxy: EventProxy, url_regex: SearchPattern) -> (made: (
        TerminalBackend,
        Term<EventProxy>,
    ))
        ensures
            made.0.starts(id, pty_id, term_model(made.1), url_regex, None),
            made.0.over_blank(term_model(made.1)),
    {
        TerminalBackend::start(id, pty_id, proxy, url_regex, None)
    }

    /// A backend and its terminal, which is fed by a stream: there is no process.
    pub fn new_streaming(id: u64, proxy: EventProxy, url_regex: SearchPattern) -> (made: (
        TerminalBackend,
        Term<EventProxy>,
    ))
        ensures
            made.0.starts(id, 0, term_model(made.1), url_regex, None),
            made.0.over_blank(term_model(made.1)),
    {
        TerminalBackend::start(id, 0, proxy, url_regex, None)
    }

    /// A backend and its terminal, which is written to directly, so that the
    /// view can be kept in place meanwhile; and what writes to it.
    pub fn new_direct(id: u64, proxy: EventProxy, url_regex: SearchPattern) -> (made: (
        TerminalBackend,
        Term<EventProxy>,
        DirectWriter,
    ))
        ensures
            made.0.starts(id, 0, term_model(made.1), url_regex, Some(false)),
            made.0.over_blank(term_model(made.1)),
            made.2.is_new(),
    {
        let made = TerminalBackend::start(id, 0, proxy, url_regex, Some(false));
        (made.0, made.1, DirectWriter::new())
    }

    /// Carries a command out.
    pub fn process_command(
        &mut self,
        term: &mut Term<EventProxy>,
        cmd: BackendCommand,
    ) -> (effect: Effect)
        requires
            old(self).accepts(term_model(*old(term)), cmd),
            term_model(*old(term)).kept(),
        ensures
            old(self).outcome(*old(term), cmd, *final(self), *final(term), effect),
            term_model(*final(term)).kept(),
    {
        match cmd {
            BackendCommand::Write(input) => {
                self.note_movement();
                scroll_term(term, ScrollMove::Bottom);
                Effect::Notify(input)
            },
            BackendCommand::Scroll(delta) => {
                let before: usize = display_offset(term);
                let effect = self.scroll(term, delta);
                self.note_scroll(before, term);
                effect
            },
            BackendCommand::Resize(fitting) => self.resize(term, fitting),
            BackendCommand::SelectStart(kind, x, y) => {
                self.dirty = true;
                self.start_selection(term, kind, x, y);
                Effect::Nothing
            },
            BackendCommand::SelectUpdate(x, y) => {
                self.dirty = true;
                self.update_selection(term, x, y);
                Effect::Nothing
            },
            BackendCommand::ProcessLink(action, point) => {
                self.dirty = true;
                self.process_link_action(term, action, point)
            },
            BackendCommand::MouseReport(button, modifiers, point, pressed) => {
                self.dirty = true;
                match process_mouse_report(
                    self.last_content.terminal_mode,
                    button,
                    modifiers,
                    point,
                    pressed,
                ) {
                    Some(bytes) => Effect::Notify(bytes),
                    None => Effect::Nothing,
                }
            },
        }
    }

    fn scroll(&self, term: &mut Term<EventProxy>, delta: i32) -> (effect: Effect)
        requires
            term_model(*old(term)).wf(),
            self.can_wheel(term_model(*old(term)), delta),
        ensures
            ({
                let model = term_model(*old(term));
                if delta == 0 {
                    effect is Nothing && *final(term) == *old(term)
                } else if model.mode.has(ALTERNATE_SCROLLING) {
                    effect.notifies(cursor_keys(delta as int)) && *final(term) == *old(term)
                } else {
                    effect is Nothing && term_model(*final(term)) == model.scrolled(
                        ScrollMove::Delta(delta),
                    )
                }
            }),
    {
        if delta == 0 {
            Effect::Nothing
        } else if mode(term).contains(ALTERNATE_SCROLLING) {
            Effect::Notify(build_cursor_keys(delta))
        } else {
            scroll_grid(term, ScrollMove::Delta(delta));
            Effect::Nothing
        }
    }

    fn resize(&mut self, term: &mut Term<EventProxy>, fitting: Fitting) -> (effect: Effect)
        requires
            term_model(*old(term)).wf(),
            term_model(*old(term)).kept(),
            old(self).reshapes(fitting) ==> fitting.num_cols >= 2 && term_model(*old(term)).roomy(),
        ensures
            old(self).outcome(
                *old(term),
                BackendCommand::Resize(fitting),
                *final(self),
                *final(term),
                effect,
            ),
            term_model(*final(term)).kept(),
    {
        if fitting.layout_size == self.size.layout_size && fitting.cell_width
            == self.size.cell_width && fitting.cell_height == self.size.cell_height {
            return Effect::Nothing;
        }
        if fitting.num_lines == 0 || fitting.num_cols == 0 {
            return Effect::Nothing;
        }
        let grid_changed = fitting.num_lines != self.size.num_lines || fitting.num_cols
            != self.size.num_cols;
        self.size.layout_size = fitting.layout_size;
        self.size.cell_width = fitting.cell_width;
        self.size.cell_height = fitting.cell_height;
        if grid_changed {
            self.size.num_lines = fitting.num_lines;
            self.size.num_cols = fitting.num_cols;
            self.dirty = true;
            resize(term, fitting.num_cols as usize, fitting.num_lines as usize);
            Effect::Resized(WindowSize::from(self.size))
        } else {
            Effect::Nothing
        }
    }

    /// The cell of the grid under a position in the widget.
    pub fn selection_point(
        x: usize,
        y: usize,
        terminal_size: &TerminalSize,
        display_offset: usize,
    ) -> (point: Point)
        requires
            terminal_size.divides(),
            display_offset <= i32::MAX,
        ensures
            point == point_at(*terminal_size, x as nat, y as nat, display_offset as nat),
    {
        let column: usize = x / terminal_size.cell_width as usize;
        let column: usize = if column < terminal_size.num_cols as usize {
            column
        } else {
            terminal_size.num_cols as usize - 1
        };
        let line: usize = y / terminal_size.cell_height as usize;
        let line: usize = if line < terminal_size.num_lines as usize {
            line
        } else {
            terminal_size.num_lines as usize - 1
        };
        viewport_to_point(display_offset, line, column)
    }

    fn selection_side(&self, x: usize) -> (side: Side)
        requires
            self.size.divides(),
        ensures
            side == side_at(self.size, x as nat),
    {
        let cell_x: usize = x % self.size.cell_width as usize;
        if cell_x > self.size.cell_width as usize / 2 {
            Side::Right
        } else {
            Side::Left
        }
    }

    fn start_selection(
        &self,
        term: &mut Term<EventProxy>,
        kind: SelectionType,
        x: usize,
        y: usize,
    )
        requires
            term_model(*old(term)).wf(),
            self.size.divides(),
        ensures
            ({
                let model = term_model(*old(term));
                let anchor = Anchor {
                    point: point_at(self.size, x as nat, y as nat, model.display_offset),
                    side: side_at(self.size, x as nat),
                };
                term_model(*final(term)) == (TermModel {
                    selection: Some(SelectionAnchors { kind, start: anchor, end: anchor }),
                    ..model
                })
            }),
    {
        let location = TerminalBackend::selection_point(x, y, &self.size, display_offset(term));
        begin_selection(term, kind, location, self.selection_side(x));
    }

    fn update_selection(&self, term: &mut Term<EventProxy>, x: usize, y: usize)
        requires
            term_model(*old(term)).wf(),
            self.size.divides(),
        ensures
            ({
                let model = term_model(*old(term));
                let anchor = Anchor {
                    point: point_at(self.size, x as nat, y as nat, model.display_offset),
                    side: side_at(self.size, x as nat),
                };
                match model.selection {
                    Some(selection) => term_model(*final(term)) == (TermModel {
                        selection: Some(SelectionAnchors { end: anchor, ..selection }),
                        ..model
                    }),
                    None => *final(term) == *old(term),
                }
            }),
    {
        if has_selection(term) {
            let location = TerminalBackend::selection_point(x, y, &self.size, display_offset(term));
            extend_selection(term, location, self.selection_side(x));
        }
    }

    fn process_link_action(
        &mut self,
        term: &Term<EventProxy>,
        action: LinkAction,
        point: Point,
    ) -> (effect: Effect)
        requires
            term_model(*term).wf(),
            action is Open ==> (old(self).last_content.hovered_hyperlink matches Some(link)
                ==> term_model(*term).holds(link.start)),
        ensures
            match action {
                LinkAction::Clear => effect is Nothing && *final(self) == old(self).hovering(None),
                LinkAction::Hover => {
                    &&& effect is Nothing
                    &&& *final(self) == old(self).hovering(
                        final(self).last_content.hovered_hyperlink,
                    )
                    &&& old(self).links_at(
                        *term,
                        point,
                        final(self).last_content.hovered_hyperlink,
                    )
                },
                LinkAction::Open => *final(self) == *old(self) && match old(
                    self,
                ).last_content.hovered_hyperlink {
                    Some(link) => effect.opens(link_chars(term_model(*term), link)),
                    None => effect is Nothing,
                },
            },
    {
        match action {
            LinkAction::Hover => {
                self.last_content.hovered_hyperlink = regex_match_at(term, point, &self.url_regex);
                Effect::Nothing
            },
            LinkAction::Clear => {
                self.last_content.hovered_hyperlink = None;
                Effect::Nothing
            },
            LinkAction::Open => match self.open_link(term) {
                Some(url) => Effect::OpenLink(url),
                None => Effect::Nothing,
            },
        }
    }

    /// The address of the link under the pointer.
    pub fn open_link(&self, term: &Term<EventProxy>) -> (url: Option<String>)
        requires
            term_model(*term).wf(),
            self.last_content.hovered_hyperlink matches Some(link) ==> term_model(*term).holds(
                link.start,
            ),
        ensures
            url is Some <==> self.last_content.hovered_hyperlink is Some,
            url matches Some(text) ==> text@ == link_chars(
                term_model(*term),
                self.last_content.hovered_hyperlink->0,
            ),
    {
        match &self.last_content.hovered_hyperlink {
            Some(link) => Some(link_text(term, link)),
            None => None,
        }
    }

    /// The content that the widget draws from, as of now.
    pub open spec fn content_of(self, term: Term<EventProxy>) -> RenderableContent {
        let model = term_model(term);
        RenderableContent {
            display_offset: model.display_offset as usize,
            cursor_point: model.cursor,
            hovered_hyperlink: self.last_content.hovered_hyperlink,
            selectable_range: selected_range(term),
            cursor: model.cursor_cell,
            terminal_mode: model.mode,
            terminal_size: self.size,
        }
    }

    /// Takes the terminal's state over for drawing, unless there is nothing new
    /// in it. Tells whether there was.
    pub fn sync_with_term(&mut self, term: &mut Term<EventProxy>) -> (synced: bool)
        requires
            term_model(*old(term)).wf(),
            term_model(*old(term)).kept(),
        ensures
            synced == old(self).dirty,
            !synced ==> *final(self) == *old(self),
            synced ==> *final(self) == (TerminalBackend {
                dirty: false,
                last_content: old(self).content_of(*old(term)),
                ..*old(self)
            }),
            synced ==> final(self).selection_in(term_model(*final(term))),
            term_model(*final(term)) == term_model(*old(term)),
    {
        if !self.dirty {
            return false;
        }
        self.dirty = false;
        self.last_content.selectable_range = selection_range(term);
        self.last_content.display_offset = display_offset(term);
        self.last_content.cursor_point = cursor_point(term);
        self.last_content.terminal_mode = mode(term);
        self.last_content.cursor = cursor_cell(term);
        self.last_content.terminal_size = self.size;
        true
    }

    /// All text of the terminal, scrollback and screen.
    pub fn full_text(&self, term: &Term<EventProxy>) -> (text: String)
        requires
            term_model(*term).wf(),
        ensures
            text@ == whole_text(term_model(*term)),
    {
        full_text(term)
    }

    /// The selection, if there is one, lies in the terminal's grid.
    pub open spec fn selection_in(self, model: TermModel) -> bool {
        self.last_content.selectable_range matches Some(range) ==> selection_fits(model, range)
    }

    /// Decides [`TerminalBackend::selection_in`], for a terminal that is
    /// usable.
    pub fn can_copy(&self, term: &Term<EventProxy>) -> (b: bool)
        ensures
            b == (term_model(*term).wf() && self.selection_in(term_model(*term))),
    {
        if !usable(term) {
            return false;
        }
        match &self.last_content.selectable_range {
            Some(range) => {
                let screen: usize = screen_lines(term);
                let history: usize = total_lines(term) - screen;
                range.start.line > range.end.line || (range.start.line >= -(history as i32)
                    && range.end.line < screen as i32 && range.end.column < columns(term))
            },
            None => true,
        }
    }

    /// The text of the selection; nothing where nothing is selected.
    pub open spec fn selection_chars(self, model: TermModel) -> Seq<char> {
        match self.last_content.selectable_range {
            Some(range) => selected_text(model, range),
            None => Seq::empty(),
        }
    }

    /// The selected text.
    pub fn selectable_content(&self, term: &Term<EventProxy>) -> (text: String)
        requires
            term_model(*term).wf(),
            self.selection_in(term_model(*term)),
        ensures
            text@ == self.selection_chars(term_model(*term)),
    {
        match &self.last_content.selectable_range {
            Some(range) => selection_text(term, range),
            None => String::new(),
        }
    }

    pub fn is_dirty(&self) -> (dirty: bool)
        ensures
            dirty == self.dirty,
    {
        self.dirty
    }

    /// A count that goes up with every write and every movement of the viewport,
    /// so that two snapshots tell whether there was one in between.
    pub fn content_revision(&self) -> (revision: u64)
        ensures
            revision == self.content_revision,
    {
        self.content_revision
    }

    pub fn mark_dirty(&mut self)
        ensures
            *final(self) == (TerminalBackend { dirty: true, ..*old(self) }),
    {
        self.dirty = true;
    }

    /// Switches the keeping of the view on or off, where the terminal is
    /// written to directly.
    pub fn set_sticky_scroll(&mut self, enabled: bool)
        ensures
            *final(self) == (TerminalBackend {
                sticky_scroll: if old(self).sticky_scroll is Some {
                    Some(enabled)
                } else {
                    None
                },
                ..*old(self)
            }),
    {
        if self.sticky_scroll.is_some() {
            self.sticky_scroll = Some(enabled);
        }
    }

    /// Scrolls to the oldest line of the scrollback.
    pub fn scroll_to_top(&mut self, term: &mut Term<EventProxy>)
        requires
            term_model(*old(term)).wf(),
        ensures
            term_model(*final(term)) == term_model(*old(term)).scrolled(ScrollMove::Top),
            *final(self) == (if term_model(*old(term)).display_offset == term_model(
                *old(term),
            ).history() {
                TerminalBackend { dirty: true, ..*old(self) }
            } else {
                old(self).moved()
            }),
    {
        let before: usize = display_offset(term);
        scroll_grid(term, ScrollMove::Top);
        self.note_scroll(before, term);
    }

    /// Whether the viewport shows the screen, without any scrollback.
    pub fn is_at_bottom(&self, term: &Term<EventProxy>) -> (b: bool)
        ensures
            b == (term_model(*term).display_offset == 0),
    {
        display_offset(term) == 0
    }

    pub fn last_content(&self) -> (content: &RenderableContent)
        ensures
            *content == self.last_content,
    {
        &self.last_content
    }

    pub fn id(&self) -> (id: u64)
        ensures
            id == self.id,
    {
        self.id
    }

    pub fn pty_id(&self) -> (pty_id: u32)
        ensures
            pty_id == self.pty_id,
    {
        self.pty_id
    }

    /// The shape of the grid and the position of the viewport.
    pub fn grid_bounds(&self, term: &Term<EventProxy>) -> (bounds: GridBounds)
        requires
            term_model(*term).wf(),
        ensures
            bounds.display_offset == term_model(*term).display_offset,
            bounds.screen_lines == term_model(*term).screen_lines,
            bounds.columns == term_model(*term).columns,
            bounds.total_lines == term_model(*term).total_lines,
            bounds.bottommost_line == term_model(*term).bottommost(),
    {
        let screen: i32 = screen_lines(term) as i32;
        GridBounds {
            display_offset: display_offset(term) as i32,
            screen_lines: screen,
            columns: columns(term),
            total_lines: total_lines(term),
            bottommost_line: screen - 1,
        }
    }

    /// The distance to a line can be worked out in 32 bits.
    pub open spec fn can_reach(model: TermModel, line: i32) -> bool {
        line > i32::MIN && line - model.viewport_end() <= i32::MAX
    }

    /// The least movement that brings a line into the viewport.
    pub open spec fn movement_to(model: TermModel, line: i32) -> Option<ScrollMove> {
        if line < model.viewport_start() {
            Some(ScrollMove::Delta((model.viewport_start() - line) as i32))
        } else if line > model.viewport_end() {
            Some(ScrollMove::Delta((model.viewport_end() - line) as i32))
        } else {
            None
        }
    }

    /// Decides whether [`TerminalBackend::scroll_to_point`] can be asked for a
    /// point.
    pub fn can_scroll_to(&self, term: &Term<EventProxy>, point: Point) -> (b: bool)
        ensures
            b == (term_model(*term).wf() && TerminalBackend::can_reach(
                term_model(*term),
                point.line,
            )),
    {
        if !usable(term) {
            return false;
        }
        let last: i64 = screen_lines(term) as i64 - 1 - display_offset(term) as i64;
        point.line > i32::MIN && point.line as i64 - last <= i32::MAX as i64
    }

    /// Scrolls so that the given point is visible, and no further.
    pub fn scroll_to_point(&mut self, term: &mut Term<EventProxy>, point: Point)
        requires
            term_model(*old(term)).wf(),
            TerminalBackend::can_reach(term_model(*old(term)), point.line),
        ensures
            match TerminalBackend::movement_to(term_model(*old(term)), point.line) {
                Some(movement) => {
                    &&& term_model(*final(term)) == term_model(*old(term)).scrolled(movement)
                    &&& *final(self) == (if term_model(*final(term)).display_offset == term_model(
                        *old(term),
                    ).display_offset {
                        TerminalBackend { dirty: true, ..*old(self) }
                    } else {
                        old(self).moved()
                    })
                },
                None => *final(term) == *old(term) && *final(self) == *old(self),
            },
    {
        let before: usize = display_offset(term);
        let first: i32 = -(before as i32);
        let last: i32 = first + (screen_lines(term) as i32 - 1);
        if point.line < first {
            let delta: i32 = first - point.line;
            scroll_grid(term, ScrollMove::Delta(delta));
            self.note_scroll(before, term);
        } else if point.line > last {
            let delta: i32 = point.line - last;
            scroll_grid(term, ScrollMove::Delta(-delta));
            self.note_scroll(before, term);
        }
    }

    /// Every match in the scrollback and on the screen.
    pub fn search_all(&self, term: &Term<EventProxy>, regex: &SearchPattern) -> (found: Vec<
        SearchMatch,
    >)
        requires
            term_model(*term).wf(),
        ensures
            found@ == whole_matches(term_model(*term).text(), regex@),
            all_in_grid(term_model(*term), found@),
    {
        search_all_in_term(term, regex)
    }

    /// The matches that show in the viewport.
    pub fn search_visible(&self, term: &Term<EventProxy>, regex: &SearchPattern) -> (found: Vec<
        SearchMatch,
    >)
        requires
            term_model(*term).wf(),
        ensures
            found@ == visible_matches(term_model(*term), regex@),
            all_in_grid(term_model(*term), found@),
    {
        visible_regex_match_iter(term, regex)
    }

    /// The next match behind `from`, in the buffer as it is now. An anchor that
    /// the buffer has outgrown counts for the nearest cell.
    pub fn next_match_after(
        &self,
        term: &Term<EventProxy>,
        regex: &SearchPattern,
        from: Point,
    ) -> (found: Option<SearchMatch>)
        requires
            term_model(*term).wf(),
        ensures
            found == next_match(term_model(*term), regex@, from),
    {
        next_match_after(term, regex, from)
    }

    /// The next match before `from`, in the buffer as it is now.
    pub fn prev_match_before(
        &self,
        term: &Term<EventProxy>,
        regex: &SearchPattern,
        from: Point,
    ) -> (found: Option<SearchMatch>)
        requires
            term_model(*term).wf(),
        ensures
            found == previous_match(term_model(*term), regex@, from),
    {
        prev_match_before(term, regex, from)
    }
}

/// A terminal before a write: where the viewport stood, and how much scrollback
/// there was.
#[derive(Clone, Copy, Debug, PartialEq, Eq, Structural)]
pub struct WriteMark {
    pub old_offset: usize,
    pub old_history: usize,
}

impl WriteMark {
    pub open spec fn of(model: TermModel) -> WriteMark {
        WriteMark {
            old_offset: model.display_offset as usize,
            old_history: model.history() as usize,
        }
    }

    /// The view is to be kept where it is: the user has scrolled up, and lines
    /// have gone into the scrollback.
    pub open spec fn holds_view(self, sticky_scroll: Option<bool>, model: TermModel) -> bool {
        &&& sticky_scroll == Some(true)
        &&& self.old_offset > 0
        &&& self.old_history < model.history()
        &&& model.total_lines <= i32::MAX
    }

    /// Where the viewport stands after the write.
    pub open spec fn offset_after(self, sticky_scroll: Option<bool>, model: TermModel) -> nat {
        if self.holds_view(sticky_scroll, model) {
            let shifted = self.old_offset + (model.history() - self.old_history);
            if shifted < model.history() {
                shifted as nat
            } else {
                model.history() as nat
            }
        } else {
            model.display_offset
        }
    }

    /// What becomes of a terminal that has taken the bytes in.
    pub open spec fn settled(self, sticky_scroll: Option<bool>, model: TermModel) -> TermModel {
        if self.holds_view(sticky_scroll, model) {
            model.scrolled_with_cursor(ScrollMove::Bottom).scrolled_with_cursor(
                ScrollMove::Delta(self.offset_after(sticky_scroll, model) as i32),
            )
        } else {
            model
        }
    }

    /// Notes the viewport before a write.
    pub fn begin(term: &Term<EventProxy>) -> (mark: WriteMark)
        requires
            term_model(*term).wf(),
        ensures
            mark == WriteMark::of(term_model(*term)),
            mark.old_offset == term_model(*term).display_offset,
            mark.old_history == term_model(*term).history(),
    {
        WriteMark {
            old_offset: display_offset(term),
            old_history: total_lines(term) - screen_lines(term),
        }
    }

    /// Completes a write, after the emulator has taken the bytes in: keeps the
    /// view where it is, if it is to be kept, and notes that there is something
    /// to draw and that the content has changed.
    pub fn complete(&self, backend: &mut TerminalBackend, term: &mut Term<EventProxy>)
        requires
            1 <= term_model(*old(term)).columns <= usize::MAX,
            1 <= term_model(*old(term)).screen_lines <= term_model(*old(term)).total_lines,
            term_model(*old(term)).kept(),
            self.old_offset <= i32::MAX,
        ensures
            *final(backend) == old(backend).moved(),
            ({
                let model = term_model(*old(term));
                let after = term_model(*final(term));
                &&& after == (TermModel {
                    selection: after.selection,
                    ..self.settled(old(backend).sticky_scroll, model)
                })
                &&& !model.mode.has(VI) || !self.holds_view(old(backend).sticky_scroll, model)
                    ==> after.selection == model.selection
                &&& after.display_offset == self.offset_after(old(backend).sticky_scroll, model)
                &&& after.kept()
            }),
            forall|feeder: Feeder, data: Seq<u8>|
                #![trigger fed(feeder, *final(term), data)]
                fed(feeder, *final(term), data).same_page(fed(feeder, *old(term), data)),
    {
        let sticky = match backend.sticky_scroll {
            Some(enabled) => enabled,
            None => false,
        };
        let total: usize = total_lines(term);
        if sticky && self.old_offset > 0 && total <= i32::MAX as usize {
            let history: usize = total - screen_lines(term);
            let added: usize = if history > self.old_history {
                history - self.old_history
            } else {
                0
            };
            if added > 0 {
                let shifted: u64 = self.old_offset as u64 + added as u64;
                let offset: i32 = if shifted < history as u64 {
                    shifted as i32
                } else {
                    history as i32
                };
                let ghost before = *term;
                scroll_term(term, ScrollMove::Bottom);
                let ghost between = *term;
                scroll_term(term, ScrollMove::Delta(offset));
                assert forall|feeder: Feeder, data: Seq<u8>|
                    #![trigger fed(feeder, *term, data)]
                    fed(feeder, *term, data).same_page(fed(feeder, before, data)) by {
                    assert(fed(feeder, between, data).same_page(fed(feeder, before, data)));
                }
            }
        }
        backend.note_movement();
    }
}

/// Writes bytes to a terminal directly, without a process in between.
pub struct DirectWriter {
    /// What the bytes so far have left unfinished.
    pub feeder: Feeder,
    /// The sequence that the bytes so far have ended in.
    pub sequence: Sequence,
}

impl DirectWriter {
    /// The parser is no further than the bytes are.
    pub open spec fn wf(self) -> bool {
        unfinished(self.feeder).within(self.sequence)
    }

    /// Nothing has been written.
    pub open spec fn is_new(self) -> bool {
        &&& self.wf()
        &&& self.sequence is Outside
        &&& held_back(self.feeder) == 0
        &&& !updating(self.feeder)
        &&& between_chars(self.feeder)
    }

    /// A writer that has written nothing.
    pub fn new() -> (writer: DirectWriter)
        ensures
            writer.is_new(),
    {
        DirectWriter { feeder: new_feeder(), sequence: Sequence::Outside }
    }

    /// The bytes can be written to a terminal like this one. A terminal with a
    /// selection takes fewer of them at once.
    pub open spec fn accepts(self, model: TermModel, data: Seq<u8>) -> bool {
        &&& model.wf()
        &&& model.roomy()
        &&& model.columns >= 2
        &&& self.sequence.has_room(data)
        &&& model.selection is Some ==> held_back(self.feeder) + data.len() <= FEED_ROOM
    }

    /// Decides [`DirectWriter::accepts`].
    pub fn can_write(&self, term: &Term<EventProxy>, data: &[u8]) -> (b: bool)
        ensures
            b == self.accepts(term_model(*term), data@),
    {
        let held: usize = held_back_bytes(&self.feeder);
        let len: usize = data.len();
        usable(term) && is_roomy(term) && columns(term) >= 2 && self.sequence.read(data).is_some()
            && (!has_selection(term) || (len <= FEED_ROOM && held <= FEED_ROOM - len))
    }

    /// The writer stands between two pieces of text: not within a character, nor
    /// in a synchronized update.
    pub open spec fn in_step(self) -> bool {
        self.wf() && between_chars(self.feeder) && !updating(self.feeder)
    }

    /// What a write does to the terminal: it takes the bytes in, and the
    /// viewport is where [`WriteMark::offset_after`] says. What further text does
    /// is what it does behind this in one write, as far as no synchronized update
    /// begins. The cell under the cursor is left open, and so is the selection
    /// while the vi mode keeps the view in place.
    pub open spec fn wrote(
        self,
        term: Term<EventProxy>,
        data: Seq<u8>,
        sticky_scroll: Option<bool>,
        after: DirectWriter,
        term_after: Term<EventProxy>,
    ) -> bool {
        let taken = fed(self.feeder, term, data);
        let mark = WriteMark::of(term_model(term));
        let model = term_model(term_after);
        &&& model == (TermModel {
            selection: model.selection,
            cursor_cell: model.cursor_cell,
            ..mark.settled(sticky_scroll, taken)
        })
        &&& !taken.mode.has(VI) || !mark.holds_view(sticky_scroll, taken) ==> model.selection
            == taken.selection
        &&& model.display_offset == mark.offset_after(sticky_scroll, taken)
        &&& after.wf()
        &&& after.sequence == self.sequence.after(data)
        &&& held_back(after.feeder) <= held_back(self.feeder) + data.len()
        &&& !updating(self.feeder) && !self.sequence.asks_update(data) || ends_update(data)
            ==> !updating(after.feeder)
        &&& between_chars(self.feeder) && valid_utf8(data) ==> between_chars(after.feeder)
        &&& forall|more: Seq<u8>|
            #![trigger fed(after.feeder, term_after, more)]
            self.in_step() && valid_utf8(data) && valid_utf8(more) && !self.sequence.asks_update(
                data + more,
            ) ==> fed(after.feeder, term_after, more).same_page(
                fed(self.feeder, term, data + more),
            )
    }

    /// Feeds bytes into the terminal. The view stays where it is if it is to be
    /// kept; a view of the main screen stays at the screen.
    pub fn write(
        &mut self,
        backend: &mut TerminalBackend,
        term: &mut Term<EventProxy>,
        data: &[u8],
    )
        requires
            old(self).wf(),
            old(self).accepts(term_model(*old(term)), data@),
            term_model(*old(term)).kept(),
        ensures
            *final(backend) == old(backend).moved(),
            old(self).wrote(
                *old(term),
                data@,
                old(backend).sticky_scroll,
                *final(self),
                *final(term),
            ),
            term_model(*final(term)).columns == term_model(*old(term)).columns,
            term_model(*final(term)).screen_lines == term_model(*old(term)).screen_lines,
            term_model(*old(term)).selection is None && !fed(
                old(self).feeder,
                *old(term),
                data@,
            ).mode.has(VI) ==> term_model(*final(term)).selection is None,
            term_model(*old(term)).display_offset == 0 && !term_model(*old(term)).mode.has(
                ALT_SCREEN,
            ) ==> term_model(*final(term)).display_offset == 0,
            term_model(*final(term)).total_lines <= i32::MAX && term_model(
                *final(term),
            ).display_offset <= term_model(*final(term)).history() ==> term_model(
                *final(term),
            ).wf(),
            term_model(*final(term)).kept(),
    {
        let mark = WriteMark::begin(term);
        let ghost before = *term;
        let ghost writer = *self;
        proof {
            unfinished(writer.feeder).lemma_within(writer.sequence, data@);
        }
        if let Some(sequence) = self.sequence.read(data) {
            self.sequence = sequence;
        }
        feed(&mut self.feeder, term, data);
        let ghost taken = *term;
        mark.complete(backend, term);
        proof {
            assert forall|more: Seq<u8>|
                #![trigger fed(self.feeder, *term, more)]
                writer.in_step() && valid_utf8(data@) && valid_utf8(more)
                    && !writer.sequence.asks_update(data@ + more) implies fed(
                self.feeder,
                *term,
                more,
            ).same_page(fed(writer.feeder, before, data@ + more)) by {
                unfinished(writer.feeder).lemma_within(writer.sequence, data@ + more);
                assert(fed(self.feeder, taken, more).same_page(
                    fed(writer.feeder, before, data@ + more),
                ));
            }
        }
    }
}

} // verus!
