//! The widget's own state, and what it does with each event and each frame.

use alacritty_terminal::term::Term;
use vstd::prelude::*;

use crate::backend::{point_at, RenderableContent, TerminalBackend};
use crate::geometry::{Point, SearchMatch};
use crate::highlight::{current_is, pick_current, Highlights};
use crate::input::{BindingAction, InputAction, InputKind, Modifiers, PointerButton};
use crate::keyboard::{
    can_take_event, event_comes_to, event_fits, process_keyboard_event, KeyboardEvent,
};
use crate::mode::{TerminalMode, VI};
use crate::mouse::{
    button_comes_to, can_move, move_actions, move_fits, process_button_click, process_mouse_move,
    process_mouse_wheel, wheel_action, Clicks, Overshoot, WheelUnit,
};
use crate::paint::{
    border_of, border_rows, paint_cells, paints, rows_paints, BorderRow, CellPaint, ColumnBand,
    PaintOptions,
};
use crate::search::{
    band_first, band_last, band_matches, visible_regex_match_iter_in_cols, SearchPattern,
    SCAN_PADDING,
};
use crate::terminal::{
    columns, display_offset, screen_lines, scroll_term, term_model, total_lines, usable,
    EventProxy, ScrollMove, TermModel,
};

verus! {

/// A rectangle in whole pixels.
#[derive(Clone, Copy, Debug, PartialEq, Eq, Structural)]
pub struct PixelRect {
    pub min_x: i64,
    pub min_y: i64,
    pub max_x: i64,
    pub max_y: i64,
}

/// What the widget remembers from frame to frame.
#[derive(Clone, Copy, Debug, PartialEq, Eq)]
pub struct TerminalViewState {
    pub is_dragged: bool,
    pub current_mouse_position_on_grid: Point,
    pub scrollbar_dragging: bool,
    /// The start of the current match, as it was last painted. It follows the
    /// match while streaming content moves it.
    pub tracked_current: Option<Point>,
    /// The current match that the caller last asked for.
    pub last_caller_current: Option<Point>,
    /// There are shapes of an earlier frame. The fields below say what of.
    pub has_shapes: bool,
    pub cached_rect: Option<PixelRect>,
    pub cached_visible: Option<PixelRect>,
    pub cached_h_offset: usize,
    pub cached_search_key: u64,
    pub cached_current_match: Option<Point>,
    /// The frame had highlighted cells.
    pub had_highlights: bool,
}

impl Default for TerminalViewState {
    fn default() -> (state: TerminalViewState)
        ensures
            state == (TerminalViewState {
                is_dragged: false,
                current_mouse_position_on_grid: Point { line: 0, column: 0 },
                scrollbar_dragging: false,
                tracked_current: None,
                last_caller_current: None,
                has_shapes: false,
                cached_rect: None,
                cached_visible: None,
                cached_h_offset: 0,
                cached_search_key: 0,
                cached_current_match: None,
                had_highlights: false,
            }),
    {
        TerminalViewState {
            is_dragged: false,
            current_mouse_position_on_grid: Point::default(),
            scrollbar_dragging: false,
            tracked_current: None,
            last_caller_current: None,
            has_shapes: false,
            cached_rect: None,
            cached_visible: None,
            cached_h_offset: 0,
            cached_search_key: 0,
            cached_current_match: None,
            had_highlights: false,
        }
    }
}

fn same_point(a: &Option<Point>, b: &Option<Point>) -> (same: bool)
    ensures
        same == (*a == *b),
{
    match (a, b) {
        (Some(a), Some(b)) => a.line == b.line && a.column == b.column,
        (None, None) => true,
        _ => false,
    }
}

fn is_rect(cached: &Option<PixelRect>, rect: &PixelRect) -> (same: bool)
    ensures
        same == (*cached == Some(*rect)),
{
    match cached {
        Some(cached) => *cached == *rect,
        None => false,
    }
}

/// What to do for a frame.
#[derive(Clone, Copy, Debug, PartialEq, Eq, Structural)]
pub enum FramePlan {
    /// Paint the shapes of the last frame again.
    Reuse,
    /// Paint them again, and ask for another frame soon.
    ReuseForNow,
    /// Work the shapes out anew.
    Rebuild,
}

/// The least time between two frames that are worked out anew, in nanoseconds,
/// while content keeps arriving.
pub const RENDER_THROTTLE_NANOS: u128 = 33_000_000;

/// What the pointer does to the scrollbar.
#[derive(Clone, Copy, Debug, PartialEq, Eq, Structural)]
pub struct TrackPointer {
    pub on_track: bool,
    pub on_thumb: bool,
    /// The pointer is above the thumb.
    pub above_thumb: bool,
    /// The scroll offset that the thumb would stand for at the pointer.
    pub target: i32,
}

/// What the scrollbar goes by.
#[derive(Clone, Copy, Debug, PartialEq, Eq)]
pub struct ScrollbarInput {
    pub pointer: Option<TrackPointer>,
    pub primary_down: bool,
    pub primary_pressed: bool,
}

impl ScrollbarInput {
    /// The button goes down on the thumb.
    pub open spec fn grabs(self) -> bool {
        self.primary_pressed && (self.pointer matches Some(at) && at.on_track && at.on_thumb)
    }

    /// The button goes down on the track beside the thumb.
    pub open spec fn pages(self) -> bool {
        self.primary_pressed && (self.pointer matches Some(at) && at.on_track && !at.on_thumb)
    }

    /// A page is a screen without a line, but at least a line; up above the
    /// thumb, down below it.
    pub open spec fn page(self, model: TermModel) -> ScrollMove {
        let lines = if model.screen_lines >= 2 {
            model.screen_lines - 1
        } else {
            1
        };
        if self.pointer->0.above_thumb {
            ScrollMove::Delta(lines as i32)
        } else {
            ScrollMove::Delta((-lines) as i32)
        }
    }

    /// The thumb is being dragged, or begins to be.
    pub open spec fn drags(self, dragging: bool) -> bool {
        (dragging || self.grabs()) && self.primary_down && self.pointer is Some
    }

    /// Where the viewport stands afterwards.
    pub open spec fn offset_after(self, model: TermModel, dragging: bool) -> nat {
        if model.history() == 0 {
            model.display_offset
        } else if self.drags(dragging) {
            let target = self.pointer->0.target;
            if target <= 0 {
                0
            } else if target < model.history() {
                target as nat
            } else {
                model.history() as nat
            }
        } else if self.pages() {
            model.offset_after(self.page(model))
        } else {
            model.display_offset
        }
    }

    /// The terminal afterwards, apart from its selection.
    pub open spec fn moved(self, model: TermModel, dragging: bool) -> TermModel {
        let paged = if model.history() > 0 && self.pages() {
            model.scrolled_with_cursor(self.page(model))
        } else {
            model
        };
        if model.history() > 0 && self.drags(dragging) {
            let down = paged.scrolled_with_cursor(ScrollMove::Bottom);
            let target = self.pointer->0.target;
            if target > 0 {
                down.scrolled_with_cursor(ScrollMove::Delta(target))
            } else {
                down
            }
        } else {
            paged
        }
    }

    /// The scrollbar moves the viewport.
    pub open spec fn moves(self, model: TermModel, dragging: bool) -> bool {
        model.history() > 0 && (self.pages() || self.drags(dragging))
    }
}

impl TerminalViewState {
    /// The state with its tracking reset, if the caller has gone to another
    /// match than last time.
    pub open spec fn following(self, caller: Option<Point>) -> TerminalViewState {
        if caller != self.last_caller_current {
            TerminalViewState { tracked_current: caller, last_caller_current: caller, ..self }
        } else {
            self
        }
    }

    /// Where the current match is looked for.
    pub open spec fn target(self, caller: Option<Point>) -> Option<Point> {
        let state = self.following(caller);
        if state.tracked_current is Some {
            state.tracked_current
        } else {
            caller
        }
    }

    /// Works [`TerminalViewState::following`] into the state and tells the
    /// [`TerminalViewState::target`].
    pub fn follow(&mut self, caller: Option<Point>) -> (target: Option<Point>)
        ensures
            *final(self) == old(self).following(caller),
            target == old(self).target(caller),
    {
        if !same_point(&caller, &self.last_caller_current) {
            self.tracked_current = caller;
            self.last_caller_current = caller;
        }
        match self.tracked_current {
            Some(point) => Some(point),
            None => caller,
        }
    }

    /// Lets the scrollbar move the viewport.
    pub fn process_scrollbar(
        &mut self,
        backend: &mut TerminalBackend,
        term: &mut Term<EventProxy>,
        input: &ScrollbarInput,
    )
        requires
            term_model(*old(term)).wf(),
            term_model(*old(term)).kept(),
        ensures
            ({
                let model = term_model(*old(term));
                let after = term_model(*final(term));
                let dragging = old(self).scrollbar_dragging;
                &&& *final(self) == (TerminalViewState {
                    scrollbar_dragging: model.history() > 0 && input.primary_down && (dragging
                        || input.grabs()),
                    ..*old(self)
                })
                &&& *final(backend) == (if after.display_offset != model.display_offset {
                    old(backend).moved()
                } else if input.moves(model, dragging) {
                    TerminalBackend { dirty: true, ..*old(backend) }
                } else {
                    *old(backend)
                })
                &&& after == (TermModel {
                    selection: after.selection,
                    ..input.moved(model, dragging)
                })
                &&& after.display_offset == input.offset_after(model, dragging)
                &&& !model.mode.has(VI) || !input.moves(model, dragging) ==> after.selection
                    == model.selection
                &&& after.kept()
            }),
    {
        let screen: usize = screen_lines(term);
        if total_lines(term) == screen {
            self.scrollbar_dragging = false;
            return ;
        }
        let before: usize = display_offset(term);
        let mut moved = false;
        if let Some(at) = &input.pointer {
            if input.primary_pressed && at.on_track {
                if at.on_thumb {
                    self.scrollbar_dragging = true;
                } else {
                    let page: i32 = if screen >= 2 {
                        screen as i32 - 1
                    } else {
                        1
                    };
                    if at.above_thumb {
                        scroll_term(term, ScrollMove::Delta(page));
                    } else {
                        scroll_term(term, ScrollMove::Delta(-page));
                    }
                    moved = true;
                }
            }
            if self.scrollbar_dragging && input.primary_down {
                scroll_term(term, ScrollMove::Bottom);
                if at.target > 0 {
                    scroll_term(term, ScrollMove::Delta(at.target));
                }
                moved = true;
            }
        }
        if moved {
            backend.note_scroll(before, term);
        }
        if !input.primary_down {
            self.scrollbar_dragging = false;
        }
    }
}

/// What the widget shows of a terminal, apart from its looks.
pub struct TerminalView {
    pub has_focus: bool,
    /// What to highlight.
    pub search_regex: Option<SearchPattern>,
    /// The start of the match to highlight as the current one.
    pub current_match_start: Option<Point>,
    /// Keyboard input is not sent to the terminal.
    pub read_only: bool,
    pub hide_cursor: bool,
    /// The number of columns of the grid, where it is not to follow the width
    /// of the widget.
    pub grid_columns_override: Option<usize>,
    /// The first column that shows.
    pub horizontal_offset_cols: usize,
    /// Stands for the search in the key of the cached frame.
    pub search_key: u64,
}

impl TerminalView {
    pub fn new() -> (view: TerminalView)
        ensures
            view == (TerminalView {
                has_focus: false,
                search_regex: None,
                current_match_start: None,
                read_only: false,
                hide_cursor: false,
                grid_columns_override: None,
                horizontal_offset_cols: 0,
                search_key: 0,
            }),
    {
        TerminalView {
            has_focus: false,
            search_regex: None,
            current_match_start: None,
            read_only: false,
            hide_cursor: false,
            grid_columns_override: None,
            horizontal_offset_cols: 0,
            search_key: 0,
        }
    }

    /// Sets the key of the search: another one makes the widget paint anew. It
    /// is only ever compared; 0 stands for no search.
    pub fn set_search_key(self, key: u64) -> (view: TerminalView)
        ensures
            view == (TerminalView { search_key: key, ..self }),
    {
        TerminalView { search_key: key, ..self }
    }

    /// Sets the number of columns of the grid, so that lines longer than the
    /// widget is wide are not wrapped.
    pub fn set_grid_columns(self, cols: Option<usize>) -> (view: TerminalView)
        ensures
            view == (TerminalView { grid_columns_override: cols, ..self }),
    {
        TerminalView { grid_columns_override: cols, ..self }
    }

    /// The number of columns of the grid, where `fitting` of them go into the
    /// widget: as many as have been set, but never fewer than show.
    pub open spec fn columns_of(self, fitting: u16) -> u16 {
        match self.grid_columns_override {
            Some(cols) => if cols <= fitting {
                fitting
            } else if cols <= u16::MAX {
                cols as u16
            } else {
                u16::MAX
            },
            None => fitting,
        }
    }

    /// Builds [`TerminalView::columns_of`].
    pub fn grid_columns(&self, fitting: u16) -> (columns: u16)
        ensures
            columns == self.columns_of(fitting),
    {
        match self.grid_columns_override {
            Some(cols) => if cols <= fitting as usize {
                fitting
            } else if cols <= 0xffff {
                cols as u16
            } else {
                0xffff
            },
            None => fitting,
        }
    }

    /// Sets the first column that shows.
    pub fn set_horizontal_offset_cols(self, offset: usize) -> (view: TerminalView)
        ensures
            view == (TerminalView { horizontal_offset_cols: offset, ..self }),
    {
        TerminalView { horizontal_offset_cols: offset, ..self }
    }

    pub fn set_focus(self, has_focus: bool) -> (view: TerminalView)
        ensures
            view == (TerminalView { has_focus, ..self }),
    {
        TerminalView { has_focus, ..self }
    }

    /// Sets what to highlight.
    pub fn set_search(self, regex: Option<SearchPattern>) -> (view: TerminalView)
        ensures
            view == (TerminalView { search_regex: regex, ..self }),
    {
        TerminalView { search_regex: regex, ..self }
    }

    /// Sets the match to highlight as the current one, by its start.
    pub fn set_current_match(self, point: Option<Point>) -> (view: TerminalView)
        ensures
            view == (TerminalView { current_match_start: point, ..self }),
    {
        TerminalView { current_match_start: point, ..self }
    }

    pub fn set_read_only(self, read_only: bool) -> (view: TerminalView)
        ensures
            view == (TerminalView { read_only, ..self }),
    {
        TerminalView { read_only, ..self }
    }

    pub fn set_hide_cursor(self, hide: bool) -> (view: TerminalView)
        ensures
            view == (TerminalView { hide_cursor: hide, ..self }),
    {
        TerminalView { hide_cursor: hide, ..self }
    }

    /// The cached frame was made for this layout, this part of the grid, this
    /// search and this current match.
    pub open spec fn key_matches(
        self,
        state: TerminalViewState,
        layout: PixelRect,
        visible: PixelRect,
    ) -> bool {
        &&& state.cached_rect == Some(layout)
        &&& state.cached_visible == Some(visible)
        &&& state.cached_h_offset == self.horizontal_offset_cols
        &&& state.cached_search_key == self.search_key
        &&& state.cached_current_match == self.current_match_start
    }

    /// What to do for a frame. `since_render` is the time since a frame was last
    /// worked out anew, in nanoseconds.
    pub open spec fn plan(
        self,
        state: TerminalViewState,
        layout: PixelRect,
        visible: PixelRect,
        dirty: bool,
        pointer_on_scrollbar: bool,
        since_render: Option<u128>,
    ) -> FramePlan {
        if !state.has_shapes || !self.key_matches(state, layout, visible)
            || state.scrollbar_dragging || pointer_on_scrollbar {
            FramePlan::Rebuild
        } else if !dirty {
            FramePlan::Reuse
        } else if since_render is Some && since_render->0 < RENDER_THROTTLE_NANOS {
            FramePlan::ReuseForNow
        } else {
            FramePlan::Rebuild
        }
    }

    /// Decides [`TerminalView::plan`].
    pub fn plan_frame(
        &self,
        state: &TerminalViewState,
        layout: &PixelRect,
        visible: &PixelRect,
        dirty: bool,
        pointer_on_scrollbar: bool,
        since_render: Option<u128>,
    ) -> (plan: FramePlan)
        ensures
            plan == self.plan(
                *state,
                *layout,
                *visible,
                dirty,
                pointer_on_scrollbar,
                since_render,
            ),
    {
        let key_matches = is_rect(&state.cached_rect, layout) && is_rect(
            &state.cached_visible,
            visible,
        ) && state.cached_h_offset == self.horizontal_offset_cols && state.cached_search_key
            == self.search_key && same_point(&state.cached_current_match, &self.current_match_start);
        let may_reuse = state.has_shapes && key_matches && !state.scrollbar_dragging
            && !pointer_on_scrollbar;
        if may_reuse && !dirty {
            return FramePlan::Reuse;
        }
        let recent = match since_render {
            Some(nanos) => nanos < RENDER_THROTTLE_NANOS,
            None => false,
        };
        if may_reuse && recent {
            return FramePlan::ReuseForNow;
        }
        FramePlan::Rebuild
    }

    /// Notes what the shapes of a new frame were made for.
    pub fn finish_frame(
        &self,
        state: &mut TerminalViewState,
        layout: &PixelRect,
        visible: &PixelRect,
        had_highlights: bool,
    )
        ensures
            *final(state) == (TerminalViewState {
                has_shapes: true,
                cached_rect: Some(*layout),
                cached_visible: Some(*visible),
                cached_h_offset: self.horizontal_offset_cols,
                cached_search_key: self.search_key,
                cached_current_match: self.current_match_start,
                had_highlights,
                ..*old(state)
            }),
    {
        state.has_shapes = true;
        state.cached_rect = Some(*layout);
        state.cached_visible = Some(*visible);
        state.cached_h_offset = self.horizontal_offset_cols;
        state.cached_search_key = self.search_key;
        state.cached_current_match = self.current_match_start;
        state.had_highlights = had_highlights;
    }

    /// The matches that show in the band of columns, and the pattern after the
    /// search for them.
    pub open spec fn matches_in(
        regex: Option<SearchPattern>,
        term: Term<EventProxy>,
        band: ColumnBand,
    ) -> Seq<SearchMatch> {
        match regex {
            Some(regex) => {
                let model = term_model(term);
                band.touching(
                    band_matches(
                        model.text(),
                        regex@,
                        band_first(model, SCAN_PADDING as int),
                        band_last(model, SCAN_PADDING as int),
                        band.scan_min(),
                        band.scan_max(),
                    ),
                )
            },
            None => Seq::empty(),
        }
    }

    /// Every match in such a grid can be compared with the target.
    pub open spec fn target_fits(model: TermModel, target: Option<Point>) -> bool {
        target matches Some(target) ==> {
            &&& i32::MIN <= model.topmost() - target.line
            &&& model.bottommost() - target.line <= i32::MAX
            &&& model.columns <= i64::MAX
            &&& model.columns - (target.column as i64) <= i64::MAX
        }
    }

    /// The frame can be worked out: the columns that show fit 32 bits and lie
    /// in the grid where they are searched, and so does the target.
    pub open spec fn renders(
        self,
        state: TerminalViewState,
        content: RenderableContent,
        model: TermModel,
        shown: i32,
    ) -> bool {
        let band = ColumnBand::of(self.horizontal_offset_cols, shown);
        &&& ColumnBand::fits(self.horizontal_offset_cols, shown)
        &&& paints(model, content, band)
        &&& self.search_regex is Some ==> {
            &&& band.first() < model.columns
            &&& model.columns <= i32::MAX
            &&& model.columns - band.min <= i32::MAX
            &&& TerminalView::target_fits(model, state.target(self.current_match_start))
        }
    }

    /// Decides [`TerminalView::renders`].
    pub fn can_render(
        &self,
        state: &TerminalViewState,
        content: &RenderableContent,
        term: &Term<EventProxy>,
        shown: i32,
    ) -> (b: bool)
        ensures
            b == self.renders(*state, *content, term_model(*term), shown),
    {
        if !usable(term) || !ColumnBand::can_show(self.horizontal_offset_cols, shown) {
            return false;
        }
        let band = ColumnBand::new(self.horizontal_offset_cols, shown);
        let columns: usize = columns(term);
        let screen: usize = screen_lines(term);
        let history: usize = total_lines(term) - screen;
        let wanted: i64 = band.max as i64;
        let end: i64 = if wanted < 0 {
            0
        } else if (wanted as usize) < columns {
            wanted
        } else {
            columns as i64
        };
        if content.display_offset > history || end - band.min as i64 > i32::MAX as i64 {
            return false;
        }
        match &self.search_regex {
            None => true,
            Some(_) => {
                let mut follower = *state;
                let target = follower.follow(self.current_match_start);
                let target_fits = match target {
                    None => true,
                    Some(target) => {
                        let top: i64 = -(history as i64) - target.line as i64;
                        let bottom: i64 = screen as i64 - 1 - target.line as i64;
                        let column: i64 = target.column as i64;
                        i32::MIN as i64 <= top && bottom <= i32::MAX as i64 && columns
                            <= i32::MAX as usize && columns as i128 - column as i128
                            <= i64::MAX as i128
                    },
                };
                band.scan_from() < columns && columns <= i32::MAX as usize && columns as i64
                    - band.min as i64 <= i32::MAX as i64 && target_fits
            },
        }
    }

    /// Works out a frame: searches the part of the grid that shows, picks the
    /// current match and keeps track of it, and says what to paint in each cell
    /// and round the current match. `shown` is the number of columns that show.
    pub fn render(
        &self,
        state: &mut TerminalViewState,
        content: &RenderableContent,
        term: &Term<EventProxy>,
        shown: i32,
    ) -> (frame: Frame)
        requires
            self.renders(*old(state), *content, term_model(*term), shown),
        ensures
            ({
                let model = term_model(*term);
                let band = ColumnBand::of(self.horizontal_offset_cols, shown);
                let caller = self.current_match_start;
                let found = TerminalView::matches_in(self.search_regex, *term, band);
                let options = PaintOptions {
                    band,
                    hide_cursor: self.hide_cursor,
                    pointer: old(state).current_mouse_position_on_grid,
                };
                &&& current_is(found, old(state).target(caller), frame.current)
                &&& frame.highlights.shows(found, frame.current, model.columns as usize)
                &&& frame.cells@ == rows_paints(
                    model,
                    *content,
                    frame.highlights,
                    options,
                    model.screen_lines as int,
                )
                &&& frame.bordered(model.columns as usize, content.display_offset, band)
                &&& *final(state) == (match frame.current {
                    Some(i) => TerminalViewState {
                        tracked_current: Some(found[i as int].start),
                        ..old(state).following(caller)
                    },
                    None => old(state).following(caller),
                })
            }),
    {
        let ghost model = term_model(*term);
        let columns: usize = columns(term);
        let band = ColumnBand::new(self.horizontal_offset_cols, shown);
        let target = state.follow(self.current_match_start);
        let found = match &self.search_regex {
            Some(regex) => {
                let all = visible_regex_match_iter_in_cols(
                    term,
                    regex,
                    band.scan_from(),
                    band.scan_to(),
                    SCAN_PADDING,
                );
                let kept = band.keep_touching(&all);
                assert forall|i: int| 0 <= i < kept@.len() implies model.holds(
                    (#[trigger] kept@[i]).start,
                ) && model.holds(kept@[i].end) by {
                    let j = choose|j: int| 0 <= j < all@.len() && all@[j] == kept@[i];
                    assert(model.holds(all@[j].start));
                }
                kept
            },
            None => Vec::new(),
        };
        let current = pick_current(&found, target);
        if let Some(index) = current {
            state.tracked_current = Some(found[index].start);
        }
        let highlights = Highlights::of(&found, current, columns);
        let options = PaintOptions {
            band,
            hide_cursor: self.hide_cursor,
            pointer: state.current_mouse_position_on_grid,
        };
        let cells = paint_cells(term, content, &highlights, &options);
        let border = match &highlights.current {
            Some(found) => border_rows(found, columns, content.display_offset, &band),
            None => Vec::new(),
        };
        Frame { current, highlights, cells, border }
    }
}

/// What to paint in a frame.
pub struct Frame {
    /// The index of the current match among those that show.
    pub current: Option<usize>,
    pub highlights: Highlights,
    pub cells: Vec<CellPaint>,
    /// The border round the current match.
    pub border: Vec<BorderRow>,
}

impl Frame {
    /// The border goes round the current match, line by line.
    pub open spec fn bordered(
        self,
        columns: usize,
        display_offset: usize,
        band: ColumnBand,
    ) -> bool {
        match self.highlights.current {
            Some(found) => {
                &&& self.border@.len() == (if found.start.line <= found.end.line {
                    found.end.line - found.start.line + 1
                } else {
                    0
                })
                &&& forall|i: int|
                    0 <= i < self.border@.len() ==> #[trigger] self.border@[i] == border_of(
                        found,
                        columns,
                        display_offset,
                        band,
                        found.start.line + i,
                    )
            },
            None => self.border@.len() == 0,
        }
    }
}

/// An event that the widget may handle. Positions are in whole pixels from the
/// widget's corner.
#[derive(Debug)]
pub enum InputEvent {
    Keyboard(KeyboardEvent),
    /// See [`process_mouse_wheel`].
    Wheel { unit: WheelUnit, lines: i32, moved: bool },
    Button {
        button: PointerButton,
        pressed: bool,
        modifiers: Modifiers,
        x: usize,
        y: usize,
        over_scrollbar: bool,
    },
    Moved { x: usize, y: usize, overshoot: Overshoot, over_scrollbar: bool },
    Other,
}

/// What else bears on an event.
#[derive(Clone, Copy, Debug, PartialEq, Eq, Structural)]
pub struct Surroundings {
    pub has_focus: bool,
    pub has_pointer: bool,
    pub modifiers: Modifiers,
    pub clicks: Clicks,
    /// The widget runs on one of Apple's systems.
    pub apple: bool,
}

impl TerminalView {
    /// The widget handles the event: the keyboard needs the focus and a widget
    /// that is not for reading only; the pointer must be over the widget, or
    /// dragging, and not on the scrollbar.
    pub open spec fn admits(
        self,
        state: TerminalViewState,
        event: InputEvent,
        around: Surroundings,
    ) -> bool {
        &&& around.has_focus || around.has_pointer
        &&& match event {
            InputEvent::Keyboard(_) => around.has_focus && !self.read_only,
            InputEvent::Wheel { .. } => around.has_pointer,
            InputEvent::Button { pressed, over_scrollbar, .. } => {
                &&& around.has_pointer || state.is_dragged && !pressed
                &&& !over_scrollbar && !state.scrollbar_dragging
            },
            InputEvent::Moved { over_scrollbar, .. } => {
                &&& around.has_pointer || state.is_dragged
                &&& !over_scrollbar && !state.scrollbar_dragging
            },
            InputEvent::Other => false,
        }
    }

    /// The terminal and the content are as handling the event needs them.
    pub open spec fn handles(
        self,
        state: TerminalViewState,
        backend: TerminalBackend,
        term: Term<EventProxy>,
        event: InputEvent,
        around: Surroundings,
    ) -> bool {
        self.admits(state, event, around) ==> match event {
            InputEvent::Keyboard(key) => event_fits(
                key,
                backend,
                term,
                around.modifiers,
                around.apple,
            ),
            InputEvent::Moved { overshoot, .. } => move_fits(backend.last_content, overshoot),
            _ => true,
        }
    }

    /// What an event comes to, and what the view's state becomes.
    pub open spec fn input_comes_to<
        F: Fn(InputKind, Modifiers, TerminalMode) -> BindingAction,
    >(
        self,
        state: TerminalViewState,
        backend: TerminalBackend,
        term: Term<EventProxy>,
        lookup: F,
        event: InputEvent,
        around: Surroundings,
        after: TerminalViewState,
        actions: Seq<InputAction>,
    ) -> bool {
        let content = backend.last_content;
        if !self.admits(state, event, around) {
            after == state && actions.len() == 0
        } else {
            match event {
                InputEvent::Keyboard(key) => {
                    &&& after == state
                    &&& actions.len() == 1
                    &&& event_comes_to(
                        key,
                        backend,
                        term,
                        lookup,
                        around.modifiers,
                        around.apple,
                        actions[0],
                    )
                },
                InputEvent::Wheel { unit, lines, moved } => {
                    &&& after == state
                    &&& actions == seq![wheel_action(unit, lines, moved)]
                },
                InputEvent::Button { button, pressed, modifiers, x, y, .. } => {
                    &&& actions.len() == 1
                    &&& button_comes_to(
                        state,
                        around.clicks,
                        content.terminal_mode,
                        lookup,
                        button,
                        x,
                        y,
                        modifiers,
                        pressed,
                        after,
                        actions[0],
                    )
                },
                InputEvent::Moved { x, y, overshoot, .. } => {
                    let pointer = point_at(
                        content.terminal_size,
                        x as nat,
                        y as nat,
                        content.display_offset as nat,
                    );
                    &&& after == (TerminalViewState {
                        current_mouse_position_on_grid: pointer,
                        ..state
                    })
                    &&& actions == move_actions(
                        state.is_dragged,
                        content.terminal_mode,
                        pointer,
                        x,
                        y,
                        overshoot,
                        around.modifiers,
                    )
                },
                InputEvent::Other => true,
            }
        }
    }

    /// Decides [`TerminalView::admits`].
    fn takes(&self, state: &TerminalViewState, event: &InputEvent, around: &Surroundings) -> (b:
        bool)
        ensures
            b == self.admits(*state, *event, *around),
    {
        if !around.has_focus && !around.has_pointer {
            return false;
        }
        match event {
            InputEvent::Keyboard(_) => around.has_focus && !self.read_only,
            InputEvent::Wheel { unit: _, lines: _, moved: _ } => around.has_pointer,
            InputEvent::Button { button: _, pressed, modifiers: _, x: _, y: _, over_scrollbar } => (
            around.has_pointer || (state.is_dragged && !*pressed)) && !*over_scrollbar
                && !state.scrollbar_dragging,
            InputEvent::Moved { x: _, y: _, overshoot: _, over_scrollbar } => (around.has_pointer
                || state.is_dragged) && !*over_scrollbar && !state.scrollbar_dragging,
            InputEvent::Other => false,
        }
    }

    /// Decides [`TerminalView::handles`].
    pub fn can_handle(
        &self,
        state: &TerminalViewState,
        backend: &TerminalBackend,
        term: &Term<EventProxy>,
        event: &InputEvent,
        around: &Surroundings,
    ) -> (b: bool)
        ensures
            b == self.handles(*state, *backend, *term, *event, *around),
    {
        if !self.takes(state, event, around) {
            return true;
        }
        match event {
            InputEvent::Keyboard(key) => can_take_event(
                key,
                backend,
                term,
                around.modifiers,
                around.apple,
            ),
            InputEvent::Moved { x: _, y: _, overshoot, over_scrollbar: _ } => can_move(
                &backend.last_content,
                *overshoot,
            ),
            _ => true,
        }
    }

    /// Handles an event. `lookup` tells what an input is bound to.
    pub fn process_input<F: Fn(InputKind, Modifiers, TerminalMode) -> BindingAction>(
        &self,
        state: &mut TerminalViewState,
        backend: &TerminalBackend,
        term: &Term<EventProxy>,
        lookup: F,
        event: InputEvent,
        around: &Surroundings,
    ) -> (actions: Vec<InputAction>)
        requires
            self.handles(*old(state), *backend, *term, event, *around),
            forall|kind: InputKind, held: Modifiers|
                call_requires(lookup, (kind, held, backend.last_content.terminal_mode)),
        ensures
            self.input_comes_to(
                *old(state),
                *backend,
                *term,
                lookup,
                event,
                *around,
                *final(state),
                actions@,
            ),
    {
        let mut actions: Vec<InputAction> = Vec::new();
        if !self.takes(state, &event, around) {
            return actions;
        }
        match event {
            InputEvent::Keyboard(key) => {
                actions.push(
                    process_keyboard_event(
                        key,
                        backend,
                        term,
                        lookup,
                        around.modifiers,
                        around.apple,
                    ),
                );
            },
            InputEvent::Wheel { unit, lines, moved } => {
                actions.push(process_mouse_wheel(unit, lines, moved));
                assert(actions@ == seq![wheel_action(unit, lines, moved)]);
            },
            InputEvent::Button { button, pressed, modifiers, x, y, over_scrollbar: _ } => {
                actions.push(
                    process_button_click(
                        state,
                        around.clicks,
                        backend.last_content.terminal_mode,
                        lookup,
                        button,
                        x,
                        y,
                        modifiers,
                        pressed,
                    ),
                );
            },
            InputEvent::Moved { x, y, overshoot, over_scrollbar: _ } => {
                actions =
                process_mouse_move(
                    state,
                    &backend.last_content,
                    x,
                    y,
                    overshoot,
                    around.modifiers,
                );
            },
            InputEvent::Other => {},
        }
        actions
    }
}

} // verus!
