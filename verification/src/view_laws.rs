//! What holds of the widget, frame by frame and event by event.

use alacritty_terminal::term::Term;
use vstd::prelude::*;

use crate::backend::{RenderableContent, TerminalBackend};
use crate::backend_laws::{clamped_to, counted_on, lies_under, same_backend};
use crate::geometry::{Point, SearchMatch};
use crate::highlight::{pick_current, Highlights};
use crate::input::{BindingAction, InputAction, InputKind, Modifiers, PointerButton};
use crate::input_laws::{
    button_does, is_bound_to, keyboard_event_does, motion_does, same_but_for_the_pointer,
    scrolls_by,
};
use crate::laws::law_the_current_match_is_unique;
use crate::mode::TerminalMode;
use crate::mouse::{can_move, Overshoot};
use crate::paint::{border_rows, paint_cells, BorderRow, CellPaint, ColumnBand, PaintOptions};
use crate::search::{visible_regex_match_iter_in_cols, SearchPattern};
use crate::terminal::{term_model, EventProxy};
use crate::view::{
    Frame, FramePlan, InputEvent, PixelRect, ScrollbarInput, Surroundings, TerminalView,
    TerminalViewState,
};

verus! {

/// The widget handles the event: the keyboard needs the focus, and a widget that is not
/// for reading only; the wheel needs the pointer over the widget; buttons and motions
/// need that too, or a drag that goes on and the focus, and keep off the scrollbar.
pub open spec fn is_handled(
    view: TerminalView,
    state: TerminalViewState,
    event: InputEvent,
    around: Surroundings,
) -> bool {
    match event {
        InputEvent::Keyboard(_) => around.has_focus && !view.read_only,
        InputEvent::Wheel { .. } => around.has_pointer,
        InputEvent::Button { pressed, over_scrollbar, .. } => (around.has_pointer
            || around.has_focus && state.is_dragged && !pressed) && !over_scrollbar
            && !state.scrollbar_dragging,
        InputEvent::Moved { over_scrollbar, .. } => (around.has_pointer || around.has_focus
            && state.is_dragged) && !over_scrollbar && !state.scrollbar_dragging,
        InputEvent::Other => false,
    }
}

/// Every event that the widget handles comes to what its kind asks for; any other does
/// nothing.
pub proof fn law_events_come_to_what_they_are<
    F: Fn(InputKind, Modifiers, TerminalMode) -> BindingAction,
>(
    view: &TerminalView,
    state: &mut TerminalViewState,
    backend: &TerminalBackend,
    term: &Term<EventProxy>,
    lookup: F,
    event: InputEvent,
    around: &Surroundings,
    actions: Vec<InputAction>,
    selected: String,
    bound: BindingAction,
    without_alt: BindingAction,
)
    requires
        call_ensures(
            TerminalView::process_input::<F>,
            (view, state, backend, term, lookup, event, around),
            actions,
        ),
        call_ensures(TerminalBackend::selectable_content, (backend, term), selected),
        event is Moved ==> backend.last_content.terminal_size.divides()
            && backend.last_content.display_offset <= i32::MAX && (
        event->Moved_overshoot matches Overshoot::Below(lines) ==> lines > i32::MIN),
    ensures
        !is_handled(*view, *old(state), event, *around) ==> actions@.len() == 0 && *final(state)
            == *old(state),
        is_handled(*view, *old(state), event, *around) ==> match event {
            InputEvent::Keyboard(key) => {
                &&& *final(state) == *old(state)
                &&& actions@.len() == 1
                &&& keyboard_event_does(
                    key,
                    backend.last_content.terminal_mode,
                    lookup,
                    around.modifiers,
                    around.apple,
                    actions@[0],
                    selected@,
                    bound,
                    without_alt,
                )
            },
            InputEvent::Wheel { unit, lines, moved } => {
                &&& *final(state) == *old(state)
                &&& actions@.len() == 1
                &&& unit is Line || unit is Pixel && moved ==> scrolls_by(actions@[0], lines as int)
                &&& unit is Page || unit is Pixel && !moved ==> actions@[0] is Ignore
            },
            InputEvent::Button { button, pressed, modifiers, x, y, .. } => {
                &&& actions@.len() == 1
                &&& !(button is Primary) ==> actions@[0] is Ignore && *final(state) == *old(state)
                &&& button is Primary && is_bound_to(
                    lookup,
                    InputKind::Mouse(PointerButton::Primary),
                    modifiers,
                    backend.last_content.terminal_mode,
                    bound,
                ) ==> button_does(
                    *old(state),
                    *final(state),
                    around.clicks,
                    backend.last_content.terminal_mode,
                    x,
                    y,
                    modifiers,
                    pressed,
                    actions@[0],
                    bound,
                )
            },
            InputEvent::Moved { x, y, overshoot, .. } => {
                &&& lies_under(
                    backend.last_content.terminal_size,
                    x as int,
                    y as int,
                    backend.last_content.display_offset as int,
                    final(state).current_mouse_position_on_grid,
                )
                &&& final(state).is_dragged == old(state).is_dragged
                &&& same_but_for_the_pointer(*final(state), *old(state))
                &&& motion_does(
                    old(state).is_dragged,
                    backend.last_content.terminal_mode,
                    final(state).current_mouse_position_on_grid,
                    x,
                    y,
                    overshoot,
                    around.modifiers,
                    actions@,
                )
            },
            InputEvent::Other => true,
        },
{
    if is_handled(*view, *old(state), event, *around) {
        match event {
            InputEvent::Keyboard(key) => {
                crate::input_laws::lemma_keyboard_event_does(
                    key,
                    backend,
                    term,
                    lookup,
                    around.modifiers,
                    around.apple,
                    actions@[0],
                    selected,
                    bound,
                    without_alt,
                );
            },
            InputEvent::Moved { x, y, overshoot, .. } => {
                crate::backend_laws::lemma_lies_under(
                    backend.last_content.terminal_size,
                    x as nat,
                    y as nat,
                    backend.last_content.display_offset as nat,
                );
            },
            _ => {},
        }
    }
}

/// The event can be handled: always, but for a motion that cannot be worked out and a
/// copy of a selection that the grid does not hold.
pub proof fn law_events_can_be_handled(
    view: &TerminalView,
    state: &TerminalViewState,
    backend: &TerminalBackend,
    term: &Term<EventProxy>,
    event: &InputEvent,
    around: &Surroundings,
    b: bool,
    overshoot: Overshoot,
    content: &RenderableContent,
    moves: bool,
    copies: bool,
)
    requires
        call_ensures(TerminalView::can_handle, (view, state, backend, term, event, around), b),
        *content == backend.last_content,
        call_ensures(can_move, (content, overshoot), moves),
        call_ensures(TerminalBackend::can_copy, (backend, term), copies),
    ensures
        !is_handled(*view, *state, *event, *around) ==> b,
        is_handled(*view, *state, *event, *around) ==> match *event {
            InputEvent::Keyboard(key) => copies || !(key is Copy) ==> b,
            InputEvent::Moved { overshoot: o, .. } => o == overshoot ==> b == moves,
            _ => b,
        },
{
}

/// What the pointer does to the scrollbar moves the viewport: the thumb goes where the
/// pointer holds it; beside the thumb the button pages by a screen without a line, but
/// at least by a line. Nothing else moves it, and nothing moves without scrollback.
pub proof fn law_the_scrollbar_moves_the_viewport(
    state: &mut TerminalViewState,
    backend: &mut TerminalBackend,
    term: &mut Term<EventProxy>,
    input: &ScrollbarInput,
)
    requires
        term_model(*old(term)).wf(),
        call_ensures(TerminalViewState::process_scrollbar, (state, backend, term, input), ()),
    ensures
        ({
            let model = term_model(*old(term));
            let after = term_model(*final(term));
            let history = model.total_lines - model.screen_lines;
            let on_thumb = input.pointer is Some && input.pointer->0.on_track
                && input.pointer->0.on_thumb;
            let beside = input.pointer is Some && input.pointer->0.on_track
                && !input.pointer->0.on_thumb;
            let held = old(state).scrollbar_dragging || input.primary_pressed && on_thumb;
            let drags = history > 0 && held && input.primary_down && input.pointer is Some;
            let pages = history > 0 && input.primary_pressed && beside;
            let page = if model.screen_lines > 2 {
                model.screen_lines - 1
            } else {
                1
            };
            &&& after.text() == model.text()
            &&& after.mode == model.mode
            &&& after.cursor == model.cursor
            &&& model.mode.bits & 0x1_0000 != 0x1_0000 ==> after.selection == model.selection
            &&& drags ==> after.display_offset == clamped_to(
                input.pointer->0.target as int,
                0,
                history,
            )
            &&& pages && !drags && input.pointer->0.above_thumb ==> after.display_offset
                == clamped_to(model.display_offset + page, 0, history)
            &&& pages && !drags && !input.pointer->0.above_thumb ==> after.display_offset
                == clamped_to(model.display_offset - page, 0, history)
            &&& !pages && !drags ==> after.display_offset == model.display_offset && *final(backend)
                == *old(backend)
            &&& pages || drags ==> final(backend).dirty
            &&& after.display_offset != model.display_offset ==> counted_on(
                old(backend).content_revision,
                final(backend).content_revision,
            )
            &&& after.display_offset == model.display_offset ==> final(backend).content_revision
                == old(backend).content_revision
            &&& same_backend(*final(backend), *old(backend))
            &&& final(backend).size == old(backend).size
            &&& final(backend).last_content == old(backend).last_content
            &&& final(state).scrollbar_dragging == (history > 0 && held && input.primary_down)
            &&& *final(state) == (TerminalViewState {
                scrollbar_dragging: final(state).scrollbar_dragging,
                ..*old(state)
            })
        }),
{
}

/// The caller's current match is followed: another one than last time is the new
/// target; the same one leaves the target where it was last seen.
pub proof fn law_the_callers_match_is_followed(
    state: &mut TerminalViewState,
    caller: Option<Point>,
    target: Option<Point>,
)
    requires
        call_ensures(TerminalViewState::follow, (state, caller), target),
    ensures
        final(state).last_caller_current == caller,
        caller != old(state).last_caller_current ==> target == caller
            && final(state).tracked_current == caller,
        caller == old(state).last_caller_current ==> *final(state) == *old(state),
        caller == old(state).last_caller_current && old(state).tracked_current is Some ==> target
            == old(state).tracked_current,
        caller == old(state).last_caller_current && old(state).tracked_current is None ==> target
            == caller,
        *final(state) == (TerminalViewState {
            tracked_current: final(state).tracked_current,
            last_caller_current: final(state).last_caller_current,
            ..*old(state)
        }),
{
}

/// The shapes of the last frame fit: they are of the same layout, the same part of the
/// grid, the same search and the same current match, and the scrollbar is left alone.
pub open spec fn shapes_fit(
    view: TerminalView,
    state: TerminalViewState,
    layout: PixelRect,
    visible: PixelRect,
    pointer_on_scrollbar: bool,
) -> bool {
    &&& state.has_shapes
    &&& state.cached_rect == Some(layout)
    &&& state.cached_visible == Some(visible)
    &&& state.cached_h_offset == view.horizontal_offset_cols
    &&& state.cached_search_key == view.search_key
    &&& state.cached_current_match == view.current_match_start
    &&& !state.scrollbar_dragging
    &&& !pointer_on_scrollbar
}

/// A frame is painted from the shapes of the last one if they fit and nothing is new,
/// or what is new comes less than thirty-three milliseconds after a frame was worked
/// out; then another frame is asked for. Every other frame is worked out anew.
pub proof fn law_frames_are_reused_while_they_fit(
    view: &TerminalView,
    state: &TerminalViewState,
    layout: &PixelRect,
    visible: &PixelRect,
    dirty: bool,
    pointer_on_scrollbar: bool,
    since_render: Option<u128>,
    plan: FramePlan,
)
    requires
        call_ensures(
            TerminalView::plan_frame,
            (view, state, layout, visible, dirty, pointer_on_scrollbar, since_render),
            plan,
        ),
    ensures
        ({
            let fit = shapes_fit(*view, *state, *layout, *visible, pointer_on_scrollbar);
            let recent = since_render is Some && since_render->0 < 33_000_000;
            &&& plan is Reuse <==> fit && !dirty
            &&& plan is ReuseForNow <==> fit && dirty && recent
            &&& plan is Rebuild <==> !fit || dirty && !recent
        }),
{
}

/// A frame that was just worked out is reused while nothing changes.
pub proof fn law_a_new_frame_is_reused(
    view: &TerminalView,
    state: &mut TerminalViewState,
    layout: &PixelRect,
    visible: &PixelRect,
    had_highlights: bool,
    after: &TerminalViewState,
    since_render: Option<u128>,
    plan: FramePlan,
)
    requires
        !old(state).scrollbar_dragging,
        call_ensures(
            TerminalView::finish_frame,
            (view, state, layout, visible, had_highlights),
            (),
        ),
        *after == *final(state),
        call_ensures(
            TerminalView::plan_frame,
            (view, after, layout, visible, false, false, since_render),
            plan,
        ),
    ensures
        plan is Reuse,
        after.had_highlights == had_highlights,
        after.is_dragged == old(state).is_dragged,
        after.current_mouse_position_on_grid == old(state).current_mouse_position_on_grid,
        after.tracked_current == old(state).tracked_current,
        after.last_caller_current == old(state).last_caller_current,
        after.scrollbar_dragging == old(state).scrollbar_dragging,
{
}

/// The grid has as many columns as have been asked for, but no fewer than go into the
/// widget and no more than can be counted in 16 bits.
pub proof fn law_the_grid_is_as_wide_as_was_asked(
    view: &TerminalView,
    fitting: u16,
    columns: u16,
)
    requires
        call_ensures(TerminalView::grid_columns, (view, fitting), columns),
    ensures
        view.grid_columns_override is None ==> columns == fitting,
        view.grid_columns_override matches Some(asked) ==> {
            &&& fitting <= columns
            &&& asked <= columns || columns == 65535
            &&& columns == fitting || columns <= asked
        },
{
}

/// Each setter sets its own part of the widget, and leaves the others as they are.
pub proof fn law_setters_set_their_part(
    view: TerminalView,
    key: u64,
    cols: Option<usize>,
    offset: usize,
    flag: bool,
    regex: Option<SearchPattern>,
    point: Option<Point>,
    with_key: TerminalView,
    with_columns: TerminalView,
    with_offset: TerminalView,
    with_focus: TerminalView,
    with_search: TerminalView,
    with_match: TerminalView,
    with_read_only: TerminalView,
    with_hide_cursor: TerminalView,
    fresh: TerminalView,
)
    requires
        call_ensures(TerminalView::set_search_key, (view, key), with_key),
        call_ensures(TerminalView::set_grid_columns, (view, cols), with_columns),
        call_ensures(TerminalView::set_horizontal_offset_cols, (view, offset), with_offset),
        call_ensures(TerminalView::set_focus, (view, flag), with_focus),
        call_ensures(TerminalView::set_search, (view, regex), with_search),
        call_ensures(TerminalView::set_current_match, (view, point), with_match),
        call_ensures(TerminalView::set_read_only, (view, flag), with_read_only),
        call_ensures(TerminalView::set_hide_cursor, (view, flag), with_hide_cursor),
        call_ensures(TerminalView::new, (), fresh),
    ensures
        with_key == (TerminalView { search_key: key, ..view }),
        with_columns == (TerminalView { grid_columns_override: cols, ..view }),
        with_offset == (TerminalView { horizontal_offset_cols: offset, ..view }),
        with_focus == (TerminalView { has_focus: flag, ..view }),
        with_search == (TerminalView { search_regex: regex, ..view }),
        with_match == (TerminalView { current_match_start: point, ..view }),
        with_read_only == (TerminalView { read_only: flag, ..view }),
        with_hide_cursor == (TerminalView { hide_cursor: flag, ..view }),
        !fresh.has_focus && !fresh.read_only && !fresh.hide_cursor,
        fresh.search_regex is None && fresh.current_match_start is None
            && fresh.grid_columns_override is None,
        fresh.horizontal_offset_cols == 0 && fresh.search_key == 0,
{
}

/// A widget that has not been drawn remembers nothing.
pub proof fn law_a_new_widget_remembers_nothing(state: TerminalViewState)
    requires
        call_ensures(TerminalViewState::default, (), state),
    ensures
        !state.is_dragged && !state.scrollbar_dragging && !state.has_shapes
            && !state.had_highlights,
        state.current_mouse_position_on_grid == (Point { line: 0, column: 0 }),
        state.tracked_current is None && state.last_caller_current is None,
        state.cached_rect is None && state.cached_visible is None
            && state.cached_current_match is None,
        state.cached_h_offset == 0 && state.cached_search_key == 0,
{
}

/// A frame can be worked out for every usable terminal: where its columns can be counted
/// in 32 bits, and where a search begins in the grid and looks for a target on it.
pub proof fn law_frames_can_be_worked_out(
    view: &TerminalView,
    state: &TerminalViewState,
    content: &RenderableContent,
    term: &Term<EventProxy>,
    shown: i32,
    b: bool,
    follower: &mut TerminalViewState,
    target: Option<Point>,
)
    requires
        call_ensures(TerminalView::can_render, (view, state, content, term, shown), b),
        *old(follower) == *state,
        call_ensures(
            TerminalViewState::follow,
            (follower, view.current_match_start),
            target,
        ),
        term_model(*term).wf(),
        content.display_offset <= term_model(*term).total_lines - term_model(*term).screen_lines,
        0 <= shown,
        view.horizontal_offset_cols + shown <= i32::MAX,
    ensures
        view.search_regex is None ==> b,
        view.horizontal_offset_cols < term_model(*term).columns <= i32::MAX && (target is None
            || target->0.column <= i32::MAX && term_model(*term).screen_lines
            - term_model(*term).total_lines - target->0.line >= i32::MIN && term_model(
            *term,
        ).screen_lines - 1 - target->0.line <= i32::MAX) ==> b,
{
}

/// A frame is made of its parts: the matches that show in the band are picked from those
/// that begin in it, on the rows that show and five above and below; one of them is
/// current for the target that is followed, and is tracked from then on; the highlights
/// are of those matches, the cells are painted with them, and the border goes round the
/// current match.
pub proof fn law_a_frame_is_made_of_its_parts(
    view: &TerminalView,
    state: &mut TerminalViewState,
    content: &RenderableContent,
    term: &Term<EventProxy>,
    shown: i32,
    frame: Frame,
    pattern: &SearchPattern,
    band: &ColumnBand,
    from: usize,
    to: usize,
    all: &Vec<SearchMatch>,
    kept: &Vec<SearchMatch>,
    follower: &mut TerminalViewState,
    target: Option<Point>,
    current: Option<usize>,
    highlights: Highlights,
    drawn: &Highlights,
    options: &PaintOptions,
    cells: Vec<CellPaint>,
)
    requires
        call_ensures(TerminalView::render, (view, state, content, term, shown), frame),
        view.search_regex == Some(*pattern),
        call_ensures(ColumnBand::new, (view.horizontal_offset_cols, shown), *band),
        call_ensures(ColumnBand::scan_from, (band,), from),
        call_ensures(ColumnBand::scan_to, (band,), to),
        call_ensures(visible_regex_match_iter_in_cols, (term, pattern, from, to, 5i32), *all),
        call_ensures(ColumnBand::keep_touching, (band, all), *kept),
        *old(follower) == *old(state),
        call_ensures(
            TerminalViewState::follow,
            (follower, view.current_match_start),
            target,
        ),
        call_ensures(pick_current, (kept, target), current),
        call_ensures(
            Highlights::of,
            (kept, current, term_model(*term).columns as usize),
            highlights,
        ),
        *drawn == frame.highlights,
        options.band == *band,
        options.hide_cursor == view.hide_cursor,
        options.pointer == old(state).current_mouse_position_on_grid,
        call_ensures(paint_cells, (term, content, drawn, options), cells),
    ensures
        frame.current == current,
        frame.highlights.current == highlights.current,
        frame.highlights.current_cells@ == highlights.current_cells@,
        frame.highlights.match_cells@ == highlights.match_cells@,
        frame.cells@ == cells@,
        final(state).last_caller_current == view.current_match_start,
        final(state).tracked_current == (match current {
            Some(i) => Some(kept@[i as int].start),
            None => final(follower).tracked_current,
        }),
        *final(state) == (TerminalViewState {
            tracked_current: final(state).tracked_current,
            last_caller_current: final(state).last_caller_current,
            ..*old(state)
        }),
{
    let found = TerminalView::matches_in(view.search_regex, *term, *band);
    assert(found == kept@);
    if target is Some {
        law_the_current_match_is_unique(kept@, target, frame.current, current);
    }
}

/// Without a search a frame has no highlights and no border; its cells are painted all
/// the same.
pub proof fn law_a_frame_without_a_search_has_no_highlights(
    view: &TerminalView,
    state: &mut TerminalViewState,
    content: &RenderableContent,
    term: &Term<EventProxy>,
    shown: i32,
    frame: Frame,
    point: Point,
    band: &ColumnBand,
    drawn: &Highlights,
    options: &PaintOptions,
    cells: Vec<CellPaint>,
)
    requires
        call_ensures(TerminalView::render, (view, state, content, term, shown), frame),
        view.search_regex is None,
        call_ensures(ColumnBand::new, (view.horizontal_offset_cols, shown), *band),
        *drawn == frame.highlights,
        options.band == *band,
        options.hide_cursor == view.hide_cursor,
        options.pointer == old(state).current_mouse_position_on_grid,
        call_ensures(paint_cells, (term, content, drawn, options), cells),
    ensures
        frame.cells@ == cells@,
        frame.current is None,
        !frame.highlights.current_cells@.contains(point),
        !frame.highlights.match_cells@.contains(point),
        frame.border@.len() == 0,
        final(state).last_caller_current == view.current_match_start,
        *final(state) == (TerminalViewState {
            tracked_current: final(state).tracked_current,
            last_caller_current: final(state).last_caller_current,
            ..*old(state)
        }),
{
}

/// The border of a frame is that of its current match.
pub proof fn law_the_border_of_a_frame_goes_round_the_current_match(
    view: &TerminalView,
    state: &mut TerminalViewState,
    content: &RenderableContent,
    term: &Term<EventProxy>,
    shown: i32,
    frame: Frame,
    band: &ColumnBand,
    found: &SearchMatch,
    border: Vec<BorderRow>,
)
    requires
        term_model(*term).wf(),
        call_ensures(TerminalView::render, (view, state, content, term, shown), frame),
        call_ensures(ColumnBand::new, (view.horizontal_offset_cols, shown), *band),
        call_ensures(
            border_rows,
            (found, term_model(*term).columns as usize, content.display_offset, band),
            border,
        ),
    ensures
        frame.highlights.current == Some(*found) ==> frame.border@ == border@,
        frame.highlights.current is None ==> frame.border@.len() == 0,
{
    if frame.highlights.current == Some(*found) {
        assert(frame.border@ =~= border@);
    }
}

} // verus!
