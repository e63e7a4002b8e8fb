//! What holds of the library as a whole.

use alacritty_terminal::term::search::RegexSearch;
use alacritty_terminal::term::Term;
use vstd::prelude::*;
use vstd::utf8::{encode_utf8, valid_utf8};

use crate::backend::{
    cursor_keys, next_revision, point_at, DirectWriter, Effect, RenderableContent, TerminalBackend,
    WriteMark,
};
use crate::geometry::{Point, SearchMatch};
use crate::highlight::{
    closest_at, current_is, match_cells, score_of, Highlights, STREAMING_LINE_TOLERANCE,
};
use crate::input::{BackendCommand, BindingAction, Fitting, InputAction, InputKind, Modifiers};
use crate::keyboard::{
    binding_comes_to, bound_bytes, copy_takes_selection, fallback_bytes, interrupt_bytes,
    key_comes_to, key_symbol, paste_bytes, text_bytes, KeyboardEvent,
};
use crate::mode::TerminalMode;
use crate::paint::{paint_of, row_paints, rows_paints, ColumnBand, PaintOptions};
use crate::report::{coordinate, coordinate_limit, decimal, digits, sgr_report};
use crate::search::{
    band_first, band_last, band_matches, char_end, char_start, clamped, cut_before,
    first_covering, first_match, from_line, last_match, lemma_text_end, lemma_wrap_end, lemma_wrap_start, lies_behind,
    line_matches, next_match, previous_match, scan_first, scan_last, settled, settled_end,
    span_matches, text_end, text_matches, to_line, visible_matches, whole_matches, SCAN_PADDING,
};
use crate::size::TerminalSize;
use crate::terminal::{
    fed, match_right, term_model, EventProxy, GridText, ScrollMove, TermModel, WIDE_CHAR_SPACER,
};
use crate::text::{full_lines, trimmed, white_space, whole_text, without_blank_tail};
use crate::view::{
    InputEvent, PixelRect, ScrollbarInput, Surroundings, TerminalView, TerminalViewState,
    RENDER_THROTTLE_NANOS,
};

verus! {

/// Scrolling keeps the viewport within the scrollback, and with it everything
/// that a terminal must hold to be usable.
pub proof fn law_scrolling_stays_in_the_scrollback(model: TermModel, to: ScrollMove)
    requires
        model.wf(),
    ensures
        model.scrolled(to).wf(),
        model.scrolled_with_cursor(to).wf(),
        model.scrolled(to).cells == model.cells,
        model.topmost() <= model.scrolled(to).viewport_start(),
        model.scrolled(to).viewport_end() <= model.bottommost(),
{
}

/// Every command leaves the terminal usable and, unless it changes the grid's
/// shape, its text as it is. After a change of shape that holds unless the text
/// has been wrapped into more lines than can be counted in 32 bits.
pub proof fn law_commands_keep_the_terminal_usable(
    backend: TerminalBackend,
    term: Term<EventProxy>,
    cmd: BackendCommand,
    after: TerminalBackend,
    term_after: Term<EventProxy>,
    effect: Effect,
)
    requires
        backend.accepts(term_model(term), cmd),
        backend.outcome(term, cmd, after, term_after, effect),
    ensures
        term_model(term_after).total_lines <= i32::MAX ==> term_model(term_after).wf(),
        !(cmd matches BackendCommand::Resize(fitting) && backend.reshapes(fitting)) ==> {
            &&& term_model(term_after).wf()
            &&& term_model(term_after).text() == term_model(term).text()
        },
{
}

/// A write returns the view to the screen.
pub proof fn law_writing_shows_the_screen(
    backend: TerminalBackend,
    term: Term<EventProxy>,
    input: Vec<u8>,
    after: TerminalBackend,
    term_after: Term<EventProxy>,
    effect: Effect,
)
    requires
        backend.outcome(term, BackendCommand::Write(input), after, term_after, effect),
    ensures
        term_model(term_after).display_offset == 0,
        effect.notifies(input@),
{
}

/// Of all commands writing changes the count of revisions, and scrolling where it
/// moves the viewport: selecting, hovering and fitting do not. It grows until it
/// runs out.
pub proof fn law_writing_and_scrolling_change_the_revision(
    backend: TerminalBackend,
    term: Term<EventProxy>,
    cmd: BackendCommand,
    after: TerminalBackend,
    term_after: Term<EventProxy>,
    effect: Effect,
)
    requires
        backend.outcome(term, cmd, after, term_after, effect),
    ensures
        after.content_revision == (if cmd is Write || cmd is Scroll && term_model(
            term_after,
        ).display_offset != term_model(term).display_offset {
            next_revision(backend.content_revision)
        } else {
            backend.content_revision
        }),
        next_revision(backend.content_revision) != backend.content_revision,
        backend.content_revision < u64::MAX ==> next_revision(backend.content_revision)
            > backend.content_revision,
{
}

/// Whatever writes or moves the viewport asks for painting, and counts: until the
/// count runs out it is greater than before.
pub proof fn law_writes_and_movements_are_seen(backend: TerminalBackend)
    ensures
        backend.moved().dirty,
        backend.moved().content_revision != backend.content_revision,
        backend.content_revision < u64::MAX ==> backend.moved().content_revision
            > backend.content_revision,
{
}

/// Every command makes the widget paint anew, except a fitting that leaves the
/// grid's shape as it is.
pub proof fn law_commands_ask_for_painting(
    backend: TerminalBackend,
    term: Term<EventProxy>,
    cmd: BackendCommand,
    after: TerminalBackend,
    term_after: Term<EventProxy>,
    effect: Effect,
)
    requires
        backend.outcome(term, cmd, after, term_after, effect),
    ensures
        after.dirty == (match cmd {
            BackendCommand::Resize(fitting) => backend.dirty || backend.reshapes(fitting),
            _ => true,
        }),
{
}

/// Fitting the terminal to the same layout a second time does nothing.
pub proof fn law_fitting_settles(backend: TerminalBackend, fitting: Fitting)
    ensures
        (TerminalBackend { size: backend.fitted(fitting), ..backend }).ignores(fitting),
{
}

/// What was taken over for drawing is what would be taken over again.
pub proof fn law_syncing_settles(backend: TerminalBackend, term: Term<EventProxy>)
    ensures
        ({
            let synced = TerminalBackend {
                dirty: false,
                last_content: backend.content_of(term),
                ..backend
            };
            !synced.dirty && synced.content_of(term) == synced.last_content
        }),
{
}

/// Scrolling to a point of the grid shows it.
pub proof fn law_scrolling_to_a_point_shows_it(model: TermModel, point: Point)
    requires
        model.wf(),
        model.holds(point),
    ensures
        TerminalBackend::can_reach(model, point.line),
        match TerminalBackend::movement_to(model, point.line) {
            Some(movement) => {
                let after = model.scrolled(movement);
                &&& model.can_scroll(movement)
                &&& after.viewport_start() <= point.line <= after.viewport_end()
            },
            None => model.viewport_start() <= point.line <= model.viewport_end(),
        },
{
}

/// No viewport that shows the point is nearer than the one that scrolling to it
/// ends at.
pub proof fn law_scrolling_to_a_point_moves_least(model: TermModel, point: Point, offset: int)
    requires
        model.wf(),
        model.holds(point),
        -offset <= point.line <= model.bottommost() - offset,
    ensures
        match TerminalBackend::movement_to(model, point.line) {
            Some(movement) => {
                let reached = model.offset_after(movement);
                if model.display_offset < reached {
                    reached <= offset
                } else {
                    offset <= reached
                }
            },
            None => true,
        },
{
}

/// With sticky scrolling, lines that go into the scrollback during a write move
/// the viewport along: it shows the lines that it showed before.
pub proof fn law_sticky_scrolling_keeps_the_lines(
    mark: WriteMark,
    sticky_scroll: Option<bool>,
    model: TermModel,
)
    requires
        model.wf(),
        mark.old_offset <= mark.old_history,
        mark.holds_view(sticky_scroll, model),
    ensures
        ({
            let added = model.history() - mark.old_history;
            let after = mark.settled(sticky_scroll, model);
            &&& after.viewport_start() == -mark.old_offset - added
            &&& after.display_offset == mark.offset_after(sticky_scroll, model)
            &&& after.same_page(model)
            &&& after.wf()
        }),
{
}

/// Without sticky scrolling, or with the screen in view, a write leaves the
/// viewport to the emulator.
pub proof fn law_plain_writes_leave_the_viewport(
    mark: WriteMark,
    sticky_scroll: Option<bool>,
    model: TermModel,
)
    requires
        sticky_scroll != Some(true) || mark.old_offset == 0,
    ensures
        mark.settled(sticky_scroll, model) == model,
        mark.offset_after(sticky_scroll, model) == model.display_offset,
{
}

/// Text written in two pieces leaves the cells, the modes and the cursor that it
/// leaves written in one, wherever the viewport is kept. Left out are pieces cut
/// within a character, and synchronized updates.
pub proof fn law_two_writes_make_one(
    writer: DirectWriter,
    term: Term<EventProxy>,
    a: Seq<u8>,
    b: Seq<u8>,
    sticky_scroll: Option<bool>,
    between: DirectWriter,
    term_between: Term<EventProxy>,
    after: DirectWriter,
    term_after: Term<EventProxy>,
    at_once: DirectWriter,
    term_at_once: Term<EventProxy>,
)
    requires
        writer.in_step(),
        valid_utf8(a),
        valid_utf8(b),
        !writer.sequence.asks_update(a + b),
        writer.wrote(term, a, sticky_scroll, between, term_between),
        between.wrote(term_between, b, sticky_scroll, after, term_after),
        writer.wrote(term, a + b, sticky_scroll, at_once, term_at_once),
    ensures
        term_model(term_after).same_page(term_model(term_at_once)),
{
    assert(fed(between.feeder, term_between, b).same_page(fed(writer.feeder, term, a + b)));
}

/// Text leaves the writer in step for what is to be written behind it, whether it
/// ends within an escape sequence or not, so that any number of writes make one.
pub proof fn law_writes_stay_in_step(
    writer: DirectWriter,
    term: Term<EventProxy>,
    a: Seq<u8>,
    more: Seq<u8>,
    sticky_scroll: Option<bool>,
    after: DirectWriter,
    term_after: Term<EventProxy>,
)
    requires
        writer.in_step(),
        valid_utf8(a),
        !writer.sequence.asks_update(a + more),
        writer.wrote(term, a, sticky_scroll, after, term_after),
    ensures
        after.in_step(),
        !after.sequence.asks_update(more),
{
    writer.sequence.lemma_one_after_another(a, more);
}

/// A position in the widget falls on a cell of the viewport.
pub proof fn law_positions_fall_in_the_viewport(
    size: TerminalSize,
    x: nat,
    y: nat,
    display_offset: nat,
)
    requires
        size.divides(),
        display_offset <= i32::MAX,
    ensures
        ({
            let point = point_at(size, x, y, display_offset);
            &&& -display_offset <= point.line <= size.num_lines - 1 - display_offset
            &&& point.column < size.num_cols
        }),
{
    vstd::arithmetic::div_mod::lemma_div_pos_is_pos(x as int, size.cell_width as int);
    vstd::arithmetic::div_mod::lemma_div_pos_is_pos(y as int, size.cell_height as int);
}

/// Every pixel of a cell falls on that cell.
pub proof fn law_pixels_of_a_cell_fall_on_it(
    size: TerminalSize,
    row: nat,
    column: nat,
    dx: nat,
    dy: nat,
    display_offset: nat,
)
    requires
        size.divides(),
        display_offset <= i32::MAX,
        row < size.num_lines,
        column < size.num_cols,
        dx < size.cell_width,
        dy < size.cell_height,
    ensures
        point_at(
            size,
            column * (size.cell_width as nat) + dx,
            row * (size.cell_height as nat) + dy,
            display_offset,
        ) == (Point { line: (row - display_offset) as i32, column: column as usize }),
{
    let w = size.cell_width as int;
    let h = size.cell_height as int;
    assert((column * w + dx) / w == column) by (nonlinear_arith)
        requires
            0 <= dx < w,
            0 <= column,
    ;
    assert((row * h + dy) / h == row) by (nonlinear_arith)
        requires
            0 <= dy < h,
            0 <= row,
    ;
}

/// An anchor is brought into the grid, and one that lies in it stays.
pub proof fn law_anchors_come_into_the_grid(model: TermModel, from: Point)
    requires
        model.wf(),
    ensures
        model.holds(clamped(model, from)),
        model.holds(from) ==> clamped(model, from) == from,
{
}

/// On a grid of so many columns, the cells of a match that lies in it are
/// those between its two ends in reading order.
pub proof fn law_match_cells_lie_between_the_ends(found: SearchMatch, columns: usize)
    requires
        found.start.at_most(found.end),
        found.start.column < columns,
        found.end.column < columns,
    ensures
        match_cells(found, columns) == Set::new(
            |p: Point| found.has(p) && p.column < columns,
        ),
{
    assert(match_cells(found, columns) =~= Set::new(
        |p: Point| found.has(p) && p.column < columns,
    ));
}

/// There is at most one current match.
pub proof fn law_the_current_match_is_unique(
    found: Seq<SearchMatch>,
    target: Option<Point>,
    a: Option<usize>,
    b: Option<usize>,
)
    requires
        current_is(found, target, a),
        current_is(found, target, b),
    ensures
        a == b,
{
    if a is Some && b is Some {
        let i = a->0 as int;
        let j = b->0 as int;
        assert(score_of(found[i].start, target->0) == score_of(found[j].start, target->0));
    } else if a is Some {
        assert(closest_at(found, target->0, a->0 as int));
    } else if b is Some {
        assert(closest_at(found, target->0, b->0 as int));
    }
}

/// The current match is in the target's column and not far from its line: it
/// follows what streaming has moved, and never jumps to another match on the
/// same lines.
pub proof fn law_the_current_match_keeps_its_column(
    found: Seq<SearchMatch>,
    target: Point,
    current: usize,
)
    requires
        current_is(found, Some(target), Some(current)),
    ensures
        ({
            let start = found[current as int].start;
            &&& start.column == target.column
            &&& -STREAMING_LINE_TOLERANCE <= start.line - target.line
                <= STREAMING_LINE_TOLERANCE
        }),
{
}

/// A match that starts at the target is the current one.
pub proof fn law_a_match_at_the_target_is_current(
    found: Seq<SearchMatch>,
    target: Point,
    current: Option<usize>,
    i: int,
)
    requires
        current_is(found, Some(target), current),
        0 <= i < found.len() <= usize::MAX,
        found[i].start == target,
    ensures
        current is Some,
        found[current->0 as int].start == target,
{
    let first = lemma_first_at(found, target, i);
    assert(closest_at(found, target, first));
}

/// Only a cell itself is at no distance from it.
proof fn lemma_no_distance(start: Point, target: Point)
    ensures
        score_of(start, target) >= 0,
        score_of(start, target) == 0 <==> start == target,
{
    let a = start.column;
    let b = target.column;
    assert(a as i64 == b as i64 ==> a == b) by (bit_vector);
}

/// The first match at the target, of those up to `i`.
proof fn lemma_first_at(found: Seq<SearchMatch>, target: Point, i: int) -> (first: int)
    requires
        0 <= i < found.len(),
        found[i].start == target,
    ensures
        0 <= first <= i,
        found[first].start == target,
        score_of(found[first].start, target) == 0,
        forall|j: int| 0 <= j < first ==> score_of((#[trigger] found[j]).start, target) > 0,
        forall|j: int| 0 <= j < found.len() ==> score_of((#[trigger] found[j]).start, target) >= 0,
    decreases i,
{
    assert forall|j: int| 0 <= j < found.len() implies {
        &&& score_of((#[trigger] found[j]).start, target) >= 0
        &&& score_of(found[j].start, target) == 0 <==> found[j].start == target
    } by {
        lemma_no_distance(found[j].start, target);
    }
    if exists|j: int| 0 <= j < i && (#[trigger] found[j]).start == target {
        let j = choose|j: int| 0 <= j < i && (#[trigger] found[j]).start == target;
        lemma_first_at(found, target, j)
    } else {
        i
    }
}

/// A cell of the current match is marked as such, whatever other matches cover
/// it; a cell of no match is not marked.
pub proof fn law_highlights_follow_the_matches(
    highlights: Highlights,
    found: Seq<SearchMatch>,
    current: Option<usize>,
    columns: usize,
    point: Point,
)
    requires
        highlights.shows(found, current, columns),
        current is Some ==> current->0 < found.len(),
    ensures
        highlights.kind(point) is Current <==> current is Some && match_cells(
            found[current->0 as int],
            columns,
        ).contains(point),
        highlights.kind(point) is Plain <==> forall|i: int|
            0 <= i < found.len() ==> !match_cells(#[trigger] found[i], columns).contains(point),
{
    if highlights.kind(point) is Plain {
        assert forall|i: int| 0 <= i < found.len() implies !match_cells(
            #[trigger] found[i],
            columns,
        ).contains(point) by {
            if match_cells(found[i], columns).contains(point) {
                assert(highlights.match_cells@.contains(point) || current == Some(i as usize));
            }
        }
    }
}

/// When the user goes to another match, it is looked for where it is; until
/// then, where it was last painted.
pub proof fn law_navigation_resets_tracking(state: TerminalViewState, caller: Option<Point>)
    ensures
        caller != state.last_caller_current ==> state.target(caller) == caller,
        caller == state.last_caller_current && state.tracked_current is Some ==> state.target(
            caller,
        ) == state.tracked_current,
{
}

/// Ctrl and Alt with a key send an escape and what Ctrl with the key sends.
pub proof fn law_meta_on_control_prefixes_an_escape(bound: BindingAction, symbol: Seq<char>)
    requires
        bound_bytes(bound) is Some,
    ensures
        fallback_bytes(bound, symbol) == Some(seq![0x1bu8] + bound_bytes(bound)->0),
{
}

/// Two answers of the bindings come to the same.
pub open spec fn alike(a: BindingAction, b: BindingAction) -> bool {
    (a is Ignore <==> b is Ignore) && bound_bytes(a) == bound_bytes(b)
}

/// A key with Ctrl and Alt that has no binding of its own sends an escape and what
/// the key sends with Ctrl, given bindings that answer the same each time.
pub proof fn law_control_and_alt_prefix_an_escape<
    F: Fn(InputKind, Modifiers, TerminalMode) -> BindingAction,
>(
    mode: TerminalMode,
    lookup: F,
    key: egui::Key,
    modifiers: Modifiers,
    control: InputAction,
    bytes: Seq<u8>,
    action: InputAction,
)
    requires
        modifiers.alt,
        modifiers.ctrl,
        forall|kind: InputKind, held: Modifiers, a: BindingAction, b: BindingAction|
            #[trigger] call_ensures(lookup, (kind, held, mode), a) && #[trigger] call_ensures(
                lookup,
                (kind, held, mode),
                b,
            ) ==> alike(a, b),
        forall|bound: BindingAction| #[trigger]
            call_ensures(lookup, (InputKind::KeyCode(key), modifiers, mode), bound)
                ==> bound is Ignore,
        key_comes_to(
            mode,
            lookup,
            key,
            Modifiers { alt: false, ..modifiers },
            true,
            false,
            control,
        ),
        control.writes(bytes),
        key_comes_to(mode, lookup, key, modifiers, true, false, action),
    ensures
        action.writes(seq![0x1bu8] + bytes),
{
    let plain = Modifiers { alt: false, ..modifiers };
    let kind = InputKind::KeyCode(key);
    let bound = choose|bound: BindingAction| #[trigger]
        call_ensures(lookup, (kind, plain, mode), bound) && binding_comes_to(
            lookup,
            mode,
            key,
            plain,
            false,
            bound,
            control,
        );
    assert(control.sends(bound_bytes(bound)));
    let unbound = choose|unbound: BindingAction| #[trigger]
        call_ensures(lookup, (kind, modifiers, mode), unbound) && binding_comes_to(
            lookup,
            mode,
            key,
            modifiers,
            false,
            unbound,
            action,
        );
    let inner = choose|inner: BindingAction| #[trigger]
        call_ensures(lookup, (kind, plain, mode), inner) && action.sends(
            fallback_bytes(inner, key_symbol(key)),
        );
    assert(call_ensures(lookup, (kind, plain, mode), inner));
    assert(alike(inner, bound));
    assert(fallback_bytes(inner, key_symbol(key)) == Some(
        seq![0x1bu8] + bound_bytes(inner)->0,
    ));
}

/// Alt with text sends an escape and the text.
pub proof fn law_meta_on_text_prefixes_an_escape(text: Seq<char>, modifiers: Modifiers)
    requires
        modifiers.alt,
        !modifiers.ctrl,
        !modifiers.command,
    ensures
        text_bytes(text, modifiers, false) == seq![0x1bu8] + text_bytes(
            text,
            Modifiers { alt: false, ..modifiers },
            false,
        ),
{
}

/// Alt with the shortcuts for pasting and copying, where they send control
/// characters, puts an escape before those.
pub proof fn law_meta_on_shortcuts_prefixes_an_escape(text: Seq<char>, modifiers: Modifiers)
    requires
        modifiers.alt,
        !copy_takes_selection(modifiers, false),
    ensures
        ({
            let plain = Modifiers { alt: false, ..modifiers };
            &&& paste_bytes(text, modifiers, false) == seq![0x1bu8] + paste_bytes(
                text,
                plain,
                false,
            )
            &&& interrupt_bytes(modifiers) == seq![0x1bu8] + interrupt_bytes(plain)
        }),
{
    let plain = Modifiers { alt: false, ..modifiers };
    assert(paste_bytes(text, modifiers, false) == seq![0x1bu8] + paste_bytes(text, plain, false));
    assert(interrupt_bytes(modifiers) == seq![0x1bu8] + interrupt_bytes(plain));
}

/// On Apple's systems text goes out as it is.
pub proof fn law_apple_sends_plain_text(text: Seq<char>, modifiers: Modifiers)
    ensures
        text_bytes(text, modifiers, true) == encode_utf8(text),
        paste_bytes(text, modifiers, true) == encode_utf8(text),
{
}

/// A widget that is for reading only takes no keyboard event.
pub proof fn law_read_only_takes_no_keys(
    view: TerminalView,
    state: TerminalViewState,
    key: KeyboardEvent,
    around: Surroundings,
)
    requires
        view.read_only,
    ensures
        !view.admits(state, InputEvent::Keyboard(key), around),
{
}

/// A frame is painted again only as long as nothing that it was made for has
/// changed, and the scrollbar is left alone.
pub proof fn law_reused_frames_are_of_the_same_kind(
    view: TerminalView,
    state: TerminalViewState,
    layout: PixelRect,
    visible: PixelRect,
    dirty: bool,
    pointer_on_scrollbar: bool,
    since_render: Option<u128>,
)
    requires
        !(view.plan(state, layout, visible, dirty, pointer_on_scrollbar, since_render) is Rebuild),
    ensures
        state.has_shapes,
        view.key_matches(state, layout, visible),
        !state.scrollbar_dragging,
        !pointer_on_scrollbar,
        dirty ==> since_render is Some && since_render->0 < RENDER_THROTTLE_NANOS,
{
}

/// After a frame has been worked out, it is painted again while nothing is new;
/// another layout, part of the grid, search or current match has the next one
/// worked out at once.
pub proof fn law_frames_are_kept_until_something_changes(
    view: TerminalView,
    state: TerminalViewState,
    layout: PixelRect,
    visible: PixelRect,
    next: TerminalView,
    next_layout: PixelRect,
    next_visible: PixelRect,
    dirty: bool,
    since_render: Option<u128>,
)
    requires
        state.has_shapes,
        view.key_matches(state, layout, visible),
        !state.scrollbar_dragging,
    ensures
        view.plan(state, layout, visible, false, false, since_render) is Reuse,
        next_layout != layout || next_visible != visible || next.horizontal_offset_cols
            != view.horizontal_offset_cols || next.search_key != view.search_key
            || next.current_match_start != view.current_match_start ==> next.plan(
            state,
            next_layout,
            next_visible,
            dirty,
            false,
            since_render,
        ) is Rebuild,
{
}

/// The scrollbar keeps the viewport within the scrollback.
pub proof fn law_the_scrollbar_stays_in_the_scrollback(
    input: ScrollbarInput,
    model: TermModel,
    dragging: bool,
)
    requires
        model.wf(),
    ensures
        input.offset_after(model, dragging) <= model.history(),
        input.moved(model, dragging).display_offset == input.offset_after(model, dragging),
        input.moved(model, dragging).same_page(model),
        input.moved(model, dragging).wf(),
        !input.moves(model, dragging) ==> input.offset_after(model, dragging)
            == model.display_offset,
{
}

/// The link under the pointer is determined, and covers the pointer's cell.
pub proof fn law_the_hovered_link_is_determined(
    backend: TerminalBackend,
    term: Term<EventProxy>,
    point: Point,
    a: Option<SearchMatch>,
    b: Option<SearchMatch>,
)
    requires
        backend.links_at(term, point, a),
        backend.links_at(term, point, b),
    ensures
        a == b,
        a matches Some(link) ==> link.has(point),
{
    let shown = visible_matches(term_model(term), backend.url_regex@);
    assert(first_covering(shown, point, a) && first_covering(shown, point, b));
    if a is Some && b is Some {
        let i = choose|i: int|
            0 <= i < shown.len() && #[trigger] shown[i] == a->0 && a->0.has(point) && (forall|
                j: int,
            |
                0 <= j < i ==> !(#[trigger] shown[j]).has(point));
        let k = choose|k: int|
            0 <= k < shown.len() && #[trigger] shown[k] == b->0 && b->0.has(point) && (forall|
                j: int,
            |
                0 <= j < k ==> !(#[trigger] shown[j]).has(point));
        assert(i == k);
    }
}

/// Where the viewport is makes no difference to a search of the whole buffer.
pub proof fn law_the_whole_search_ignores_scrolling(
    model: TermModel,
    to: ScrollMove,
    regex: RegexSearch,
)
    ensures
        whole_matches(model.scrolled(to).text(), regex) == whole_matches(model.text(), regex),
        whole_matches(model.scrolled_with_cursor(to).text(), regex) == whole_matches(
            model.text(),
            regex,
        ),
{
}

/// The matches follow one another: none begins before the one before it has
/// ended, and each has its end behind its start.
pub open spec fn in_order(found: Seq<SearchMatch>) -> bool {
    &&& forall|i: int| 0 <= i < found.len() ==> (#[trigger] found[i]).start.at_most(found[i].end)
    &&& forall|i: int, j: int|
        0 <= i < j < found.len() ==> !(#[trigger] found[j]).start.at_most(
            (#[trigger] found[i]).end,
        )
}

/// Every match begins no earlier than `first` and ends no later than `last`.
pub open spec fn lie_between(found: Seq<SearchMatch>, first: Point, last: Point) -> bool {
    forall|i: int|
        0 <= i < found.len() ==> first.at_most((#[trigger] found[i]).start) && found[i].end.at_most(
            last,
        )
}

/// Lists in order, of which one lies behind the other, are in order together.
proof fn lemma_in_order_together(
    a: Seq<SearchMatch>,
    b: Seq<SearchMatch>,
    first: Point,
    last: Point,
    next: Point,
    end: Point,
)
    requires
        in_order(a),
        in_order(b),
        lie_between(a, first, last),
        lie_between(b, next, end),
        !next.at_most(last),
        last.at_most(end),
        first.at_most(next),
    ensures
        in_order(a + b),
        lie_between(a + b, first, end),
{
    let all = a + b;
    assert forall|i: int| 0 <= i < all.len() implies {
        &&& (#[trigger] all[i]).start.at_most(all[i].end)
        &&& first.at_most(all[i].start)
        &&& all[i].end.at_most(end)
    } by {
        if i < a.len() {
            assert(all[i] == a[i]);
        } else {
            assert(all[i] == b[i - a.len()]);
        }
    }
    assert forall|i: int, j: int| 0 <= i < j < all.len() implies !(
    #[trigger] all[j]).start.at_most((#[trigger] all[i]).end) by {
        if j < a.len() {
            assert(all[i] == a[i] && all[j] == a[j]);
        } else if i >= a.len() {
            assert(all[i] == b[i - a.len()] && all[j] == b[j - a.len()]);
        } else {
            assert(all[i] == a[i] && all[j] == b[j - a.len()]);
        }
    }
}

/// A match that is found lies where it was looked for.
pub(crate) proof fn lemma_first_match(text: GridText, regex: RegexSearch, from: Point, end: Point)
    ensures
        first_match(text, regex, from, end) matches Some(m) ==> {
            &&& from.at_most(m.start)
            &&& m.start.at_most(m.end)
            &&& m.end.at_most(end)
            &&& text.measured() && text.holds(from) && text.holds(end)
        },
    decreases text.bottommost() - from.line, text.columns - from.column,
{
    if !text.measured() || !text.holds(from) || !text.holds(end) || !from.at_most(end) {
    } else {
        match match_right(text, regex, settled(text, from), end) {
            None => {},
            Some(m) => if lies_behind(text, m, from, end) {
                assert(first_match(text, regex, from, end) == Some(cut_before(m, from)));
            } else if from != end {
                lemma_first_match(text, regex, text.behind(from), end);
            },
        }
    }
}

pub(crate) proof fn lemma_last_match(text: GridText, regex: RegexSearch, from: Point, end: Point)
    ensures
        last_match(text, regex, from, end) matches Some(m) ==> end.at_most(m.start)
            && m.start.at_most(m.end) && m.end.at_most(from),
    decreases from.line - text.topmost(), from.column,
{
    if !text.measured() || !text.holds(from) || !text.holds(end) || !end.at_most(from) {
    } else if from != end {
        lemma_last_match(text, regex, text.before(from), end);
    }
}

/// The matches from one point to another are in order, and lie there.
proof fn lemma_span_matches(
    text: GridText,
    regex: RegexSearch,
    from: Point,
    end: Point,
    until: Point,
)
    ensures
        ({
            let found = span_matches(text, regex, from, end, until);
            &&& in_order(found)
            &&& lie_between(found, from, end)
            &&& forall|i: int|
                0 <= i < found.len() ==> (#[trigger] found[i]).start.at_most(until)
        }),
    decreases text.bottommost() - from.line, text.columns - from.column,
{
    lemma_first_match(text, regex, from, end);
    let found = span_matches(text, regex, from, end, until);
    match first_match(text, regex, from, end) {
        None => {},
        Some(m) => if !m.start.at_most(until) {
        } else if m.end == end {
            assert(found == seq![m]);
        } else {
            let next = text.behind(m.end);
            lemma_span_matches(text, regex, next, end, until);
            let rest = span_matches(text, regex, next, end, until);
            assert(found == seq![m] + rest);
            lemma_in_order_together(seq![m], rest, from, m.end, next, end);
            assert forall|i: int| 0 <= i < found.len() implies (
            #[trigger] found[i]).start.at_most(until) by {
                if i > 0 {
                    assert(found[i] == rest[i - 1]);
                }
            }
        },
    }
}

proof fn lemma_settled_end(text: GridText, point: Point)
    ensures
        settled_end(text, point).at_most(point),
    decreases point.line - text.topmost(), point.column,
{
    if !text.measured() || !text.holds(point) || text.stops_at(point) || point
        == text.first_cell() {
    } else {
        lemma_settled_end(text, text.before(point));
    }
}

/// The matches of some text are in order, and lie in it.
proof fn lemma_text_matches(
    text: GridText,
    regex: RegexSearch,
    from: Point,
    last: int,
    until: Point,
)
    requires
        i32::MIN <= last <= i32::MAX,
    ensures
        ({
            let found = text_matches(text, regex, from, last, until);
            let end = Point { line: last as i32, column: (text.columns - 1) as usize };
            &&& in_order(found)
            &&& lie_between(found, from, end)
            &&& forall|i: int|
                0 <= i < found.len() ==> (#[trigger] found[i]).start.at_most(until)
        }),
{
    let end = Point { line: last as i32, column: (text.columns - 1) as usize };
    lemma_settled_end(text, end);
    lemma_span_matches(text, regex, from, settled_end(text, end), until);
}

/// The matches on some lines are in order, and lie on them.
pub(crate) proof fn lemma_line_matches(text: GridText, regex: RegexSearch, first: int, last: int)
    requires
        i32::MIN <= first <= last <= i32::MAX,
    ensures
        in_order(line_matches(text, regex, first, last)),
        lie_between(
            line_matches(text, regex, first, last),
            Point { line: first as i32, column: 0 },
            Point { line: last as i32, column: (text.columns - 1) as usize },
        ),
    decreases last - first + 1,
{
    let end = text_end(text, first, last);
    lemma_text_end(text, first, last);
    let column = (text.columns - 1) as usize;
    let start = Point { line: first as i32, column: 0 };
    let stop = Point { line: end as i32, column };
    lemma_text_matches(text, regex, start, end, stop);
    if end < last {
        lemma_line_matches(text, regex, end + 1, last);
        lemma_in_order_together(
            text_matches(text, regex, start, end, stop),
            line_matches(text, regex, end + 1, last),
            start,
            stop,
            Point { line: (end + 1) as i32, column: 0 },
            Point { line: last as i32, column },
        );
    }
}

/// The list of a search of the whole buffer is sorted, and no two matches in it
/// overlap.
pub proof fn law_the_whole_search_is_in_order(model: TermModel, regex: RegexSearch)
    requires
        model.wf(),
    ensures
        in_order(whole_matches(model.text(), regex)),
        lie_between(
            whole_matches(model.text(), regex),
            model.text().first_cell(),
            model.text().last_cell(),
        ),
{
    let text = model.text();
    lemma_line_matches(text, regex, text.topmost(), text.bottommost());
}

/// What is cut out of a list in order is in order, and shows on the lines.
proof fn lemma_cut(found: Seq<SearchMatch>, first: int, last: int)
    requires
        in_order(found),
    ensures
        in_order(to_line(from_line(found, first), last)),
        forall|i: int|
            0 <= i < to_line(from_line(found, first), last).len() ==> (#[trigger] to_line(
                from_line(found, first),
                last,
            )[i]).start.line <= last,
    decreases found.len(),
{
    if found.len() > 0 {
        let rest = found.drop_first();
        assert(in_order(rest)) by {
            assert forall|i: int, j: int| 0 <= i < j < rest.len() implies !(
            #[trigger] rest[j]).start.at_most((#[trigger] rest[i]).end) by {
                assert(rest[i] == found[i + 1] && rest[j] == found[j + 1]);
            }
            assert forall|i: int| 0 <= i < rest.len() implies (#[trigger] rest[i]).start.at_most(
                rest[i].end,
            ) by {
                assert(rest[i] == found[i + 1]);
            }
        }
        if found[0].end.line < first {
            lemma_cut(rest, first, last);
        } else {
            lemma_to_line(found, last);
        }
    }
}

proof fn lemma_to_line(found: Seq<SearchMatch>, last: int)
    ensures
        to_line(found, last).len() <= found.len(),
        to_line(found, last) == found.take(to_line(found, last).len() as int),
        forall|i: int|
            0 <= i < to_line(found, last).len() ==> (#[trigger] to_line(found, last)[i]).start.line
                <= last,
    decreases found.len(),
{
    if found.len() > 0 && found[0].start.line <= last {
        let rest = found.drop_first();
        lemma_to_line(rest, last);
        let all = to_line(found, last);
        let tail = to_line(rest, last);
        assert(all == seq![found[0]] + tail);
        assert forall|i: int| 0 <= i < all.len() implies all[i] == found[i] && (
        #[trigger] all[i]).start.line <= last by {
            if i > 0 {
                assert(all[i] == tail[i - 1]);
                assert(tail[i - 1] == rest[i - 1]);
            }
        }
        assert(all =~= found.take(all.len() as int));
    } else {
        assert(to_line(found, last) =~= found.take(0));
    }
}

/// So is the list of a search of the viewport.
pub proof fn law_the_visible_search_is_in_order(model: TermModel, regex: RegexSearch)
    requires
        model.wf(),
    ensures
        in_order(visible_matches(model, regex)),
        forall|i: int|
            0 <= i < visible_matches(model, regex).len() ==> (#[trigger] visible_matches(
                model,
                regex,
            )[i]).start.line <= model.viewport_end(),
{
    law_searching_the_viewport_is_bounded(model);
    lemma_line_matches(model.text(), regex, scan_first(model), scan_last(model));
    lemma_cut(
        line_matches(model.text(), regex, scan_first(model), scan_last(model)),
        model.viewport_start(),
        model.viewport_end(),
    );
}

/// The next match begins behind the anchor and ends in the buffer; an anchor
/// outside the grid counts for the nearest cell.
pub proof fn law_the_next_match_lies_behind_the_anchor(
    model: TermModel,
    regex: RegexSearch,
    from: Point,
)
    requires
        model.wf(),
    ensures
        ({
            let anchor = clamped(model, from);
            &&& next_match(model, regex, from) == next_match(model, regex, anchor)
            &&& next_match(model, regex, from) matches Some(m) ==> {
                &&& !m.start.at_most(anchor)
                &&& m.start.at_most(m.end)
                &&& m.end.at_most(model.text().last_cell())
            }
        }),
{
    let text = model.text();
    let anchor = char_end(text, clamped(model, from));
    if anchor != text.last_cell() {
        lemma_first_match(text, regex, text.behind(anchor), text.last_cell());
    }
}

/// The match before ends before the anchor and begins in the buffer; an anchor
/// outside the grid counts for the nearest cell.
pub proof fn law_the_previous_match_lies_before_the_anchor(
    model: TermModel,
    regex: RegexSearch,
    from: Point,
)
    requires
        model.wf(),
    ensures
        ({
            let anchor = clamped(model, from);
            &&& previous_match(model, regex, from) == previous_match(model, regex, anchor)
            &&& previous_match(model, regex, from) matches Some(m) ==> {
                &&& model.text().first_cell().at_most(m.start)
                &&& m.start.at_most(m.end)
                &&& !anchor.at_most(m.end)
            }
        }),
{
    let text = model.text();
    let anchor = char_start(text, clamped(model, from));
    if anchor != text.first_cell() {
        lemma_last_match(text, regex, text.before(anchor), text.first_cell());
    }
}

/// A search of a band finds matches in order, no two of which overlap: each lies
/// on one of the rows, and begins in the columns that were asked for.
pub proof fn law_band_matches_begin_in_the_band(
    text: GridText,
    regex: RegexSearch,
    line: int,
    last: int,
    min_col: usize,
    max_col: usize,
)
    requires
        i32::MIN <= line,
        last <= i32::MAX,
    ensures
        ({
            let found = band_matches(text, regex, line, last, min_col, max_col);
            &&& in_order(found)
            &&& forall|i: int|
                0 <= i < found.len() ==> {
                    &&& line <= (#[trigger] found[i]).start.line <= last
                    &&& found[i].end.line == found[i].start.line
                    &&& min_col <= found[i].start.column <= max_col
                }
        }),
    decreases last - line + 1,
{
    if line <= last {
        let found = band_matches(text, regex, line, last, min_col, max_col);
        let from = Point { line: line as i32, column: min_col };
        let until = Point { line: line as i32, column: max_col };
        let row = text_matches(text, regex, from, line, until);
        lemma_text_matches(text, regex, from, line, until);
        law_band_matches_begin_in_the_band(text, regex, line + 1, last, min_col, max_col);
        let rest = band_matches(text, regex, line + 1, last, min_col, max_col);
        assert(found == row + rest);
        let n = row.len();
        assert forall|i: int| 0 <= i < found.len() implies {
            &&& line <= (#[trigger] found[i]).start.line <= last
            &&& found[i].end.line == found[i].start.line
            &&& min_col <= found[i].start.column <= max_col
            &&& found[i].start.at_most(found[i].end)
        } by {
            if i < n {
                assert(found[i] == row[i]);
            } else {
                assert(found[i] == rest[i - n]);
            }
        }
        assert forall|i: int, j: int| 0 <= i < j < found.len() implies !(
        #[trigger] found[j]).start.at_most((#[trigger] found[i]).end) by {
            if j < n {
                assert(found[i] == row[i] && found[j] == row[j]);
            } else if i >= n {
                assert(found[i] == rest[i - n] && found[j] == rest[j - n]);
            } else {
                assert(found[i] == row[i] && found[j] == rest[j - n]);
            }
        }
    }
}

/// The matches on the lines from `first` to `last`, of some that each lie on one
/// line.
pub open spec fn on_lines(found: Seq<SearchMatch>, first: int, last: int) -> Seq<SearchMatch> {
    found.filter(|m: SearchMatch| first <= m.start.line && m.end.line <= last)
}

/// Where no line wraps, the lines are searched each by itself.
proof fn lemma_lines_apart(text: GridText, regex: RegexSearch, first: int, middle: int, last: int)
    requires
        i32::MIN <= first <= middle + 1,
        middle <= last <= i32::MAX,
        forall|line: int| first <= line <= last ==> !#[trigger] text.wraps(line),
    ensures
        line_matches(text, regex, first, last) == line_matches(text, regex, first, middle)
            + line_matches(text, regex, middle + 1, last),
    decreases middle - first + 1,
{
    if first > middle {
        assert(line_matches(text, regex, first, middle) =~= Seq::empty());
        assert(line_matches(text, regex, first, last) =~= line_matches(text, regex, first, middle)
            + line_matches(text, regex, middle + 1, last));
    } else {
        assert(!text.wraps(first));
        lemma_lines_apart(text, regex, first + 1, middle, last);
        assert(text_end(text, first, last) == first);
        assert(text_end(text, first, middle) == first);
        if first == last {
            assert(line_matches(text, regex, middle + 1, last) =~= Seq::empty());
        }
        if first == middle {
            assert(line_matches(text, regex, first + 1, middle) =~= Seq::empty());
        }
        assert(line_matches(text, regex, first, last) =~= line_matches(text, regex, first, middle)
            + line_matches(text, regex, middle + 1, last));
    }
}

/// Where no line wraps, every match lies on one line.
proof fn lemma_one_line(text: GridText, regex: RegexSearch, first: int, last: int)
    requires
        i32::MIN <= first,
        last <= i32::MAX,
        forall|line: int| first <= line <= last ==> !#[trigger] text.wraps(line),
    ensures
        forall|i: int|
            0 <= i < line_matches(text, regex, first, last).len() ==> {
                let m = #[trigger] line_matches(text, regex, first, last)[i];
                first <= m.start.line <= last && m.end.line == m.start.line
            },
    decreases last - first + 1,
{
    if first <= last {
        assert(!text.wraps(first));
        let from = Point { line: first as i32, column: 0 };
        let until = Point { line: first as i32, column: (text.columns - 1) as usize };
        let row = text_matches(text, regex, from, first, until);
        lemma_text_matches(text, regex, from, first, until);
        let all = line_matches(text, regex, first, last);
        if first < last {
            lemma_one_line(text, regex, first + 1, last);
            let rest = line_matches(text, regex, first + 1, last);
            assert(all == row + rest);
            assert forall|i: int| 0 <= i < all.len() implies {
                let m = #[trigger] all[i];
                first <= m.start.line <= last && m.end.line == m.start.line
            } by {
                if i < row.len() {
                    assert(all[i] == row[i]);
                } else {
                    assert(all[i] == rest[i - row.len()]);
                }
            }
        } else {
            assert(all == row);
        }
    }
}

proof fn lemma_filter_nothing(found: Seq<SearchMatch>, first: int, last: int)
    requires
        forall|i: int|
            0 <= i < found.len() ==> !(first <= (#[trigger] found[i]).start.line
                && found[i].end.line <= last),
    ensures
        on_lines(found, first, last) == Seq::<SearchMatch>::empty(),
    decreases found.len(),
{
    reveal(Seq::filter);
    if found.len() > 0 {
        lemma_filter_nothing(found.drop_last(), first, last);
    }
    assert(on_lines(found, first, last) =~= Seq::empty());
}

proof fn lemma_filter_everything(found: Seq<SearchMatch>, first: int, last: int)
    requires
        forall|i: int|
            0 <= i < found.len() ==> first <= (#[trigger] found[i]).start.line
                && found[i].end.line <= last,
    ensures
        on_lines(found, first, last) == found,
    decreases found.len(),
{
    reveal(Seq::filter);
    if found.len() > 0 {
        lemma_filter_everything(found.drop_last(), first, last);
        assert(found.drop_last().push(found.last()) =~= found);
    }
    assert(on_lines(found, first, last) =~= found);
}

proof fn lemma_filter_joins(a: Seq<SearchMatch>, b: Seq<SearchMatch>, first: int, last: int)
    ensures
        on_lines(a + b, first, last) == on_lines(a, first, last) + on_lines(b, first, last),
{
    Seq::filter_distributes_over_add(
        a,
        b,
        |m: SearchMatch| first <= m.start.line && m.end.line <= last,
    );
}

/// Nothing is cut off from matches that all lie on the lines.
proof fn lemma_nothing_cut(found: Seq<SearchMatch>, first: int, last: int)
    requires
        forall|i: int|
            0 <= i < found.len() ==> first <= (#[trigger] found[i]).end.line
                && found[i].start.line <= last,
    ensures
        to_line(from_line(found, first), last) == found,
    decreases found.len(),
{
    if found.len() > 0 {
        assert(from_line(found, first) == found);
        lemma_nothing_cut(found.drop_first(), first, last);
        if found.drop_first().len() > 0 {
            assert(from_line(found.drop_first(), first) == found.drop_first());
        }
        assert(to_line(found, last) =~= found);
    }
    assert(to_line(from_line(found, first), last) =~= found);
}

/// Where no line wraps, the matches on other lines are not on these.
proof fn lemma_elsewhere(
    text: GridText,
    regex: RegexSearch,
    from: int,
    to: int,
    first: int,
    last: int,
)
    requires
        i32::MIN <= from,
        to <= i32::MAX,
        to < first || last < from,
        forall|line: int| from <= line <= to ==> !#[trigger] text.wraps(line),
    ensures
        on_lines(line_matches(text, regex, from, to), first, last) == Seq::<SearchMatch>::empty(),
{
    lemma_one_line(text, regex, from, to);
    lemma_filter_nothing(line_matches(text, regex, from, to), first, last);
}

/// Where no line wraps, the matches on these lines are.
proof fn lemma_here(text: GridText, regex: RegexSearch, first: int, last: int)
    requires
        i32::MIN <= first,
        last <= i32::MAX,
        forall|line: int| first <= line <= last ==> !#[trigger] text.wraps(line),
    ensures
        on_lines(line_matches(text, regex, first, last), first, last) == line_matches(
            text,
            regex,
            first,
            last,
        ),
{
    lemma_one_line(text, regex, first, last);
    lemma_filter_everything(line_matches(text, regex, first, last), first, last);
}

/// Of three lists only the middle one is on the lines.
proof fn lemma_middle_on_lines(
    above: Seq<SearchMatch>,
    middle: Seq<SearchMatch>,
    below: Seq<SearchMatch>,
    first: int,
    last: int,
)
    requires
        on_lines(above, first, last) == Seq::<SearchMatch>::empty(),
        on_lines(middle, first, last) == middle,
        on_lines(below, first, last) == Seq::<SearchMatch>::empty(),
    ensures
        on_lines(above + (middle + below), first, last) == middle,
{
    lemma_filter_joins(above, middle + below, first, last);
    lemma_filter_joins(middle, below, first, last);
    assert(middle + Seq::<SearchMatch>::empty() =~= middle);
    assert(Seq::<SearchMatch>::empty() + middle =~= middle);
}

/// Where no line wraps, the matches on some lines are those of more lines that lie
/// there.
#[verifier::spinoff_prover]
proof fn lemma_part_of_lines(
    text: GridText,
    regex: RegexSearch,
    top: int,
    first: int,
    last: int,
    bottom: int,
)
    requires
        i32::MIN < top <= first <= last <= bottom < i32::MAX,
        forall|line: int| top <= line <= bottom ==> !#[trigger] text.wraps(line),
    ensures
        on_lines(line_matches(text, regex, top, bottom), first, last) == line_matches(
            text,
            regex,
            first,
            last,
        ),
{
    lemma_lines_apart(text, regex, top, first - 1, bottom);
    lemma_lines_apart(text, regex, first, last, bottom);
    lemma_elsewhere(text, regex, top, first - 1, first, last);
    lemma_here(text, regex, first, last);
    lemma_elsewhere(text, regex, last + 1, bottom, first, last);
    lemma_middle_on_lines(
        line_matches(text, regex, top, first - 1),
        line_matches(text, regex, first, last),
        line_matches(text, regex, last + 1, bottom),
        first,
        last,
    );
}

/// Where no row wraps into the next, the matches that show in the viewport are
/// those of the whole buffer that lie in it, all of them and no others.
pub proof fn law_the_visible_matches_are_those_of_the_whole_search(
    model: TermModel,
    regex: RegexSearch,
)
    requires
        model.wf(),
        forall|line: int|
            model.topmost() <= line <= model.bottommost() ==> !#[trigger] model.wraps(line),
    ensures
        visible_matches(model, regex) == on_lines(
            whole_matches(model.text(), regex),
            model.viewport_start(),
            model.viewport_end(),
        ),
{
    let text = model.text();
    let top = model.topmost();
    let bottom = model.bottommost();
    let first = model.viewport_start();
    let last = model.viewport_end();
    assert forall|line: int| top <= line <= bottom implies !#[trigger] text.wraps(line) by {
        assert(!model.wraps(line));
    }
    assert(!model.wraps(last));
    if first > top {
        assert(!model.wraps(first - 1));
    }
    assert(scan_first(model) == first);
    assert(scan_last(model) == last);
    lemma_part_of_lines(text, regex, top, first, last, bottom);
    let shown = line_matches(text, regex, first, last);
    assert(to_line(from_line(shown, first), last) == shown) by {
        lemma_one_line(text, regex, first, last);
        lemma_nothing_cut(shown, first, last);
    }
}

/// Trimming cuts off white space at the end, and nothing else.
pub proof fn law_trimming_cuts_white_space_only(text: Seq<char>)
    ensures
        trimmed(text).len() <= text.len(),
        trimmed(text) == text.take(trimmed(text).len() as int),
        forall|i: int|
            trimmed(text).len() <= i < text.len() ==> white_space(#[trigger] text[i]),
        trimmed(text).len() > 0 ==> !white_space(trimmed(text).last()),
    decreases text.len(),
{
    if text.len() > 0 && white_space(text.last()) {
        let rest = text.drop_last();
        law_trimming_cuts_white_space_only(rest);
        assert(rest.take(trimmed(rest).len() as int) =~= text.take(trimmed(rest).len() as int));
        assert forall|i: int| trimmed(text).len() <= i < text.len() implies white_space(
            #[trigger] text[i],
        ) by {
            if i < text.len() - 1 {
                assert(rest[i] == text[i]);
            }
        }
    } else {
        assert(text.take(text.len() as int) =~= text);
    }
}

/// The text of the buffer is its lines, without the line breaks that only empty
/// lines at the end would add.
pub proof fn law_the_whole_text_has_no_blank_tail(model: TermModel)
    ensures
        ({
            let text = whole_text(model);
            let all = full_lines(model, model.topmost(), model.bottommost());
            &&& text.len() <= all.len()
            &&& text == all.take(text.len() as int)
            &&& forall|i: int| text.len() <= i < all.len() ==> #[trigger] all[i] == '\n'
            &&& !(text.len() >= 2 && text[text.len() - 1] == '\n' && text[text.len() - 2]
                == '\n')
        }),
{
    lemma_blank_tail(full_lines(model, model.topmost(), model.bottommost()));
}

proof fn lemma_blank_tail(all: Seq<char>)
    ensures
        ({
            let text = without_blank_tail(all);
            &&& text.len() <= all.len()
            &&& text == all.take(text.len() as int)
            &&& forall|i: int| text.len() <= i < all.len() ==> #[trigger] all[i] == '\n'
            &&& !(text.len() >= 2 && text[text.len() - 1] == '\n' && text[text.len() - 2]
                == '\n')
        }),
    decreases all.len(),
{
    if all.len() >= 2 && all[all.len() - 1] == '\n' && all[all.len() - 2] == '\n' {
        let rest = all.drop_last();
        lemma_blank_tail(rest);
        let text = without_blank_tail(rest);
        assert(rest.take(text.len() as int) =~= all.take(text.len() as int));
        assert forall|i: int| text.len() <= i < all.len() implies #[trigger] all[i] == '\n' by {
            if i < all.len() - 1 {
                assert(rest[i] == all[i]);
            }
        }
    } else {
        assert(all.take(all.len() as int) =~= all);
    }
}

/// The columns that are painted are as many as show, from the offset on, as far
/// as the grid goes.
pub proof fn law_the_band_is_what_shows(offset: usize, shown: i32, columns: int)
    requires
        offset <= i32::MAX,
        0 <= shown,
        ColumnBand::fits(offset, shown),
        0 <= columns,
    ensures
        ColumnBand::of(offset, shown).first() == offset,
        ColumnBand::of(offset, shown).end(columns) == (if offset + shown < columns {
            offset + shown
        } else {
            columns
        }),
{
}

/// Every cell that is painted lies in the band, on a row of the viewport.
pub proof fn law_painting_stays_in_the_band(
    model: TermModel,
    content: RenderableContent,
    highlights: Highlights,
    options: PaintOptions,
    rows: int,
    i: int,
)
    requires
        model.wf(),
        content.display_offset <= model.history(),
        0 <= rows <= model.screen_lines,
        0 <= i < rows_paints(model, content, highlights, options, rows).len(),
    ensures
        ({
            let paint = rows_paints(model, content, highlights, options, rows)[i];
            &&& 0 <= paint.row < rows
            &&& paint.point.line == paint.row - content.display_offset
            &&& options.band.first() <= paint.point.column < options.band.end(
                model.columns as int,
            )
            &&& model.holds(paint.point)
            &&& paint.highlight == highlights.kind(paint.point)
        }),
    decreases rows,
{
    if rows > 0 {
        let before = rows_paints(model, content, highlights, options, rows - 1);
        if i < before.len() {
            law_painting_stays_in_the_band(model, content, highlights, options, rows - 1, i);
        } else {
            lemma_row_in_band(
                model,
                content,
                highlights,
                options,
                rows - 1,
                options.band.first(),
                options.band.end(model.columns as int),
                i - before.len(),
            );
        }
    }
}

proof fn lemma_row_in_band(
    model: TermModel,
    content: RenderableContent,
    highlights: Highlights,
    options: PaintOptions,
    row: int,
    from: int,
    to: int,
    i: int,
)
    requires
        model.wf(),
        content.display_offset <= model.history(),
        0 <= row < model.screen_lines,
        0 <= from,
        to <= model.columns,
        0 <= i < row_paints(model, content, highlights, options, row, from, to).len(),
    ensures
        ({
            let paint = row_paints(model, content, highlights, options, row, from, to)[i];
            &&& paint.row == row
            &&& paint.point.line == row - content.display_offset
            &&& from <= paint.point.column < to
            &&& paint.highlight == highlights.kind(paint.point)
        }),
    decreases to - from,
{
    if from < to {
        let before = row_paints(model, content, highlights, options, row, from, to - 1);
        if i < before.len() {
            lemma_row_in_band(model, content, highlights, options, row, from, to - 1, i);
        }
    }
}

/// The number that decimal digits stand for.
pub open spec fn number(text: Seq<u8>) -> int
    decreases text.len(),
{
    if text.len() == 0 {
        0
    } else {
        number(text.drop_last()) * 10 + (text.last() - 48)
    }
}

/// The digits of a number stand for it, and nothing but digits is among them.
pub proof fn law_digits_stand_for_the_number(n: nat)
    ensures
        number(digits(n)) == n,
        digits(n).len() > 0,
        forall|i: int| 0 <= i < digits(n).len() ==> 48 <= #[trigger] digits(n)[i] <= 57,
    decreases n,
{
    if n < 10 {
        assert(digits(n).drop_last() =~= Seq::<u8>::empty());
        assert(number(digits(n).drop_last()) == 0);
    } else {
        law_digits_stand_for_the_number(n / 10);
        assert(digits(n).drop_last() =~= digits(n / 10));
    }
}

/// Two coordinates that a report has room for are encoded differently.
pub proof fn law_coordinates_are_told_apart(a: int, b: int, is_utf8: bool)
    requires
        0 <= a < coordinate_limit(is_utf8),
        0 <= b < coordinate_limit(is_utf8),
        coordinate(a, is_utf8) == coordinate(b, is_utf8),
    ensures
        a == b,
{
    assert(coordinate(a, is_utf8).len() == coordinate(b, is_utf8).len());
    assert(coordinate(a, is_utf8)[0] == coordinate(b, is_utf8)[0]);
    if is_utf8 && a >= 95 {
        assert(coordinate(a, is_utf8).len() == 2);
        assert(coordinate(b, is_utf8).len() == 2);
        assert(coordinate(a, is_utf8)[1] == coordinate(b, is_utf8)[1]);
        assert(b >= 95);
        assert(coordinate(a, is_utf8)[0] == 0xc0 + (33 + a) / 64);
        assert(coordinate(b, is_utf8)[0] == 0xc0 + (33 + b) / 64);
        assert(coordinate(a, is_utf8)[1] == 0x80 + (33 + a) % 64);
        assert(coordinate(b, is_utf8)[1] == 0x80 + (33 + b) % 64);
    } else {
        assert(coordinate(a, is_utf8).len() == 1);
        assert(coordinate(b, is_utf8).len() == 1);
        assert(coordinate(a, is_utf8)[0] == 33 + a);
        assert(coordinate(b, is_utf8)[0] == 33 + b);
    }
}

/// Texts in front of the same first separator are the same, and so is what
/// follows it.
proof fn lemma_cut_at_separator(a: Seq<u8>, x: Seq<u8>, b: Seq<u8>, y: Seq<u8>, separator: u8)
    requires
        a + seq![separator] + x == b + seq![separator] + y,
        forall|i: int| 0 <= i < a.len() ==> #[trigger] a[i] != separator,
        forall|i: int| 0 <= i < b.len() ==> #[trigger] b[i] != separator,
    ensures
        a == b,
        x == y,
{
    let left = a + seq![separator] + x;
    let right = b + seq![separator] + y;
    assert(left.len() == a.len() + 1 + x.len());
    assert(right.len() == b.len() + 1 + y.len());
    assert(left[a.len() as int] == separator);
    assert(right[b.len() as int] == separator);
    if a.len() < b.len() {
        assert(right[a.len() as int] == b[a.len() as int]);
    }
    if b.len() < a.len() {
        assert(left[b.len() as int] == a[b.len() as int]);
    }
    assert forall|i: int| 0 <= i < a.len() implies a[i] == b[i] by {
        assert(left[i] == a[i]);
        assert(right[i] == b[i]);
    }
    assert(a =~= b);
    assert(left.len() == right.len());
    assert forall|i: int| 0 <= i < x.len() implies x[i] == y[i] by {
        assert(left[a.len() + 1 + i] == x[i]);
        assert(right[b.len() + 1 + i] == y[i]);
    }
    assert(x.len() == y.len());
    assert(x =~= y);
}

proof fn lemma_decimal(n: int)
    ensures
        forall|i: int| 0 <= i < decimal(n).len() ==> 45 <= #[trigger] decimal(n)[i] <= 57,
        decimal(n).len() > 0,
        decimal(n)[0] == 45 <==> n < 0,
{
    if n < 0 {
        law_digits_stand_for_the_number((-n) as nat);
        assert forall|i: int| 0 <= i < decimal(n).len() implies 45 <= #[trigger] decimal(n)[i]
            <= 57 by {
            if i > 0 {
                assert(decimal(n)[i] == digits((-n) as nat)[i - 1]);
            }
        }
    } else {
        law_digits_stand_for_the_number(n as nat);
        assert(48 <= digits(n as nat)[0]);
    }
}

proof fn lemma_decimal_tells_apart(m: int, n: int)
    requires
        decimal(m) == decimal(n),
    ensures
        m == n,
{
    lemma_decimal(m);
    lemma_decimal(n);
    if m < 0 {
        assert(decimal(m).skip(1) =~= digits((-m) as nat));
        assert(decimal(n).skip(1) =~= digits((-n) as nat));
        law_digits_stand_for_the_number((-m) as nat);
        law_digits_stand_for_the_number((-n) as nat);
    } else {
        law_digits_stand_for_the_number(m as nat);
        law_digits_stand_for_the_number(n as nat);
    }
}

/// A report taken apart behind its first three bytes.
proof fn lemma_report_parts(
    head: Seq<u8>,
    button: Seq<u8>,
    column: Seq<u8>,
    line: Seq<u8>,
    last: Seq<u8>,
    semi: Seq<u8>,
)
    requires
        head.len() == 3,
    ensures
        (head + button + semi + column + semi + line + last).skip(3) == button + semi + (column
            + semi + (line + last)),
{
    assert((head + button + semi + column + semi + line + last).skip(3) =~= button + semi + (column
        + semi + (line + last)));
}

/// The number and the letter at the end of two reports, taken apart.
proof fn lemma_last_part(a: Seq<u8>, a_last: u8, b: Seq<u8>, b_last: u8)
    requires
        a + seq![a_last] == b + seq![b_last],
    ensures
        a == b,
        a_last == b_last,
{
    assert((a + seq![a_last]).last() == a_last);
    assert((b + seq![b_last]).last() == b_last);
    assert((a + seq![a_last]).drop_last() =~= a);
    assert((b + seq![b_last]).drop_last() =~= b);
}

/// Two SGR reports of different events differ: the program can tell button,
/// position, and press from release.
pub proof fn law_sgr_reports_are_told_apart(
    a: Point,
    a_button: u8,
    a_pressed: bool,
    b: Point,
    b_button: u8,
    b_pressed: bool,
)
    requires
        sgr_report(a, a_button, a_pressed) == sgr_report(b, b_button, b_pressed),
    ensures
        a == b,
        a_button == b_button,
        a_pressed == b_pressed,
{
    let head = seq![0x1bu8, 0x5b, 0x3c];
    let semi = seq![0x3bu8];
    let a_last = if a_pressed {
        0x4du8
    } else {
        0x6d
    };
    let b_last = if b_pressed {
        0x4du8
    } else {
        0x6d
    };
    let (a1, a2, a3) = (decimal(a_button as int), decimal(a.column + 1), decimal(a.line + 1));
    let (b1, b2, b3) = (decimal(b_button as int), decimal(b.column + 1), decimal(b.line + 1));
    lemma_report_parts(head, a1, a2, a3, seq![a_last], semi);
    lemma_report_parts(head, b1, b2, b3, seq![b_last], semi);
    lemma_decimal(a_button as int);
    lemma_decimal(b_button as int);
    lemma_decimal(a.column + 1);
    lemma_decimal(b.column + 1);
    lemma_cut_at_separator(
        a1,
        a2 + semi + (a3 + seq![a_last]),
        b1,
        b2 + semi + (b3 + seq![b_last]),
        0x3b,
    );
    lemma_cut_at_separator(a2, a3 + seq![a_last], b2, b3 + seq![b_last], 0x3b);
    lemma_last_part(a3, a_last, b3, b_last);
    lemma_decimal_tells_apart(a_button as int, b_button as int);
    lemma_decimal_tells_apart(a.column + 1, b.column + 1);
    lemma_decimal_tells_apart(a.line + 1, b.line + 1);
}

/// The sequences that stand for turning the wheel: three bytes for each line,
/// and another last byte for the other direction.
pub proof fn law_wheel_keys_count_the_lines(lines: int)
    ensures
        cursor_keys(lines).len() == 3 * (if lines < 0 {
            -lines
        } else {
            lines
        }),
        lines > 0 ==> cursor_keys(lines)[2] == 0x41,
        lines < 0 ==> cursor_keys(lines)[2] == 0x42,
{
}

/// A search of the viewport covers it, stays in the grid, and goes at most a few
/// lines beyond the viewport's edges.
pub proof fn law_searching_the_viewport_is_bounded(model: TermModel)
    requires
        model.wf(),
    ensures
        model.topmost() <= scan_first(model) <= model.viewport_start(),
        model.viewport_end() <= scan_last(model) <= model.bottommost(),
        model.viewport_start() - SCAN_PADDING <= scan_first(model),
        scan_last(model) <= model.viewport_end() + SCAN_PADDING,
{
    lemma_wrap_start(model, model.viewport_start());
    lemma_wrap_end(model, model.viewport_end());
}

/// A search of a band covers the viewport's rows, stays in the grid, and goes no
/// further beyond the viewport's edges than the padding.
pub proof fn law_searching_a_band_is_bounded(model: TermModel, padding: int)
    requires
        model.wf(),
        padding >= 0,
    ensures
        model.topmost() <= band_first(model, padding) <= model.viewport_start(),
        model.viewport_end() <= band_last(model, padding) <= model.bottommost(),
        model.viewport_start() - padding <= band_first(model, padding),
        band_last(model, padding) <= model.viewport_end() + padding,
{
}

/// Every cell of the band on the rows of the viewport is painted, except the
/// second halves of wide characters.
pub proof fn law_painting_covers_the_band(
    model: TermModel,
    content: RenderableContent,
    highlights: Highlights,
    options: PaintOptions,
    rows: int,
    row: int,
    column: int,
)
    requires
        0 <= row < rows,
        options.band.first() <= column < options.band.end(model.columns as int),
        !model.cell(row - content.display_offset, column).has(WIDE_CHAR_SPACER),
    ensures
        rows_paints(model, content, highlights, options, rows).contains(
            paint_of(
                content,
                highlights,
                options,
                model.cell(row - content.display_offset, column),
                row,
                column,
            ),
        ),
    decreases rows,
{
    let wanted = paint_of(
        content,
        highlights,
        options,
        model.cell(row - content.display_offset, column),
        row,
        column,
    );
    let before = rows_paints(model, content, highlights, options, rows - 1);
    let last = row_paints(
        model,
        content,
        highlights,
        options,
        rows - 1,
        options.band.first(),
        options.band.end(model.columns as int),
    );
    let all = rows_paints(model, content, highlights, options, rows);
    if row < rows - 1 {
        law_painting_covers_the_band(model, content, highlights, options, rows - 1, row, column);
        let i = choose|i: int| 0 <= i < before.len() && before[i] == wanted;
        assert(all[i] == wanted);
    } else {
        lemma_row_is_covered(
            model,
            content,
            highlights,
            options,
            row,
            options.band.first(),
            options.band.end(model.columns as int),
            column,
        );
        let i = choose|i: int| 0 <= i < last.len() && last[i] == wanted;
        assert(all[before.len() + i] == wanted);
    }
}

proof fn lemma_row_is_covered(
    model: TermModel,
    content: RenderableContent,
    highlights: Highlights,
    options: PaintOptions,
    row: int,
    from: int,
    to: int,
    column: int,
)
    requires
        from <= column < to,
        !model.cell(row - content.display_offset, column).has(WIDE_CHAR_SPACER),
    ensures
        row_paints(model, content, highlights, options, row, from, to).contains(
            paint_of(
                content,
                highlights,
                options,
                model.cell(row - content.display_offset, column),
                row,
                column,
            ),
        ),
    decreases to - from,
{
    let wanted = paint_of(
        content,
        highlights,
        options,
        model.cell(row - content.display_offset, column),
        row,
        column,
    );
    let before = row_paints(model, content, highlights, options, row, from, to - 1);
    let all = row_paints(model, content, highlights, options, row, from, to);
    if column < to - 1 {
        lemma_row_is_covered(model, content, highlights, options, row, from, to - 1, column);
        let i = choose|i: int| 0 <= i < before.len() && before[i] == wanted;
        assert(all[i] == wanted);
    } else {
        assert(all[before.len() as int] == wanted);
    }
}

} // verus!
