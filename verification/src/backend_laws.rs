//! What holds of the backend, call by call.

use alacritty_terminal::term::Term;
use vstd::prelude::*;
use vstd::utf8::encode_utf8;

use crate::backend::{
    subscription_step, url_regex, DirectWriter, Effect, PtySignal, PtyStep, RenderableContent,
    TerminalBackend, WriteMark,
};
use crate::geometry::{GridBounds, Point, SearchMatch};
use crate::input::{BackendCommand, Fitting, LinkAction, Modifiers, MouseButton};
use crate::report::{can_report, process_mouse_report};
use crate::search::{link_text, regex_match_at, PatternError, SearchPattern};
use crate::sequence::Sequence;
use crate::size::{TerminalSize, WindowSize};
use crate::terminal::{
    between_chars, compiled, fed, held_back, resized, selected_range, term_model, text_of, updating,
    usable, EventProxy, SelectionType, Side, TermModel,
};

verus! {

/// The two backends differ at most in the size, in what is drawn from, in the flag
/// that asks for painting and in the count of revisions.
pub open spec fn same_backend(a: TerminalBackend, b: TerminalBackend) -> bool {
    a.id == b.id && a.pty_id == b.pty_id && a.url_regex == b.url_regex && a.sticky_scroll
        == b.sticky_scroll
}

/// The two terminals differ at most in the position of the viewport.
pub open spec fn same_but_for_the_viewport(a: TermModel, b: TermModel) -> bool {
    &&& a.cells == b.cells
    &&& a.columns == b.columns
    &&& a.screen_lines == b.screen_lines
    &&& a.total_lines == b.total_lines
    &&& a.mode == b.mode
    &&& a.cursor == b.cursor
    &&& a.cursor_cell == b.cursor_cell
    &&& a.selection == b.selection
    &&& a.vi_line == b.vi_line
    &&& a.vi_column == b.vi_column
    &&& a.kitty_keyboard == b.kitty_keyboard
}

/// The two terminals differ at most in the selection.
pub open spec fn same_but_for_the_selection(a: TermModel, b: TermModel) -> bool {
    &&& a.cells == b.cells
    &&& a.columns == b.columns
    &&& a.screen_lines == b.screen_lines
    &&& a.total_lines == b.total_lines
    &&& a.display_offset == b.display_offset
    &&& a.mode == b.mode
    &&& a.cursor == b.cursor
    &&& a.cursor_cell == b.cursor_cell
    &&& a.vi_line == b.vi_line
    &&& a.vi_column == b.vi_column
    &&& a.kitty_keyboard == b.kitty_keyboard
}

/// The count of revisions after one more.
pub open spec fn counted_on(before: u64, after: u64) -> bool {
    after == (before + 1) % 0x1_0000_0000_0000_0000
}

/// `value`, or the nearest number from `low` to `high`.
pub open spec fn clamped_to(value: int, low: int, high: int) -> int {
    if value < low {
        low
    } else if value > high {
        high
    } else {
        value
    }
}

/// `index` is the number of the cell, `size` pixels long, that the pixel `at` falls
/// in, if there are `count` cells: the last of them for all pixels beyond.
pub open spec fn falls_on(at: int, size: int, count: int, index: int) -> bool {
    &&& 0 <= index < count
    &&& index * size <= at
    &&& index < count - 1 ==> at < (index + 1) * size
}

/// The point is the cell under a position in the widget.
pub open spec fn lies_under(size: TerminalSize, x: int, y: int, offset: int, point: Point) -> bool {
    &&& falls_on(x, size.cell_width as int, size.num_cols as int, point.column as int)
    &&& falls_on(y, size.cell_height as int, size.num_lines as int, point.line + offset)
}

/// The pixel that a cell begins at.
pub open spec fn left_edge(cell: int, width: int) -> int {
    cell * width
}

/// The side is the right one if, and only if, the position is beyond the middle of
/// the cell that it lies in.
pub open spec fn is_side_of(width: int, x: int, side: Side) -> bool {
    forall|cell: int|
        #[trigger] left_edge(cell, width) <= x < left_edge(cell, width) + width ==> (
        side is Right <==> 2 * (x - left_edge(cell, width)) > width)
}

proof fn lemma_falls_on(at: int, size: int, count: int)
    requires
        0 <= at,
        0 < size,
        0 < count,
    ensures
        falls_on(
            at,
            size,
            count,
            if at / size < count {
                at / size
            } else {
                count - 1
            },
        ),
{
    let q = at / size;
    vstd::arithmetic::div_mod::lemma_fundamental_div_mod(at, size);
    vstd::arithmetic::div_mod::lemma_div_pos_is_pos(at, size);
    vstd::arithmetic::div_mod::lemma_mod_bound(at, size);
    assert(q * size <= at < (q + 1) * size) by (nonlinear_arith)
        requires
            at == size * q + at % size,
            0 <= at % size < size,
    ;
    if q >= count {
        assert((count - 1) * size <= q * size) by (nonlinear_arith)
            requires
                count - 1 <= q,
                0 < size,
        ;
    }
}

pub(crate) proof fn lemma_lies_under(size: TerminalSize, x: nat, y: nat, offset: nat)
    requires
        size.divides(),
        offset <= i32::MAX,
    ensures
        lies_under(
            size,
            x as int,
            y as int,
            offset as int,
            crate::backend::point_at(size, x, y, offset),
        ),
{
    lemma_falls_on(x as int, size.cell_width as int, size.num_cols as int);
    lemma_falls_on(y as int, size.cell_height as int, size.num_lines as int);
}

proof fn lemma_is_side(size: TerminalSize, x: nat)
    requires
        size.cell_width > 0,
    ensures
        is_side_of(size.cell_width as int, x as int, crate::backend::side_at(size, x)),
{
    let w = size.cell_width as int;
    assert forall|cell: int|
        #[trigger] left_edge(cell, w) <= x < left_edge(cell, w) + w implies (
    crate::backend::side_at(size, x) is Right <==> 2 * (x - left_edge(cell, w)) > w) by {
        vstd::arithmetic::div_mod::lemma_fundamental_div_mod_converse(
            x as int,
            w,
            cell,
            x - cell * w,
        );
    }
}

/// The cell of a position is the one that the position falls in; one beyond the
/// last column or line falls in the last.
pub proof fn law_a_position_falls_on_its_cell(
    x: usize,
    y: usize,
    size: &TerminalSize,
    display_offset: usize,
    point: Point,
)
    requires
        call_ensures(TerminalBackend::selection_point, (x, y, size, display_offset), point),
        size.cell_width > 0,
        size.cell_height > 0,
        size.num_cols > 0,
        size.num_lines > 0,
        display_offset <= i32::MAX,
    ensures
        lies_under(*size, x as int, y as int, display_offset as int, point),
{
    lemma_lies_under(*size, x as nat, y as nat, display_offset as nat);
}

/// A fitting that is not ignored gives the backend exactly its size. Whenever the
/// number of columns or of lines differs from before, the terminal takes that shape,
/// and the program's side is told; else the terminal stays as it is. A fitting is
/// ignored if it is for the layout and the cells in use, or has no room for a cell.
pub proof fn law_a_fitting_gives_the_terminal_its_size(
    backend: &mut TerminalBackend,
    term: &mut Term<EventProxy>,
    fitting: Fitting,
    effect: Effect,
)
    requires
        call_ensures(
            TerminalBackend::process_command,
            (backend, term, BackendCommand::Resize(fitting)),
            effect,
        ),
    ensures
        ({
            let before = old(backend).size;
            let after = final(backend).size;
            let is_new = fitting.layout_size.width != before.layout_size.width
                || fitting.layout_size.height != before.layout_size.height || fitting.cell_width
                != before.cell_width || fitting.cell_height != before.cell_height;
            let has_room = fitting.num_lines > 0 && fitting.num_cols > 0;
            let reshaped = fitting.num_cols != before.num_cols || fitting.num_lines
                != before.num_lines;
            &&& is_new && has_room ==> {
                &&& after.num_cols == fitting.num_cols
                &&& after.num_lines == fitting.num_lines
                &&& after.cell_width == fitting.cell_width
                &&& after.cell_height == fitting.cell_height
                &&& after.layout_size == fitting.layout_size
            }
            &&& is_new && has_room && reshaped ==> {
                &&& term_model(*final(term)).columns == fitting.num_cols
                &&& term_model(*final(term)).screen_lines == fitting.num_lines
                &&& term_model(*final(term)).mode == term_model(*old(term)).mode
                &&& *final(term) == resized(
                    *old(term),
                    fitting.num_cols as usize,
                    fitting.num_lines as usize,
                )
                &&& effect == Effect::Resized(
                    WindowSize {
                        num_lines: fitting.num_lines,
                        num_cols: fitting.num_cols,
                        cell_width: fitting.cell_width,
                        cell_height: fitting.cell_height,
                    },
                )
                &&& final(backend).dirty
            }
            &&& !(is_new && has_room && reshaped) ==> {
                &&& *final(term) == *old(term)
                &&& effect is Nothing
                &&& final(backend).dirty == old(backend).dirty
            }
            &&& !(is_new && has_room) ==> *final(backend) == *old(backend)
            &&& same_backend(*final(backend), *old(backend))
            &&& final(backend).last_content == old(backend).last_content
            &&& final(backend).content_revision == old(backend).content_revision
        }),
{
}

/// Fitting the terminal to the same layout a second time does nothing.
pub proof fn law_a_second_fitting_does_nothing(
    backend: &mut TerminalBackend,
    term: &mut Term<EventProxy>,
    fitting: Fitting,
    effect: Effect,
    again: &mut TerminalBackend,
    term_again: &mut Term<EventProxy>,
    second: Effect,
)
    requires
        call_ensures(
            TerminalBackend::process_command,
            (backend, term, BackendCommand::Resize(fitting)),
            effect,
        ),
        *old(again) == *final(backend),
        *old(term_again) == *final(term),
        call_ensures(
            TerminalBackend::process_command,
            (again, term_again, BackendCommand::Resize(fitting)),
            second,
        ),
    ensures
        second is Nothing,
        *final(again) == *final(backend),
        *final(term_again) == *final(term),
{
}

/// What the widget writes is sent as it is. The viewport returns to the screen, the
/// text stays, and the write is counted.
pub proof fn law_a_write_is_sent_and_shows_the_screen(
    backend: &mut TerminalBackend,
    term: &mut Term<EventProxy>,
    input: Vec<u8>,
    effect: Effect,
)
    requires
        call_ensures(
            TerminalBackend::process_command,
            (backend, term, BackendCommand::Write(input)),
            effect,
        ),
    ensures
        effect matches Effect::Notify(sent) && sent@ == input@,
        term_model(*final(term)).display_offset == 0,
        term_model(*final(term)).text() == term_model(*old(term)).text(),
        term_model(*final(term)).mode == term_model(*old(term)).mode,
        term_model(*final(term)).cursor == term_model(*old(term)).cursor,
        term_model(*old(term)).mode.bits & 0x1_0000 != 0x1_0000 ==> term_model(
            *final(term),
        ).selection == term_model(*old(term)).selection,
        final(backend).dirty,
        counted_on(old(backend).content_revision, final(backend).content_revision),
        same_backend(*final(backend), *old(backend)),
        final(backend).size == old(backend).size,
        final(backend).last_content == old(backend).last_content,
{
}

/// Scrolling moves the viewport by the count of lines, up for a positive one, and no
/// further than the scrollback and the screen go. On the alternate screen, where the
/// wheel sends cursor keys, it sends one for each line instead.
pub proof fn law_scrolling_moves_the_viewport_by_the_count(
    backend: &mut TerminalBackend,
    term: &mut Term<EventProxy>,
    delta: i32,
    effect: Effect,
)
    requires
        term_model(*old(term)).wf(),
        call_ensures(
            TerminalBackend::process_command,
            (backend, term, BackendCommand::Scroll(delta)),
            effect,
        ),
    ensures
        ({
            let model = term_model(*old(term));
            let after = term_model(*final(term));
            let sends_keys = model.mode.bits & 0x9000 == 0x9000;
            &&& same_but_for_the_viewport(after, model)
            &&& !sends_keys || delta == 0 ==> effect is Nothing && after.display_offset
                == clamped_to(
                model.display_offset + delta,
                0,
                model.total_lines - model.screen_lines,
            )
            &&& sends_keys && delta != 0 ==> {
                &&& after.display_offset == model.display_offset
                &&& effect matches Effect::Notify(sent) && sent@.len() == 3 * (if delta < 0 {
                    -delta
                } else {
                    delta as int
                }) && forall|k: int|
                    #![trigger sent@[3 * k]]
                    0 <= k && 3 * k < sent@.len() ==> sent@[3 * k] == 0x1b && sent@[3 * k + 1]
                        == 0x4f && sent@[3 * k + 2] == (if delta > 0 {
                        0x41u8
                    } else {
                        0x42u8
                    })
            }
            &&& delta <= 0 ==> after.display_offset <= model.display_offset
            &&& delta >= 0 ==> after.display_offset >= model.display_offset
            &&& final(backend).dirty
            &&& after.display_offset == model.display_offset ==> final(backend).content_revision
                == old(backend).content_revision
            &&& after.display_offset != model.display_offset ==> counted_on(
                old(backend).content_revision,
                final(backend).content_revision,
            )
            &&& same_backend(*final(backend), *old(backend))
            &&& final(backend).size == old(backend).size
            &&& final(backend).last_content == old(backend).last_content
        }),
{
    let keys = crate::backend::cursor_keys(delta as int);
    assert forall|k: int| 0 <= k && 3 * k < keys.len() implies #[trigger] keys[3 * k] == 0x1b
        && keys[3 * k + 1] == 0x4f && keys[3 * k + 2] == (if delta > 0 {
        0x41u8
    } else {
        0x42u8
    }) by {
        assert((3 * k) % 3 == 0 && (3 * k + 1) % 3 == 1 && (3 * k + 2) % 3 == 2);
    }
}

/// Scrolling up and down by the same count ends where it began, if the viewport met
/// no edge.
pub proof fn law_scrolling_back_undoes_scrolling(
    backend: &mut TerminalBackend,
    term: &mut Term<EventProxy>,
    delta: i32,
    effect: Effect,
    again: &mut TerminalBackend,
    term_again: &mut Term<EventProxy>,
    back: i32,
    second: Effect,
)
    requires
        term_model(*old(term)).wf(),
        back == -delta,
        0 <= term_model(*old(term)).display_offset + delta <= term_model(*old(term)).total_lines
            - term_model(*old(term)).screen_lines,
        call_ensures(
            TerminalBackend::process_command,
            (backend, term, BackendCommand::Scroll(delta)),
            effect,
        ),
        *old(term_again) == *final(term),
        call_ensures(
            TerminalBackend::process_command,
            (again, term_again, BackendCommand::Scroll(back)),
            second,
        ),
    ensures
        term_model(*final(term_again)).display_offset == term_model(*old(term)).display_offset,
{
}

/// A selection begins in the cell under the position, on the side that the position
/// is on; nothing else of the terminal changes.
pub proof fn law_a_selection_begins_under_the_pointer(
    backend: &mut TerminalBackend,
    term: &mut Term<EventProxy>,
    kind: SelectionType,
    x: usize,
    y: usize,
    effect: Effect,
)
    requires
        term_model(*old(term)).wf(),
        old(backend).size.divides(),
        call_ensures(
            TerminalBackend::process_command,
            (backend, term, BackendCommand::SelectStart(kind, x, y)),
            effect,
        ),
    ensures
        effect is Nothing,
        same_but_for_the_selection(term_model(*final(term)), term_model(*old(term))),
        ({
            let size = old(backend).size;
            let offset = term_model(*old(term)).display_offset as int;
            &&& term_model(*final(term)).selection matches Some(selection)
            &&& selection.kind == kind
            &&& selection.start == selection.end
            &&& lies_under(size, x as int, y as int, offset, selection.start.point)
            &&& is_side_of(size.cell_width as int, x as int, selection.start.side)
        }),
        final(backend).dirty,
        same_backend(*final(backend), *old(backend)),
        final(backend).size == old(backend).size,
        final(backend).last_content == old(backend).last_content,
        final(backend).content_revision == old(backend).content_revision,
{
    lemma_lies_under(
        old(backend).size,
        x as nat,
        y as nat,
        term_model(*old(term)).display_offset,
    );
    lemma_is_side(old(backend).size, x as nat);
}

/// A selection is drawn to the cell under the position: its end moves there, its
/// start and its kind stay. Where there is none, nothing happens.
pub proof fn law_a_selection_is_drawn_to_the_pointer(
    backend: &mut TerminalBackend,
    term: &mut Term<EventProxy>,
    x: usize,
    y: usize,
    effect: Effect,
)
    requires
        term_model(*old(term)).wf(),
        old(backend).size.divides(),
        call_ensures(
            TerminalBackend::process_command,
            (backend, term, BackendCommand::SelectUpdate(x, y)),
            effect,
        ),
    ensures
        effect is Nothing,
        same_but_for_the_selection(term_model(*final(term)), term_model(*old(term))),
        term_model(*old(term)).selection is None ==> term_model(*final(term)).selection is None,
        term_model(*old(term)).selection matches Some(before) ==> {
            let size = old(backend).size;
            let offset = term_model(*old(term)).display_offset as int;
            &&& term_model(*final(term)).selection matches Some(after)
            &&& after.kind == before.kind
            &&& after.start == before.start
            &&& lies_under(size, x as int, y as int, offset, after.end.point)
            &&& is_side_of(size.cell_width as int, x as int, after.end.side)
        },
        final(backend).dirty,
        same_backend(*final(backend), *old(backend)),
        final(backend).size == old(backend).size,
        final(backend).last_content == old(backend).last_content,
        final(backend).content_revision == old(backend).content_revision,
{
    lemma_lies_under(
        old(backend).size,
        x as nat,
        y as nat,
        term_model(*old(term)).display_offset,
    );
    lemma_is_side(old(backend).size, x as nat);
}

/// The two contents differ at most in the link under the pointer.
pub open spec fn same_but_for_the_link(a: TerminalBackend, b: TerminalBackend) -> bool {
    &&& same_backend(a, b)
    &&& a.size == b.size
    &&& a.content_revision == b.content_revision
    &&& a.last_content.display_offset == b.last_content.display_offset
    &&& a.last_content.cursor_point == b.last_content.cursor_point
    &&& a.last_content.selectable_range == b.last_content.selectable_range
    &&& a.last_content.cursor == b.last_content.cursor
    &&& a.last_content.terminal_mode == b.last_content.terminal_mode
    &&& a.last_content.terminal_size == b.last_content.terminal_size
}

/// Links are asked for at a point: hovering notes the link that covers the point, if
/// one does; clearing forgets it; opening opens the text of the one that was noted,
/// and nothing where none was.
pub proof fn law_links_are_noted_and_opened(
    backend: &mut TerminalBackend,
    term: &mut Term<EventProxy>,
    action: LinkAction,
    point: Point,
    effect: Effect,
    pattern: &SearchPattern,
    found: Option<SearchMatch>,
    link: &SearchMatch,
    url: String,
    before: &Term<EventProxy>,
)
    requires
        call_ensures(
            TerminalBackend::process_command,
            (backend, term, BackendCommand::ProcessLink(action, point)),
            effect,
        ),
        *before == *old(term),
        *pattern == old(backend).url_regex,
        call_ensures(regex_match_at, (before, point, pattern), found),
        call_ensures(link_text, (before, link), url),
    ensures
        *final(term) == *old(term),
        final(backend).dirty,
        same_but_for_the_link(*final(backend), *old(backend)),
        action is Hover ==> effect is Nothing && final(backend).last_content.hovered_hyperlink
            == found,
        action is Clear ==> effect is Nothing
            && final(backend).last_content.hovered_hyperlink is None,
        action is Open ==> final(backend).last_content == old(backend).last_content,
        action is Open && old(backend).last_content.hovered_hyperlink is None ==> effect is Nothing,
        action is Open && old(backend).last_content.hovered_hyperlink == Some(*link) ==> (
        effect matches Effect::OpenLink(opened) && opened@ == url@),
{
    if action is Hover {
        crate::laws::law_the_hovered_link_is_determined(
            *old(backend),
            *old(term),
            point,
            found,
            final(backend).last_content.hovered_hyperlink,
        );
    }
}

/// A mouse report is sent in the encoding of the mode that was last taken over; where
/// there is none for the point, nothing is sent.
pub proof fn law_mouse_reports_are_sent(
    backend: &mut TerminalBackend,
    term: &mut Term<EventProxy>,
    button: MouseButton,
    modifiers: Modifiers,
    point: Point,
    pressed: bool,
    effect: Effect,
    report: Option<Vec<u8>>,
)
    requires
        call_ensures(
            TerminalBackend::process_command,
            (backend, term, BackendCommand::MouseReport(button, modifiers, point, pressed)),
            effect,
        ),
        call_ensures(
            process_mouse_report,
            (old(backend).last_content.terminal_mode, button, modifiers, point, pressed),
            report,
        ),
    ensures
        *final(term) == *old(term),
        final(backend).dirty,
        same_backend(*final(backend), *old(backend)),
        final(backend).size == old(backend).size,
        final(backend).last_content == old(backend).last_content,
        final(backend).content_revision == old(backend).content_revision,
        report is None ==> effect is Nothing,
        report matches Some(bytes) ==> (effect matches Effect::Notify(sent) && sent@ == bytes@),
{
}

/// Which commands can be carried out. On a terminal that is usable: all but counts of
/// lines and points that go beyond the machine's integers, positions on a size
/// without cells, shapes that the emulator cannot lay out, and links that the grid no
/// longer holds.
pub proof fn law_commands_are_accepted(
    backend: &TerminalBackend,
    term: &Term<EventProxy>,
    cmd: &BackendCommand,
    b: bool,
    reports: bool,
    report_at: Point,
)
    requires
        call_ensures(TerminalBackend::can_process, (backend, term, cmd), b),
        call_ensures(can_report, (backend.last_content.terminal_mode, report_at), reports),
    ensures
        !term_model(*term).wf() ==> !b,
        term_model(*term).wf() ==> ({
            let model = term_model(*term);
            let size = backend.size;
            match *cmd {
                BackendCommand::Write(_) => b,
                BackendCommand::Scroll(delta) => b == (if model.mode.bits & 0x9000 == 0x9000 {
                    delta > i32::MIN
                } else {
                    model.display_offset + delta <= i32::MAX
                }),
                BackendCommand::Resize(fitting) => {
                    let in_use = fitting.layout_size == size.layout_size && fitting.cell_width
                        == size.cell_width && fitting.cell_height == size.cell_height;
                    let same_shape = fitting.num_cols == size.num_cols && fitting.num_lines
                        == size.num_lines;
                    b == (in_use || same_shape || fitting.num_cols == 0 || fitting.num_lines == 0
                        || fitting.num_cols >= 2 && has_line_room(model))
                },
                BackendCommand::SelectStart(_, _, _) => b == (size.cell_width > 0
                    && size.cell_height > 0 && size.num_cols > 0 && size.num_lines > 0),
                BackendCommand::SelectUpdate(_, _) => b == (size.cell_width > 0 && size.cell_height
                    > 0 && size.num_cols > 0 && size.num_lines > 0),
                BackendCommand::ProcessLink(action, _) => {
                    let link = backend.last_content.hovered_hyperlink;
                    b == (!(action is Open) || link is None || model.screen_lines
                        - model.total_lines <= link->0.start.line < model.screen_lines
                        && link->0.start.column < model.columns)
                },
                BackendCommand::MouseReport(_, _, point, _) => point == report_at ==> b == reports,
            }
        }),
{
}

/// Syncing takes over what the widget draws from, once for everything that is new,
/// and leaves the terminal as it is.
pub proof fn law_syncing_takes_the_terminal_over(
    backend: &mut TerminalBackend,
    term: &mut Term<EventProxy>,
    synced: bool,
)
    requires
        term_model(*old(term)).wf(),
        call_ensures(TerminalBackend::sync_with_term, (backend, term), synced),
    ensures
        term_model(*final(term)) == term_model(*old(term)),
        synced == old(backend).dirty,
        !final(backend).dirty,
        !synced ==> *final(backend) == *old(backend),
        synced ==> {
            let model = term_model(*old(term));
            let content = final(backend).last_content;
            &&& content.display_offset == model.display_offset
            &&& content.cursor_point == model.cursor
            &&& content.hovered_hyperlink == old(backend).last_content.hovered_hyperlink
            &&& content.selectable_range == selected_range(*old(term))
            &&& content.cursor == model.cursor_cell
            &&& content.terminal_mode == model.mode
            &&& content.terminal_size == old(backend).size
        },
        same_backend(*final(backend), *old(backend)),
        final(backend).size == old(backend).size,
        final(backend).content_revision == old(backend).content_revision,
{
}

/// Scrolling to the top shows the oldest line of the scrollback first.
pub proof fn law_scrolling_to_the_top_shows_the_oldest_line(
    backend: &mut TerminalBackend,
    term: &mut Term<EventProxy>,
)
    requires
        term_model(*old(term)).wf(),
        call_ensures(TerminalBackend::scroll_to_top, (backend, term), ()),
    ensures
        same_but_for_the_viewport(term_model(*final(term)), term_model(*old(term))),
        -term_model(*final(term)).display_offset == term_model(*old(term)).screen_lines
            - term_model(*old(term)).total_lines,
        final(backend).dirty,
        term_model(*final(term)).display_offset == term_model(*old(term)).display_offset
            ==> final(backend).content_revision == old(backend).content_revision,
        term_model(*final(term)).display_offset != term_model(*old(term)).display_offset
            ==> counted_on(old(backend).content_revision, final(backend).content_revision),
        same_backend(*final(backend), *old(backend)),
        final(backend).size == old(backend).size,
        final(backend).last_content == old(backend).last_content,
{
}

/// Scrolling to a point shows its line: at the edge of the viewport that it was
/// beyond, and nothing moves where it shows already. A line beyond the scrollback or
/// the screen is approached as far as possible.
pub proof fn law_scrolling_to_a_point_brings_its_line_to_the_edge(
    backend: &mut TerminalBackend,
    term: &mut Term<EventProxy>,
    point: Point,
)
    requires
        term_model(*old(term)).wf(),
        i32::MIN < point.line,
        point.line + term_model(*old(term)).display_offset - (term_model(*old(term)).screen_lines
            - 1) <= i32::MAX,
        call_ensures(TerminalBackend::scroll_to_point, (backend, term, point), ()),
    ensures
        ({
            let model = term_model(*old(term));
            let after = term_model(*final(term));
            let history = model.total_lines - model.screen_lines;
            let first = -model.display_offset;
            let last = model.screen_lines - 1 - model.display_offset;
            &&& same_but_for_the_viewport(after, model)
            &&& point.line < first ==> after.display_offset == clamped_to(
                -point.line,
                0,
                history,
            )
            &&& point.line > last ==> after.display_offset == clamped_to(
                model.screen_lines - 1 - point.line,
                0,
                history,
            )
            &&& first <= point.line <= last ==> after.display_offset == model.display_offset
                && *final(backend) == *old(backend)
            &&& !(first <= point.line <= last) ==> final(backend).dirty
            &&& after.display_offset == model.display_offset ==> final(backend).content_revision
                == old(backend).content_revision
            &&& after.display_offset != model.display_offset ==> counted_on(
                old(backend).content_revision,
                final(backend).content_revision,
            )
            &&& same_backend(*final(backend), *old(backend))
            &&& final(backend).size == old(backend).size
            &&& final(backend).last_content == old(backend).last_content
        }),
{
}

/// Which points can be scrolled to.
pub proof fn law_points_can_be_scrolled_to(
    backend: &TerminalBackend,
    term: &Term<EventProxy>,
    point: Point,
    b: bool,
)
    requires
        call_ensures(TerminalBackend::can_scroll_to, (backend, term, point), b),
    ensures
        ({
            let model = term_model(*term);
            let last = model.screen_lines - 1 - model.display_offset;
            b == (model.wf() && i32::MIN < point.line && point.line - last <= i32::MAX)
        }),
{
}

/// The backend tells what it holds.
pub proof fn law_the_backend_tells_what_it_holds(
    backend: &TerminalBackend,
    term: &Term<EventProxy>,
    dirty: bool,
    revision: u64,
    id: u64,
    pty_id: u32,
    at_bottom: bool,
    bounds: GridBounds,
)
    requires
        term_model(*term).wf(),
        call_ensures(TerminalBackend::is_dirty, (backend,), dirty),
        call_ensures(TerminalBackend::content_revision, (backend,), revision),
        call_ensures(TerminalBackend::id, (backend,), id),
        call_ensures(TerminalBackend::pty_id, (backend,), pty_id),
        call_ensures(TerminalBackend::is_at_bottom, (backend, term), at_bottom),
        call_ensures(TerminalBackend::grid_bounds, (backend, term), bounds),
    ensures
        dirty == backend.dirty,
        revision == backend.content_revision,
        id == backend.id,
        pty_id == backend.pty_id,
        at_bottom == (term_model(*term).display_offset == 0),
        bounds.display_offset == term_model(*term).display_offset,
        bounds.screen_lines == term_model(*term).screen_lines,
        bounds.columns == term_model(*term).columns,
        bounds.total_lines == term_model(*term).total_lines,
        bounds.bottommost_line == term_model(*term).screen_lines - 1,
{
}

/// Marking asks for painting, and changes nothing else.
pub proof fn law_marking_asks_for_painting(backend: &mut TerminalBackend)
    requires
        call_ensures(TerminalBackend::mark_dirty, (backend,), ()),
    ensures
        *final(backend) == (TerminalBackend { dirty: true, ..*old(backend) }),
{
}

/// The keeping of the view can be switched where the terminal is written to
/// directly, and nowhere else.
pub proof fn law_sticky_scrolling_can_be_switched(backend: &mut TerminalBackend, enabled: bool)
    requires
        call_ensures(TerminalBackend::set_sticky_scroll, (backend, enabled), ()),
    ensures
        old(backend).sticky_scroll is Some ==> final(backend).sticky_scroll == Some(enabled),
        old(backend).sticky_scroll is None ==> *final(backend) == *old(backend),
        *final(backend) == (TerminalBackend {
            sticky_scroll: final(backend).sticky_scroll,
            ..*old(backend)
        }),
{
}

/// A new backend begins with a blank terminal of fifty lines of eighty columns, has
/// something to draw and has counted nothing.
pub open spec fn begins(backend: TerminalBackend, model: TermModel, id: u64, pty_id: u32) -> bool {
    &&& backend.id == id
    &&& backend.pty_id == pty_id
    &&& backend.dirty
    &&& backend.content_revision == 0
    &&& backend.size.num_cols == 80
    &&& backend.size.num_lines == 50
    &&& backend.size.cell_width == 1
    &&& backend.size.cell_height == 1
    &&& backend.last_content.terminal_size == backend.size
    &&& backend.last_content.display_offset == 0
    &&& backend.last_content.cursor_point == (Point { line: 0, column: 0 })
    &&& backend.last_content.hovered_hyperlink is None
    &&& backend.last_content.selectable_range is None
    &&& backend.last_content.terminal_mode == model.mode
    &&& backend.last_content.cursor == model.cursor_cell
    &&& text_of(backend.last_content.cursor).c == ' '
    &&& backend.size.layout_size.width == 0
    &&& backend.size.layout_size.height == 0
    &&& model.mode.bits == 0x2_8081
    &&& model.columns == 80
    &&& model.screen_lines == 50
    &&& model.total_lines == 50
    &&& model.display_offset == 0
    &&& model.selection is None
}

/// Every kind of backend begins alike. One that is written to directly can keep the
/// view, and does not yet.
pub proof fn law_backends_begin_alike(
    id: u64,
    pty_id: u32,
    proxy: EventProxy,
    pattern: SearchPattern,
    fed_by_process: (TerminalBackend, Term<EventProxy>),
    fed_by_stream: (TerminalBackend, Term<EventProxy>),
    written_to: (TerminalBackend, Term<EventProxy>, DirectWriter),
)
    requires
        call_ensures(TerminalBackend::new, (id, pty_id, proxy, pattern), fed_by_process),
        call_ensures(TerminalBackend::new_streaming, (id, proxy, pattern), fed_by_stream),
        call_ensures(TerminalBackend::new_direct, (id, proxy, pattern), written_to),
    ensures
        begins(fed_by_process.0, term_model(fed_by_process.1), id, pty_id),
        begins(fed_by_stream.0, term_model(fed_by_stream.1), id, 0),
        begins(written_to.0, term_model(written_to.1), id, 0),
        fed_by_process.0.url_regex == pattern,
        fed_by_stream.0.url_regex == pattern,
        written_to.0.url_regex == pattern,
        fed_by_process.0.sticky_scroll is None,
        fed_by_stream.0.sticky_scroll is None,
        written_to.0.sticky_scroll == Some(false),
{
}

/// A mark notes where the viewport stands and how much scrollback there is.
pub proof fn law_a_mark_notes_the_viewport(term: &Term<EventProxy>, mark: WriteMark)
    requires
        term_model(*term).wf(),
        call_ensures(WriteMark::begin, (term,), mark),
    ensures
        mark.old_offset == term_model(*term).display_offset,
        mark.old_history == term_model(*term).total_lines - term_model(*term).screen_lines,
{
}

/// After bytes have been taken in, the viewport stands where it stood, unless it is
/// to be kept: then it moves up by as many lines as have gone into the scrollback, and
/// no further than that goes. The text stays, and the write is counted.
pub proof fn law_completing_a_write_keeps_the_view(
    mark: &WriteMark,
    backend: &mut TerminalBackend,
    term: &mut Term<EventProxy>,
)
    requires
        1 <= term_model(*old(term)).screen_lines <= term_model(*old(term)).total_lines,
        call_ensures(WriteMark::complete, (mark, backend, term), ()),
    ensures
        ({
            let model = term_model(*old(term));
            let after = term_model(*final(term));
            let history = model.total_lines - model.screen_lines;
            let kept = old(backend).sticky_scroll == Some(true) && mark.old_offset > 0 && history
                > mark.old_history && model.total_lines <= i32::MAX;
            &&& after.text() == model.text()
            &&& after.mode == model.mode
            &&& after.cursor == model.cursor
            &&& !kept ==> after.display_offset == model.display_offset
            &&& kept ==> after.display_offset == clamped_to(
                mark.old_offset + (history - mark.old_history),
                0,
                history,
            )
            &&& !kept || model.mode.bits & 0x1_0000 != 0x1_0000 ==> after.selection
                == model.selection
            &&& final(backend).dirty
            &&& counted_on(old(backend).content_revision, final(backend).content_revision)
            &&& same_backend(*final(backend), *old(backend))
            &&& final(backend).size == old(backend).size
            &&& final(backend).last_content == old(backend).last_content
        }),
{
}

/// Bytes that are written directly are taken in by the terminal as they are. The view
/// is kept, if it is to be and the user has scrolled up: it moves along with the lines
/// that go into the scrollback.
pub proof fn law_bytes_are_written_to_the_terminal(
    writer: &mut DirectWriter,
    backend: &mut TerminalBackend,
    term: &mut Term<EventProxy>,
    data: &[u8],
    read: Option<Sequence>,
)
    requires
        term_model(*old(term)).wf(),
        call_ensures(DirectWriter::write, (writer, backend, term, data), ()),
        call_ensures(Sequence::read, (old(writer).sequence, data), read),
    ensures
        read is Some ==> final(writer).sequence == read->0,
        ({
            let model = term_model(*old(term));
            let taken = fed(old(writer).feeder, *old(term), data@);
            let after = term_model(*final(term));
            let added = taken.total_lines - taken.screen_lines - (model.total_lines
                - model.screen_lines);
            let kept = old(backend).sticky_scroll == Some(true) && model.display_offset > 0
                && added > 0 && taken.total_lines <= i32::MAX;
            &&& after.text() == taken.text()
            &&& after.mode == taken.mode
            &&& after.cursor == taken.cursor
            &&& !kept ==> after.display_offset == taken.display_offset
            &&& kept ==> after.display_offset == model.display_offset + added
            &&& !kept || taken.mode.bits & 0x1_0000 != 0x1_0000 ==> after.selection
                == taken.selection
            &&& after.columns == model.columns
            &&& after.screen_lines == model.screen_lines
            &&& final(backend).dirty
            &&& counted_on(old(backend).content_revision, final(backend).content_revision)
            &&& same_backend(*final(backend), *old(backend))
            &&& final(backend).size == old(backend).size
            &&& final(backend).last_content == old(backend).last_content
        }),
{
}

/// Which bytes can be written: as many as the terminal and its selection leave room for,
/// none that the parser would overflow on.
pub proof fn law_bytes_can_be_written(
    writer: &DirectWriter,
    term: &Term<EventProxy>,
    data: &[u8],
    b: bool,
    read: Option<Sequence>,
)
    requires
        call_ensures(DirectWriter::can_write, (writer, term, data), b),
        call_ensures(Sequence::read, (writer.sequence, data), read),
    ensures
        ({
            let model = term_model(*term);
            b == (model.wf() && model.columns >= 2 && has_line_room(model) && read is Some && (
            model.selection is None || held_back(writer.feeder) + data@.len() <= 65536))
        }),
{
}

/// A billion lines or so are left above and below for moving the selection's ends and the
/// vi mode's cursor.
pub open spec fn has_line_room(model: TermModel) -> bool {
    &&& model.screen_lines <= 0x4000_0000
    &&& -0x4000_0000 <= model.vi_line <= 0x4000_0000
    &&& model.selection is Some ==> model.selection->0.start.point.line >= -0x4000_0000
        && model.selection->0.end.point.line >= -0x4000_0000
}

/// Which terminals are usable, and which leave room.
pub proof fn law_terminals_are_told_apart(term: &Term<EventProxy>, is_usable: bool, is_roomy: bool)
    requires
        call_ensures(usable, (term,), is_usable),
        call_ensures(crate::terminal::is_roomy, (term,), is_roomy),
    ensures
        ({
            let model = term_model(*term);
            &&& is_roomy == has_line_room(model)
            &&& is_usable <==> {
                &&& 1 <= model.columns <= usize::MAX
                &&& 1 <= model.screen_lines <= model.total_lines <= i32::MAX
                &&& model.display_offset <= model.total_lines - model.screen_lines
                &&& 0 <= model.cursor.line < model.screen_lines
                &&& model.cursor.column < model.columns
            }
        }),
{
}

/// A new writer has written nothing, and what is written to it is text of its own.
pub proof fn law_a_new_writer_has_written_nothing(writer: DirectWriter)
    requires
        call_ensures(DirectWriter::new, (), writer),
    ensures
        writer.sequence is Outside,
        held_back(writer.feeder) == 0,
        !updating(writer.feeder),
        between_chars(writer.feeder),
{
}

/// There is nothing to draw at first.
pub proof fn law_there_is_nothing_to_draw_at_first(content: RenderableContent)
    requires
        call_ensures(RenderableContent::default, (), content),
    ensures
        content.display_offset == 0,
        content.cursor_point == (Point { line: 0, column: 0 }),
        content.hovered_hyperlink is None,
        content.selectable_range is None,
        content.terminal_mode.bits == 0,
        text_of(content.cursor).c == ' ',
        text_of(content.cursor).flags == 0,
        content.terminal_size.num_cols == 80,
        content.terminal_size.num_lines == 50,
        content.terminal_size.cell_width == 1,
        content.terminal_size.cell_height == 1,
        content.terminal_size.layout_size.width == 0,
        content.terminal_size.layout_size.height == 0,
{
}

/// The pattern for links is the one that compiles from the known schemes and what an
/// address can hold.
pub proof fn law_links_begin_with_a_known_scheme(
    links: Result<SearchPattern, PatternError>,
    same: Result<SearchPattern, PatternError>,
)
    requires
        call_ensures(url_regex, (), links),
        call_ensures(
            SearchPattern::new,
            (
                "(ipfs:|ipns:|magnet:|mailto:|gemini://|gopher://|https://|http://|news:|file://|git://|ssh:|ftp://)[^\\u{0000}-\\u{001F}\\u{007F}-\\u{009F}<>\"\\s{-}\\^⟨⟩`]+",
            ),
            same,
        ),
    ensures
        links is Ok <==> same is Ok,
        links is Ok ==> links->Ok_0@ == same->Ok_0@,
{
}

/// A pattern is refused if, and only if, the emulator cannot compile it, and is what it
/// compiles to otherwise. A copy finds what the pattern finds.
pub proof fn law_patterns_are_what_the_emulator_compiles(
    text: &str,
    made: Result<SearchPattern, PatternError>,
    pattern: &SearchPattern,
    copy: SearchPattern,
)
    requires
        call_ensures(SearchPattern::new, (text,), made),
        call_ensures(SearchPattern::copy, (pattern,), copy),
    ensures
        made is Ok <==> compiled(text@) is Some,
        made is Ok ==> compiled(text@) == Some(made->Ok_0@),
        copy@ == pattern@,
{
}

/// An answer of the emulator goes to the program as it is; the program's end, or that
/// of the channel, ends the waiting, and nothing else does.
pub proof fn law_events_are_answered(signal: Option<PtySignal>, step: PtyStep)
    requires
        call_ensures(subscription_step, (signal,), step),
    ensures
        step is Stop <==> signal is None || signal->0 is Exit,
        step is Reply <==> signal is Some && signal->0 is PtyWrite,
        step is Reply ==> step->Reply_0@ == encode_utf8(signal->0->PtyWrite_0@),
{
}

} // verus!
