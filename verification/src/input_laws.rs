//! What holds of what keyboard and mouse events come to.

use alacritty_terminal::term::Term;
use vstd::prelude::*;
use vstd::utf8::encode_utf8;

use crate::backend::{RenderableContent, TerminalBackend};
use crate::backend_laws::lies_under;
use crate::clock::{stamp, throttled_repaint};
use crate::geometry::Point;
use crate::input::{
    BackendCommand, BindingAction, InputAction, InputKind, LinkAction, Modifiers, MouseButton,
    PointerButton,
};
use crate::keyboard::{
    bound_action, can_take_event, copy_action, fallback_action, key_named, key_symbol,
    paste_action, process_keyboard_event, process_keyboard_key, process_text_event, text_action,
    KeyboardEvent,
};
use crate::laws::{law_digits_stand_for_the_number, number};
use crate::mode::{MouseMode, TerminalMode};
use crate::mouse::{
    bound_click, build_start_select_command, can_move, process_button_click, process_left_button,
    process_left_button_pressed, process_left_button_released, process_mouse_move,
    process_mouse_wheel, Clicks, Overshoot, WheelUnit,
};
use crate::report::{
    can_report, decimal, digits, normal_mouse_report, process_mouse_report, sgr_mouse_report,
};
use crate::size::{TerminalSize, WindowSize};
use crate::terminal::{term_model, EventProxy, SelectionType};
use crate::view::TerminalViewState;

verus! {

/// The action asks the backend for scrolling by `lines`.
pub open spec fn scrolls_by(action: InputAction, lines: int) -> bool {
    action matches InputAction::BackendCall(BackendCommand::Scroll(delta)) && delta == lines
}

/// The action sends these bytes to the program in the terminal.
pub open spec fn sends_bytes(action: InputAction, bytes: Seq<u8>) -> bool {
    action matches InputAction::BackendCall(BackendCommand::Write(sent)) && sent@ == bytes
}

/// A turn of the wheel that is counted in lines asks for scrolling by exactly that
/// signed count, and so do pixels once they have added up to lines; pages do nothing.
pub proof fn law_the_wheel_scrolls_by_its_count(
    unit: WheelUnit,
    lines: i32,
    moved: bool,
    action: InputAction,
)
    requires
        call_ensures(process_mouse_wheel, (unit, lines, moved), action),
    ensures
        unit is Line ==> scrolls_by(action, lines as int),
        unit is Pixel && moved ==> scrolls_by(action, lines as int),
        unit is Pixel && !moved ==> action is Ignore,
        unit is Page ==> action is Ignore,
{
}

/// Turns of the wheel by opposite counts ask for opposite movements.
pub proof fn law_opposite_turns_of_the_wheel_are_opposite(
    lines: i32,
    back: i32,
    moved: bool,
    there: InputAction,
    again: InputAction,
    there_by: int,
)
    requires
        back == -lines,
        call_ensures(process_mouse_wheel, (WheelUnit::Line, lines, moved), there),
        call_ensures(process_mouse_wheel, (WheelUnit::Line, back, moved), again),
        scrolls_by(there, there_by),
    ensures
        scrolls_by(again, -there_by),
{
}

/// Turning the wheel down never raises the viewport over the scrollback, and turning
/// it up never lowers it.
pub proof fn law_the_wheel_turns_the_viewport_its_way(
    lines: i32,
    moved: bool,
    action: InputAction,
    delta: i32,
    backend: &mut TerminalBackend,
    term: &mut Term<EventProxy>,
    effect: crate::backend::Effect,
)
    requires
        term_model(*old(term)).wf(),
        call_ensures(process_mouse_wheel, (WheelUnit::Line, lines, moved), action),
        scrolls_by(action, delta as int),
        call_ensures(
            TerminalBackend::process_command,
            (backend, term, BackendCommand::Scroll(delta)),
            effect,
        ),
    ensures
        lines <= 0 ==> term_model(*final(term)).display_offset <= term_model(
            *old(term),
        ).display_offset,
        lines >= 0 ==> term_model(*final(term)).display_offset >= term_model(
            *old(term),
        ).display_offset,
{
}

/// A double click selects a word, a triple click lines, and any other running text;
/// where both are told of, the word wins.
pub open spec fn kind_for(clicks: Clicks, kind: SelectionType) -> bool {
    &&& kind is Semantic <==> clicks.double
    &&& kind is Lines <==> clicks.triple && !clicks.double
    &&& kind is Simple <==> !clicks.double && !clicks.triple
}

/// The action begins a selection of the right kind at the position.
pub open spec fn begins_selection(action: InputAction, clicks: Clicks, x: usize, y: usize) -> bool {
    action matches InputAction::BackendCall(BackendCommand::SelectStart(kind, at_x, at_y)) && at_x
        == x && at_y == y && kind_for(clicks, kind)
}

/// A selection begins where the pointer is, of the kind that the clicks ask for.
pub proof fn law_clicks_tell_what_is_selected(
    clicks: Clicks,
    x: usize,
    y: usize,
    cmd: BackendCommand,
)
    requires
        call_ensures(build_start_select_command, (clicks, x, y), cmd),
    ensures
        begins_selection(InputAction::BackendCall(cmd), clicks, x, y),
{
}

/// A click that is bound to opening links opens the one under the pointer; any other
/// does nothing.
pub proof fn law_clicks_open_links_where_they_are_bound_to(
    bound: BindingAction,
    pointer: Point,
    action: InputAction,
)
    requires
        call_ensures(bound_click, (bound, pointer), action),
    ensures
        bound is LinkOpen ==> action == InputAction::BackendCall(
            BackendCommand::ProcessLink(LinkAction::Open, pointer),
        ),
        !(bound is LinkOpen) ==> action is Ignore,
{
}

/// The two states differ at most in whether the pointer drags.
pub open spec fn same_but_for_dragging(a: TerminalViewState, b: TerminalViewState) -> bool {
    &&& a.current_mouse_position_on_grid == b.current_mouse_position_on_grid
    &&& same_but_for_the_pointer(a, b)
}

/// The two states differ at most in what the pointer does and where it is.
pub open spec fn same_but_for_the_pointer(a: TerminalViewState, b: TerminalViewState) -> bool {
    &&& a.scrollbar_dragging == b.scrollbar_dragging
    &&& a.tracked_current == b.tracked_current
    &&& a.last_caller_current == b.last_caller_current
    &&& a.has_shapes == b.has_shapes
    &&& a.cached_rect == b.cached_rect
    &&& a.cached_visible == b.cached_visible
    &&& a.cached_h_offset == b.cached_h_offset
    &&& a.cached_search_key == b.cached_search_key
    &&& a.cached_current_match == b.cached_current_match
    &&& a.had_highlights == b.had_highlights
}

/// The left button goes down: dragging begins, and a selection.
pub proof fn law_pressing_begins_a_selection(
    state: &mut TerminalViewState,
    clicks: Clicks,
    x: usize,
    y: usize,
    action: InputAction,
)
    requires
        call_ensures(process_left_button_pressed, (state, clicks, x, y), action),
    ensures
        final(state).is_dragged,
        same_but_for_dragging(*final(state), *old(state)),
        begins_selection(action, clicks, x, y),
{
}

/// The left button goes up: dragging ends. A double or triple click selects; a single
/// one opens the link under the pointer, if it is bound to that.
pub proof fn law_releasing_selects_or_opens<
    F: Fn(InputKind, Modifiers, TerminalMode) -> BindingAction,
>(
    state: &mut TerminalViewState,
    clicks: Clicks,
    mode: TerminalMode,
    lookup: F,
    x: usize,
    y: usize,
    modifiers: Modifiers,
    action: InputAction,
    bound: BindingAction,
)
    requires
        call_ensures(
            process_left_button_released::<F>,
            (state, clicks, mode, lookup, x, y, modifiers),
            action,
        ),
        is_bound_to(lookup, InputKind::Mouse(PointerButton::Primary), modifiers, mode, bound),
    ensures
        !final(state).is_dragged,
        same_but_for_dragging(*final(state), *old(state)),
        clicks.double || clicks.triple ==> begins_selection(action, clicks, x, y),
        !clicks.double && !clicks.triple && bound is LinkOpen ==> action
            == InputAction::BackendCall(
            BackendCommand::ProcessLink(
                LinkAction::Open,
                old(state).current_mouse_position_on_grid,
            ),
        ),
        !clicks.double && !clicks.triple && !(bound is LinkOpen) ==> action is Ignore,
{
}

/// What a button comes to: while the program listens to the mouse, in one of three
/// modes, the left one is reported with the cell under the pointer, and nothing else
/// happens; else it selects, drags or opens links. Other buttons do nothing.
pub open spec fn button_does(
    before: TerminalViewState,
    after: TerminalViewState,
    clicks: Clicks,
    mode: TerminalMode,
    x: usize,
    y: usize,
    modifiers: Modifiers,
    pressed: bool,
    action: InputAction,
    bound: BindingAction,
) -> bool {
    if mode.bits & 0x2048 != 0 {
        &&& after == before
        &&& action == InputAction::BackendCall(
            BackendCommand::MouseReport(
                MouseButton::LeftButton,
                modifiers,
                before.current_mouse_position_on_grid,
                pressed,
            ),
        )
    } else {
        &&& after.is_dragged == pressed
        &&& same_but_for_dragging(after, before)
        &&& pressed || clicks.double || clicks.triple ==> begins_selection(action, clicks, x, y)
        &&& !pressed && !clicks.double && !clicks.triple ==> if bound is LinkOpen {
            action == InputAction::BackendCall(
                BackendCommand::ProcessLink(
                    LinkAction::Open,
                    before.current_mouse_position_on_grid,
                ),
            )
        } else {
            action is Ignore
        }
    }
}

/// See [`button_does`].
pub proof fn law_buttons_report_or_select<
    F: Fn(InputKind, Modifiers, TerminalMode) -> BindingAction,
>(
    state: &mut TerminalViewState,
    clicks: Clicks,
    mode: TerminalMode,
    lookup: F,
    button: PointerButton,
    x: usize,
    y: usize,
    modifiers: Modifiers,
    pressed: bool,
    action: InputAction,
    bound: BindingAction,
)
    requires
        call_ensures(
            process_button_click::<F>,
            (state, clicks, mode, lookup, button, x, y, modifiers, pressed),
            action,
        ),
        is_bound_to(lookup, InputKind::Mouse(PointerButton::Primary), modifiers, mode, bound),
    ensures
        button is Primary ==> button_does(
            *old(state),
            *final(state),
            clicks,
            mode,
            x,
            y,
            modifiers,
            pressed,
            action,
            bound,
        ),
        !(button is Primary) ==> action is Ignore && *final(state) == *old(state),
{
}

/// See [`button_does`].
pub proof fn law_the_left_button_reports_or_selects<
    F: Fn(InputKind, Modifiers, TerminalMode) -> BindingAction,
>(
    state: &mut TerminalViewState,
    clicks: Clicks,
    mode: TerminalMode,
    lookup: F,
    x: usize,
    y: usize,
    modifiers: Modifiers,
    pressed: bool,
    action: InputAction,
    bound: BindingAction,
)
    requires
        call_ensures(
            process_left_button::<F>,
            (state, clicks, mode, lookup, x, y, modifiers, pressed),
            action,
        ),
        is_bound_to(lookup, InputKind::Mouse(PointerButton::Primary), modifiers, mode, bound),
    ensures
        button_does(
            *old(state),
            *final(state),
            clicks,
            mode,
            x,
            y,
            modifiers,
            pressed,
            action,
            bound,
        ),
{
}

/// What a motion comes to, action by action. Dragging is reported where the program
/// wants to hear of every motion and nothing is held down; else it draws the
/// selection to the pointer, behind the scrolling that the pointer beyond an edge asks
/// for. With the command key alone, the link under the pointer is looked for last.
pub open spec fn motion_does(
    dragged: bool,
    mode: TerminalMode,
    pointer: Point,
    x: usize,
    y: usize,
    overshoot: Overshoot,
    modifiers: Modifiers,
    actions: Seq<InputAction>,
) -> bool {
    let bare = !modifiers.alt && !modifiers.ctrl && !modifiers.shift && !modifiers.mac_cmd
        && !modifiers.command;
    let reports = dragged && mode.bits & 0x40 == 0x40 && bare;
    let selects = dragged && !reports;
    let scrolls = selects && !(overshoot is Inside);
    let looks = modifiers.command && !modifiers.alt && !modifiers.shift;
    let first: int = if scrolls {
        1
    } else {
        0
    };
    let next: int = first + (if dragged {
        1int
    } else {
        0
    });
    &&& actions.len() == next + (if looks {
        1int
    } else {
        0
    })
    &&& scrolls ==> (match overshoot {
        Overshoot::Above(lines) => scrolls_by(actions[0], lines as int),
        Overshoot::Below(lines) => scrolls_by(actions[0], -lines),
        Overshoot::Inside => true,
    })
    &&& reports ==> actions[first] == InputAction::BackendCall(
        BackendCommand::MouseReport(MouseButton::LeftMove, modifiers, pointer, true),
    )
    &&& selects ==> actions[first] == InputAction::BackendCall(BackendCommand::SelectUpdate(x, y))
    &&& looks ==> actions[next] == InputAction::BackendCall(
        BackendCommand::ProcessLink(LinkAction::Hover, pointer),
    )
}

/// A motion notes the cell under the pointer, and comes to what [`motion_does`] says.
pub proof fn law_motions_drag_and_hover(
    state: &mut TerminalViewState,
    content: &RenderableContent,
    x: usize,
    y: usize,
    overshoot: Overshoot,
    modifiers: Modifiers,
    actions: Vec<InputAction>,
)
    requires
        call_ensures(process_mouse_move, (state, content, x, y, overshoot, modifiers), actions),
        content.terminal_size.divides(),
        content.display_offset <= i32::MAX,
        overshoot matches Overshoot::Below(lines) ==> lines > i32::MIN,
    ensures
        lies_under(
            content.terminal_size,
            x as int,
            y as int,
            content.display_offset as int,
            final(state).current_mouse_position_on_grid,
        ),
        final(state).is_dragged == old(state).is_dragged,
        same_but_for_the_pointer(*final(state), *old(state)),
        motion_does(
            old(state).is_dragged,
            content.terminal_mode,
            final(state).current_mouse_position_on_grid,
            x,
            y,
            overshoot,
            modifiers,
            actions@,
        ),
{
    crate::backend_laws::lemma_lies_under(
        content.terminal_size,
        x as nat,
        y as nat,
        content.display_offset as nat,
    );
}

/// Which motions can be handled: those on a size with cells, for counts that can be
/// negated.
pub proof fn law_motions_can_be_handled(
    content: &RenderableContent,
    overshoot: Overshoot,
    b: bool,
)
    requires
        call_ensures(can_move, (content, overshoot), b),
    ensures
        ({
            let size = content.terminal_size;
            b == (size.cell_width > 0 && size.cell_height > 0 && size.num_cols > 0 && size.num_lines
                > 0 && content.display_offset <= i32::MAX && !(overshoot == Overshoot::Below(
                i32::MIN,
            )))
        }),
{
}

/// What typed text sends: the text, behind an escape where Alt alone, or with Shift,
/// is held and is the Meta key.
pub open spec fn typed(text: Seq<char>, modifiers: Modifiers, apple: bool, bytes: Seq<u8>) -> bool {
    if apple || !modifiers.alt || modifiers.ctrl || modifiers.command {
        bytes == encode_utf8(text)
    } else {
        &&& bytes.len() == 1 + encode_utf8(text).len()
        &&& bytes[0] == 0x1b
        &&& bytes.skip(1) == encode_utf8(text)
    }
}

/// The action sends what typed text sends.
pub open spec fn types(
    action: InputAction,
    text: Seq<char>,
    modifiers: Modifiers,
    apple: bool,
) -> bool {
    action matches InputAction::BackendCall(BackendCommand::Write(sent)) && typed(
        text,
        modifiers,
        apple,
        sent@,
    )
}

proof fn lemma_typed(text: Seq<char>, modifiers: Modifiers, apple: bool)
    ensures
        typed(
            text,
            modifiers,
            apple,
            crate::keyboard::text_bytes(text, modifiers, apple),
        ),
{
    let bytes = crate::keyboard::text_bytes(text, modifiers, apple);
    assert((seq![0x1bu8] + encode_utf8(text)).skip(1) =~= encode_utf8(text));
}

/// Typed text is sent, unless the key that it names is bound: then its key event does
/// the work.
pub proof fn law_typed_text_is_sent_unless_it_is_bound(
    text: &str,
    modifiers: Modifiers,
    apple: bool,
    bound: Option<BindingAction>,
    action: InputAction,
)
    requires
        call_ensures(text_action, (text, modifiers, apple, bound), action),
    ensures
        bound is None ==> types(action, text@, modifiers, apple),
        bound matches Some(b) ==> if b is Ignore {
            types(action, text@, modifiers, apple)
        } else {
            action is Ignore
        },
{
    lemma_typed(text@, modifiers, apple);
}

/// Looking the input up gives `bound`.
pub open spec fn is_bound_to<F: Fn(InputKind, Modifiers, TerminalMode) -> BindingAction>(
    lookup: F,
    kind: InputKind,
    modifiers: Modifiers,
    mode: TerminalMode,
    bound: BindingAction,
) -> bool {
    forall|answer: BindingAction|
        call_ensures(lookup, (kind, modifiers, mode), answer) ==> answer == bound
}

/// Typed text is looked up by the key that it names, with the modifiers held.
pub proof fn law_typed_text_is_looked_up<
    F: Fn(InputKind, Modifiers, TerminalMode) -> BindingAction,
>(
    text: &str,
    modifiers: Modifiers,
    mode: TerminalMode,
    lookup: F,
    apple: bool,
    action: InputAction,
    bound: BindingAction,
)
    requires
        call_ensures(process_text_event::<F>, (text, modifiers, mode, lookup, apple), action),
    ensures
        key_named(text@) is None ==> types(action, text@, modifiers, apple),
        key_named(text@) is Some && is_bound_to(
            lookup,
            InputKind::KeyCode(key_named(text@)->0),
            modifiers,
            mode,
            bound,
        ) ==> if bound is Ignore {
            types(action, text@, modifiers, apple)
        } else {
            action is Ignore
        },
{
    lemma_typed(text@, modifiers, apple);
}

/// Ctrl, or the command key, and Shift are held.
pub open spec fn holds_control_and_shift(modifiers: Modifiers) -> bool {
    modifiers.shift && (modifiers.ctrl || modifiers.mac_cmd || modifiers.command)
}

/// The action sends a control character, behind an escape with Alt.
pub open spec fn sends_control(action: InputAction, control: u8, alt: bool) -> bool {
    action matches InputAction::BackendCall(BackendCommand::Write(sent)) && sent@.last() == control
        && sent@.len() == (if alt {
        2int
    } else {
        1
    }) && (alt ==> sent@[0] == 0x1b)
}

/// A paste sends the text, where the shortcut for pasting was used, and else the
/// control character of Ctrl+V.
pub proof fn law_pasting_sends_the_text_or_the_control_character(
    text: &str,
    modifiers: Modifiers,
    apple: bool,
    action: InputAction,
)
    requires
        call_ensures(paste_action, (text, modifiers, apple), action),
    ensures
        apple || holds_control_and_shift(modifiers) ==> sends_bytes(action, encode_utf8(text@)),
        !apple && !holds_control_and_shift(modifiers) ==> sends_control(
            action,
            0x16,
            modifiers.alt,
        ),
{
}

/// A copy puts the selected text on the clipboard, where the shortcut for copying was
/// used, and else sends the control character of Ctrl+C.
pub proof fn law_copying_takes_the_selection_or_sends_the_control_character(
    backend: &TerminalBackend,
    term: &Term<EventProxy>,
    modifiers: Modifiers,
    apple: bool,
    action: InputAction,
    selected: String,
)
    requires
        call_ensures(copy_action, (backend, term, modifiers, apple), action),
        call_ensures(TerminalBackend::selectable_content, (backend, term), selected),
    ensures
        apple || holds_control_and_shift(modifiers) ==> (
        action matches InputAction::WriteToClipboard(copied) && copied@ == selected@),
        !apple && !holds_control_and_shift(modifiers) ==> sends_control(
            action,
            0x03,
            modifiers.alt,
        ),
{
}

/// What a binding sends: its character or its sequence, and nothing for any other.
pub open spec fn does_bound(action: InputAction, bound: BindingAction) -> bool {
    match bound {
        BindingAction::Char(c) => sends_bytes(action, encode_utf8(seq![c])),
        BindingAction::Esc(sequence) => sends_bytes(action, encode_utf8(sequence@)),
        _ => action is Ignore,
    }
}

/// What an unbound key with Ctrl and Alt sends, given what it is bound to without Alt:
/// that behind an escape; where it is not bound either, an escape and the key's own
/// character in lower case, if that is a single printing one.
pub open spec fn does_unbound(
    action: InputAction,
    bound: BindingAction,
    symbol: Seq<char>,
) -> bool {
    match bound {
        BindingAction::Char(c) => action matches InputAction::BackendCall(
            BackendCommand::Write(sent),
        ) && sent@.len() == 1 + encode_utf8(seq![c]).len() && sent@[0] == 0x1b && sent@.skip(1)
            == encode_utf8(seq![c]),
        BindingAction::Esc(sequence) => action matches InputAction::BackendCall(
            BackendCommand::Write(sent),
        ) && sent@.len() == 1 + encode_utf8(sequence@).len() && sent@[0] == 0x1b && sent@.skip(1)
            == encode_utf8(sequence@),
        BindingAction::Ignore => if symbol.len() == 1 && '!' <= symbol[0] <= '~' {
            action matches InputAction::BackendCall(BackendCommand::Write(sent)) && sent@.len() == 2
                && sent@[0] == 0x1b && sent@[1] == (if 'A' <= symbol[0] <= 'Z' {
                symbol[0] as int - 'A' as int + 'a' as int
            } else {
                symbol[0] as int
            })
        } else {
            action is Ignore
        },
        _ => action is Ignore,
    }
}

/// See [`does_bound`].
pub proof fn law_bindings_send_what_they_hold(bound: BindingAction, action: InputAction)
    requires
        call_ensures(bound_action, (bound,), action),
    ensures
        does_bound(action, bound),
{
}

proof fn lemma_does_unbound(bound: BindingAction, symbol: Seq<char>, action: InputAction)
    requires
        action.sends(crate::keyboard::fallback_bytes(bound, symbol)),
    ensures
        does_unbound(action, bound, symbol),
{
    match bound {
        BindingAction::Char(c) => {
            assert((seq![0x1bu8] + encode_utf8(seq![c])).skip(1) =~= encode_utf8(seq![c]));
        },
        BindingAction::Esc(sequence) => {
            assert((seq![0x1bu8] + encode_utf8(sequence@)).skip(1) =~= encode_utf8(sequence@));
        },
        _ => {},
    }
}

/// See [`does_unbound`].
pub proof fn law_unbound_keys_send_an_escape_and_their_character(
    bound: BindingAction,
    symbol: &str,
    action: InputAction,
)
    requires
        call_ensures(fallback_action, (bound, symbol), action),
    ensures
        does_unbound(action, bound, symbol@),
{
    lemma_does_unbound(bound, symbol@, action);
}

/// What a key comes to: nothing when it is let go; else what it is bound to. One that
/// is not bound and is held with Ctrl and Alt is looked up once more without Alt.
pub open spec fn key_does(
    key: egui::Key,
    modifiers: Modifiers,
    pressed: bool,
    apple: bool,
    bound: BindingAction,
    without_alt: BindingAction,
    action: InputAction,
) -> bool {
    if !pressed {
        action is Ignore
    } else if bound is Ignore && modifiers.alt && modifiers.ctrl && !apple {
        does_unbound(action, without_alt, key_symbol(key))
    } else {
        does_bound(action, bound)
    }
}

/// See [`key_does`].
pub proof fn law_keys_do_what_they_are_bound_to<
    F: Fn(InputKind, Modifiers, TerminalMode) -> BindingAction,
>(
    mode: TerminalMode,
    lookup: F,
    key: egui::Key,
    modifiers: Modifiers,
    pressed: bool,
    apple: bool,
    action: InputAction,
    bound: BindingAction,
    without_alt: BindingAction,
)
    requires
        call_ensures(
            process_keyboard_key::<F>,
            (mode, lookup, key, modifiers, pressed, apple),
            action,
        ),
        is_bound_to(lookup, InputKind::KeyCode(key), modifiers, mode, bound),
        is_bound_to(
            lookup,
            InputKind::KeyCode(key),
            Modifiers { alt: false, ..modifiers },
            mode,
            without_alt,
        ),
    ensures
        key_does(key, modifiers, pressed, apple, bound, without_alt, action),
{
    if pressed && bound is Ignore && modifiers.alt && modifiers.ctrl && !apple {
        lemma_does_unbound(without_alt, key_symbol(key), action);
    }
}

/// What a keyboard event comes to: what its text, its key, the clipboard or the
/// selection asks for. A key carries its own modifiers; all others go by those of the
/// moment. `selected` is the selected text, `bound` what the key is bound to, and
/// `without_alt` what it is bound to without Alt.
pub open spec fn keyboard_event_does<
    F: Fn(InputKind, Modifiers, TerminalMode) -> BindingAction,
>(
    event: KeyboardEvent,
    mode: TerminalMode,
    lookup: F,
    modifiers: Modifiers,
    apple: bool,
    action: InputAction,
    selected: Seq<char>,
    bound: BindingAction,
    without_alt: BindingAction,
) -> bool {
    match event {
        KeyboardEvent::Text(text) => {
            &&& key_named(text@) is None ==> types(action, text@, modifiers, apple)
            &&& key_named(text@) is Some && is_bound_to(
                lookup,
                InputKind::KeyCode(key_named(text@)->0),
                modifiers,
                mode,
                bound,
            ) ==> if bound is Ignore {
                types(action, text@, modifiers, apple)
            } else {
                action is Ignore
            }
        },
        KeyboardEvent::Paste(text) => if apple || holds_control_and_shift(modifiers) {
            sends_bytes(action, encode_utf8(text@))
        } else {
            sends_control(action, 0x16, modifiers.alt)
        },
        KeyboardEvent::Copy => if apple || holds_control_and_shift(modifiers) {
            action matches InputAction::WriteToClipboard(copied) && copied@ == selected
        } else {
            sends_control(action, 0x03, modifiers.alt)
        },
        KeyboardEvent::Key { key, pressed, modifiers: held } => is_bound_to(
            lookup,
            InputKind::KeyCode(key),
            held,
            mode,
            bound,
        ) && is_bound_to(
            lookup,
            InputKind::KeyCode(key),
            Modifiers { alt: false, ..held },
            mode,
            without_alt,
        ) ==> key_does(key, held, pressed, apple, bound, without_alt, action),
    }
}

pub(crate) proof fn lemma_keyboard_event_does<
    F: Fn(InputKind, Modifiers, TerminalMode) -> BindingAction,
>(
    event: KeyboardEvent,
    backend: &TerminalBackend,
    term: &Term<EventProxy>,
    lookup: F,
    modifiers: Modifiers,
    apple: bool,
    action: InputAction,
    selected: String,
    bound: BindingAction,
    without_alt: BindingAction,
)
    requires
        crate::keyboard::event_comes_to(
            event,
            *backend,
            *term,
            lookup,
            modifiers,
            apple,
            action,
        ),
        call_ensures(TerminalBackend::selectable_content, (backend, term), selected),
    ensures
        keyboard_event_does(
            event,
            backend.last_content.terminal_mode,
            lookup,
            modifiers,
            apple,
            action,
            selected@,
            bound,
            without_alt,
        ),
{
    match event {
        KeyboardEvent::Text(text) => {
            lemma_typed(text@, modifiers, apple);
        },
        KeyboardEvent::Key { key, pressed, modifiers: held } => {
            if action.sends(crate::keyboard::fallback_bytes(without_alt, key_symbol(key))) {
                lemma_does_unbound(without_alt, key_symbol(key), action);
            }
        },
        _ => {},
    }
}

/// See [`keyboard_event_does`].
pub proof fn law_keyboard_events_come_to_what_they_are<
    F: Fn(InputKind, Modifiers, TerminalMode) -> BindingAction,
>(
    event: KeyboardEvent,
    backend: &TerminalBackend,
    term: &Term<EventProxy>,
    lookup: F,
    modifiers: Modifiers,
    apple: bool,
    action: InputAction,
    selected: String,
    bound: BindingAction,
    without_alt: BindingAction,
)
    requires
        call_ensures(
            process_keyboard_event::<F>,
            (event, backend, term, lookup, modifiers, apple),
            action,
        ),
        call_ensures(TerminalBackend::selectable_content, (backend, term), selected),
    ensures
        keyboard_event_does(
            event,
            backend.last_content.terminal_mode,
            lookup,
            modifiers,
            apple,
            action,
            selected@,
            bound,
            without_alt,
        ),
{
    lemma_keyboard_event_does(
        event,
        backend,
        term,
        lookup,
        modifiers,
        apple,
        action,
        selected,
        bound,
        without_alt,
    );
}

/// Every keyboard event can be taken, except a copy of a selection that the grid does
/// not hold.
pub proof fn law_keyboard_events_can_be_taken(
    event: &KeyboardEvent,
    backend: &TerminalBackend,
    term: &Term<EventProxy>,
    modifiers: Modifiers,
    apple: bool,
    b: bool,
    copies: bool,
)
    requires
        call_ensures(can_take_event, (event, backend, term, modifiers, apple), b),
        call_ensures(TerminalBackend::can_copy, (backend, term), copies),
    ensures
        b == (!(*event is Copy) || !apple && !holds_control_and_shift(modifiers) || copies),
        copies == (term_model(*term).wf() && match backend.last_content.selectable_range {
            None => true,
            Some(range) => range.end.line < range.start.line || term_model(*term).screen_lines
                - term_model(*term).total_lines <= range.start.line && range.end.line < term_model(
                *term,
            ).screen_lines && range.end.column < term_model(*term).columns,
        }),
{
}

/// What tells modifiers apart.
pub proof fn law_modifiers_are_told_apart(
    modifiers: &Modifiers,
    none: bool,
    command: bool,
    alt: bool,
    shift: bool,
    control: bool,
    shortcut: Modifiers,
)
    requires
        call_ensures(Modifiers::is_none, (modifiers,), none),
        call_ensures(Modifiers::command_only, (modifiers,), command),
        call_ensures(Modifiers::shortcut, (alt, shift, control), shortcut),
    ensures
        none <==> !modifiers.alt && !modifiers.ctrl && !modifiers.shift && !modifiers.mac_cmd
            && !modifiers.command,
        command <==> modifiers.command && !modifiers.alt && !modifiers.shift,
        shortcut == (Modifiers {
            alt,
            ctrl: false,
            shift,
            mac_cmd: false,
            command: control,
        }),
{
}

/// Mode bits are told apart.
pub proof fn law_mode_bits_are_told_apart(
    mode: &TerminalMode,
    flags: u32,
    all: bool,
    any: bool,
    empty: TerminalMode,
    mouse: MouseMode,
)
    requires
        call_ensures(TerminalMode::contains, (mode, flags), all),
        call_ensures(TerminalMode::intersects, (mode, flags), any),
        call_ensures(TerminalMode::empty, (), empty),
        call_ensures(MouseMode::from, (*mode,), mouse),
    ensures
        all <==> mode.bits & flags == flags,
        any <==> mode.bits & flags != 0,
        empty.bits == 0,
        mouse is Sgr <==> mode.bits & 0x20 == 0x20,
        mouse == MouseMode::Normal(true) <==> mode.bits & 0x20 != 0x20 && mode.bits & 0x4000
            == 0x4000,
        mouse == MouseMode::Normal(false) <==> mode.bits & 0x20 != 0x20 && mode.bits & 0x4000
            != 0x4000,
{
}

/// The buttons have their numbers, with 32 more for a motion and from 64 on for the
/// wheel.
pub proof fn law_buttons_have_their_numbers(button: &MouseButton, code: u8)
    requires
        call_ensures(MouseButton::code, (button,), code),
    ensures
        code == (match *button {
            MouseButton::LeftButton => 0int,
            MouseButton::MiddleButton => 1,
            MouseButton::RightButton => 2,
            MouseButton::LeftMove => 32,
            MouseButton::MiddleMove => 33,
            MouseButton::RightMove => 34,
            MouseButton::NoneMove => 35,
            MouseButton::ScrollUp => 64,
            MouseButton::ScrollDown => 65,
            MouseButton::Other => 99,
        }),
{
}

/// The digits are those of the number, in decimal and without a zero in front.
pub open spec fn is_decimal(text: Seq<u8>, n: int) -> bool {
    if n < 0 {
        &&& text.len() > 1
        &&& text[0] == 45
        &&& is_decimal_digits(text.skip(1), -n)
    } else {
        is_decimal_digits(text, n)
    }
}

/// See [`is_decimal`].
pub open spec fn is_decimal_digits(text: Seq<u8>, n: int) -> bool {
    &&& text.len() > 0
    &&& forall|i: int| 0 <= i < text.len() ==> 48 <= #[trigger] text[i] <= 57
    &&& text.len() > 1 ==> text[0] != 48
    &&& number(text) == n
}

proof fn lemma_no_zero_in_front(n: nat)
    ensures
        digits(n).len() > 0,
        n > 0 ==> digits(n)[0] != 48,
        digits(n).len() > 1 ==> n > 0,
    decreases n,
{
    if n >= 10 {
        lemma_no_zero_in_front(n / 10);
    }
}

proof fn lemma_is_decimal(n: int)
    ensures
        is_decimal(decimal(n), n),
{
    if n < 0 {
        law_digits_stand_for_the_number((-n) as nat);
        lemma_no_zero_in_front((-n) as nat);
        assert(decimal(n).skip(1) =~= digits((-n) as nat));
    } else {
        law_digits_stand_for_the_number(n as nat);
        lemma_no_zero_in_front(n as nat);
    }
}

/// An SGR report gives the button, the column and the line, counted from one and in
/// decimal, and ends with the letter for a press or that for a release.
pub proof fn law_sgr_reports_give_button_column_and_line(
    point: Point,
    button: u8,
    pressed: bool,
    report: Vec<u8>,
) -> (parts: (Seq<u8>, Seq<u8>, Seq<u8>))
    requires
        call_ensures(sgr_mouse_report, (point, button, pressed), report),
    ensures
        report@ == seq![0x1bu8, 0x5b, 0x3c] + parts.0 + seq![0x3bu8] + parts.1 + seq![0x3bu8]
            + parts.2 + seq![
            if pressed {
                0x4du8
            } else {
                0x6d
            },
        ],
        is_decimal(parts.0, button as int),
        is_decimal(parts.1, point.column + 1),
        is_decimal(parts.2, point.line + 1),
{
    lemma_is_decimal(button as int);
    lemma_is_decimal(point.column + 1);
    lemma_is_decimal(point.line + 1);
    (decimal(button as int), decimal(point.column + 1), decimal(point.line + 1))
}

/// The bytes stand for a coordinate: one byte, 33 more than the coordinate, or the two
/// bytes of that code point in UTF-8. A line of the scrollback counts modulo 256.
pub open spec fn stands_for(bytes: Seq<u8>, position: int, is_utf8: bool) -> bool {
    if is_utf8 && position >= 95 {
        &&& bytes.len() == 2
        &&& 0xc0 <= bytes[0] < 0xe0
        &&& 0x80 <= bytes[1] < 0xc0
        &&& (bytes[0] - 0xc0) * 64 + (bytes[1] - 0x80) == 33 + position
    } else {
        &&& bytes.len() == 1
        &&& position >= 0 ==> bytes[0] == 33 + position
        &&& (bytes[0] - 33 - position) % 256 == 0
    }
}

proof fn lemma_stands_for(position: int, is_utf8: bool)
    requires
        position < (if is_utf8 {
            2015int
        } else {
            223
        }),
        position < 0 ==> 33 + position % 256 <= 255,
    ensures
        stands_for(crate::report::coordinate(position, is_utf8), position, is_utf8),
{
}

/// The report without a final letter gives the button, the column and the line. There
/// is one for every point whose coordinates the encoding has room for.
pub proof fn law_normal_reports_give_button_column_and_line(
    point: Point,
    button: u8,
    is_utf8: bool,
    report: Option<Vec<u8>>,
) -> (parts: (Seq<u8>, Seq<u8>))
    requires
        call_ensures(normal_mouse_report, (point, button, is_utf8), report),
        button <= 223,
        point.line < 0 ==> 33 + point.line % 256 <= 255,
    ensures
        ({
            let limit: int = if is_utf8 {
                2015
            } else {
                223
            };
            report is Some <==> point.line < limit && point.column < limit
        }),
        report matches Some(bytes) ==> {
            &&& bytes@ == seq![0x1bu8, 0x5b, 0x4d, (32 + button) as u8] + parts.0 + parts.1
            &&& stands_for(parts.0, point.column as int, is_utf8)
            &&& stands_for(parts.1, point.line as int, is_utf8)
        },
{
    if report is Some {
        lemma_stands_for(point.column as int, is_utf8);
        lemma_stands_for(point.line as int, is_utf8);
    }
    (
        crate::report::coordinate(point.column as int, is_utf8),
        crate::report::coordinate(point.line as int, is_utf8),
    )
}

/// A report has the number of the button, or outside SGR three for any release, and 4
/// more for Shift, 8 for Alt and 16 for Ctrl or the command key, in the encoding that
/// the mode asks for.
pub proof fn law_reports_go_by_button_modifiers_and_mode(
    mode: TerminalMode,
    button: &MouseButton,
    modifiers: Modifiers,
    point: Point,
    pressed: bool,
    report: Option<Vec<u8>>,
    code: u8,
    number: u8,
    sgr: Vec<u8>,
    normal: Option<Vec<u8>>,
)
    requires
        call_ensures(process_mouse_report, (mode, *button, modifiers, point, pressed), report),
        call_ensures(MouseButton::code, (button,), code),
        number == (if pressed || mode.bits & 0x20 == 0x20 {
            code as int
        } else {
            3
        }) + (if modifiers.shift {
            4int
        } else {
            0
        }) + (if modifiers.alt {
            8int
        } else {
            0
        }) + (if modifiers.ctrl || modifiers.mac_cmd || modifiers.command {
            16int
        } else {
            0
        }),
        call_ensures(sgr_mouse_report, (point, number, pressed), sgr),
        call_ensures(
            normal_mouse_report,
            (point, number, mode.bits & 0x4000 == 0x4000),
            normal,
        ),
    ensures
        mode.bits & 0x20 == 0x20 ==> report is Some && report->0@ == sgr@,
        mode.bits & 0x20 != 0x20 ==> (report is Some <==> normal is Some),
        mode.bits & 0x20 != 0x20 && normal is Some ==> report->0@ == normal->0@,
{
}

/// A report can be built for every point of the screen, and for all points whose
/// coordinates the encoding can give or has no room for.
pub proof fn law_points_can_be_reported(mode: TerminalMode, point: Point, b: bool)
    requires
        call_ensures(can_report, (mode, point), b),
    ensures
        mode.bits & 0x20 == 0x20 ==> b == (point.line < i32::MAX && point.column < usize::MAX),
        mode.bits & 0x20 != 0x20 ==> b == (point.line >= 0 || point.column >= (if mode.bits & 0x4000
            == 0x4000 {
            2015int
        } else {
            223
        }) || 33 + point.line % 256 <= 255),
{
}

/// A repaint may be asked for once a second: whenever a second has gone by since it
/// last was, and then it is noted. A clock that goes back asks for none.
pub proof fn law_repaints_are_a_second_apart(now: u64, last: &mut u64, repaint: bool)
    requires
        call_ensures(throttled_repaint, (now, last), repaint),
    ensures
        repaint <==> *old(last) + 1000 <= now,
        repaint ==> *final(last) == now,
        !repaint ==> *final(last) == *old(last),
{
}

/// A time stamp is the count of milliseconds without what is beyond 64 bits.
pub proof fn law_stamps_are_low_bits(millis: u128, low: u64)
    requires
        call_ensures(stamp, (millis,), low),
    ensures
        (millis - low) % 0x1_0000_0000_0000_0000 == 0,
{
}

/// The parts of a size.
pub proof fn law_sizes_have_their_parts(
    size: &TerminalSize,
    divisible: bool,
    total: usize,
    screen: usize,
    columns: usize,
    last_column: usize,
    bottom: i32,
    window: WindowSize,
)
    requires
        call_ensures(TerminalSize::is_divisible, (size,), divisible),
        call_ensures(TerminalSize::total_lines, (size,), total),
        call_ensures(TerminalSize::screen_lines, (size,), screen),
        call_ensures(TerminalSize::columns, (size,), columns),
        call_ensures(TerminalSize::last_column, (size,), last_column),
        call_ensures(TerminalSize::bottommost_line, (size,), bottom),
        call_ensures(WindowSize::from, (*size,), window),
    ensures
        divisible <==> size.cell_width > 0 && size.cell_height > 0 && size.num_cols > 0
            && size.num_lines > 0,
        total == size.num_lines,
        screen == size.num_lines,
        columns == size.num_cols,
        last_column + 1 == size.num_cols,
        bottom + 1 == size.num_lines,
        window.num_lines == size.num_lines,
        window.num_cols == size.num_cols,
        window.cell_width == size.cell_width,
        window.cell_height == size.cell_height,
{
}

} // verus!
