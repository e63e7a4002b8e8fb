//! What mouse events come to.

use vstd::prelude::*;

use crate::backend::{point_at, RenderableContent, TerminalBackend};
use crate::geometry::Point;
use crate::input::{
    BackendCommand, BindingAction, InputAction, InputKind, LinkAction, Modifiers, MouseButton,
    PointerButton,
};
use crate::mode::{TerminalMode, MOUSE_MODE, MOUSE_MOTION};
use crate::terminal::SelectionType;
use crate::view::TerminalViewState;

verus! {

/// What a turn of the wheel is measured in.
#[derive(Clone, Copy, Debug, PartialEq, Eq, Structural)]
pub enum WheelUnit {
    Line,
    Pixel,
    Page,
}

/// What a turn of the wheel comes to.
pub open spec fn wheel_action(unit: WheelUnit, lines: i32, moved: bool) -> InputAction {
    match unit {
        WheelUnit::Line => InputAction::BackendCall(BackendCommand::Scroll(lines)),
        WheelUnit::Pixel => if moved {
            InputAction::BackendCall(BackendCommand::Scroll(lines))
        } else {
            InputAction::Ignore
        },
        WheelUnit::Page => InputAction::Ignore,
    }
}

/// Handles a turn of the wheel by so many lines, up for a positive count.
/// Pixels add up until they have `moved` the text by a line.
pub fn process_mouse_wheel(unit: WheelUnit, lines: i32, moved: bool) -> (action: InputAction)
    ensures
        action == wheel_action(unit, lines, moved),
{
    match unit {
        WheelUnit::Line => InputAction::BackendCall(BackendCommand::Scroll(lines)),
        WheelUnit::Pixel => {
            if moved {
                InputAction::BackendCall(BackendCommand::Scroll(lines))
            } else {
                InputAction::Ignore
            }
        },
        WheelUnit::Page => InputAction::Ignore,
    }
}

/// How often the widget has just been clicked.
#[derive(Clone, Copy, Debug, PartialEq, Eq, Structural)]
pub struct Clicks {
    pub double: bool,
    pub triple: bool,
}

/// What a click begins to select.
pub open spec fn selection_kind(clicks: Clicks) -> SelectionType {
    if clicks.double {
        SelectionType::Semantic
    } else if clicks.triple {
        SelectionType::Lines
    } else {
        SelectionType::Simple
    }
}

/// Builds the command that begins a selection: of text, of a word after a
/// double click, of lines after a triple click.
pub fn build_start_select_command(clicks: Clicks, x: usize, y: usize) -> (cmd: BackendCommand)
    ensures
        cmd == BackendCommand::SelectStart(selection_kind(clicks), x, y),
{
    let kind = if clicks.double {
        SelectionType::Semantic
    } else if clicks.triple {
        SelectionType::Lines
    } else {
        SelectionType::Simple
    };
    BackendCommand::SelectStart(kind, x, y)
}

/// Handles the left button going down: a selection begins, and dragging.
pub fn process_left_button_pressed(
    state: &mut TerminalViewState,
    clicks: Clicks,
    x: usize,
    y: usize,
) -> (action: InputAction)
    ensures
        *final(state) == (TerminalViewState { is_dragged: true, ..*old(state) }),
        action == InputAction::BackendCall(
            BackendCommand::SelectStart(selection_kind(clicks), x, y),
        ),
{
    state.is_dragged = true;
    InputAction::BackendCall(build_start_select_command(clicks, x, y))
}

/// What a click is, given what it is bound to.
pub open spec fn click_action(bound: BindingAction, pointer: Point) -> InputAction {
    if bound is LinkOpen {
        InputAction::BackendCall(BackendCommand::ProcessLink(LinkAction::Open, pointer))
    } else {
        InputAction::Ignore
    }
}

/// Builds [`click_action`].
pub fn bound_click(bound: BindingAction, pointer: Point) -> (action: InputAction)
    ensures
        action == click_action(bound, pointer),
{
    match bound {
        BindingAction::LinkOpen => InputAction::BackendCall(
            BackendCommand::ProcessLink(LinkAction::Open, pointer),
        ),
        _ => InputAction::Ignore,
    }
}

/// What the left button comes to when it goes up.
pub open spec fn release_comes_to<F: Fn(InputKind, Modifiers, TerminalMode) -> BindingAction>(
    pointer: Point,
    clicks: Clicks,
    mode: TerminalMode,
    lookup: F,
    x: usize,
    y: usize,
    modifiers: Modifiers,
    action: InputAction,
) -> bool {
    if clicks.double || clicks.triple {
        action == InputAction::BackendCall(
            BackendCommand::SelectStart(selection_kind(clicks), x, y),
        )
    } else {
        exists|bound: BindingAction| #[trigger]
            call_ensures(lookup, (InputKind::Mouse(PointerButton::Primary), modifiers, mode), bound)
                && action == click_action(bound, pointer)
    }
}

/// Handles the left button going up: dragging ends; a double or triple click
/// selects, a single one may open the link under the pointer.
pub fn process_left_button_released<F: Fn(InputKind, Modifiers, TerminalMode) -> BindingAction>(
    state: &mut TerminalViewState,
    clicks: Clicks,
    mode: TerminalMode,
    lookup: F,
    x: usize,
    y: usize,
    modifiers: Modifiers,
) -> (action: InputAction)
    requires
        forall|kind: InputKind, held: Modifiers| call_requires(lookup, (kind, held, mode)),
    ensures
        *final(state) == (TerminalViewState { is_dragged: false, ..*old(state) }),
        release_comes_to(
            old(state).current_mouse_position_on_grid,
            clicks,
            mode,
            lookup,
            x,
            y,
            modifiers,
            action,
        ),
{
    state.is_dragged = false;
    if clicks.double || clicks.triple {
        return InputAction::BackendCall(build_start_select_command(clicks, x, y));
    }
    let bound = lookup(InputKind::Mouse(PointerButton::Primary), modifiers, mode);
    let ghost found = bound;
    let action = bound_click(bound, state.current_mouse_position_on_grid);
    assert(call_ensures(lookup, (InputKind::Mouse(PointerButton::Primary), modifiers, mode), found));
    action
}

/// What the left button comes to, and what the view's state becomes: while the
/// program in the terminal listens to the mouse, it is told, and nothing else
/// happens.
pub open spec fn left_button_comes_to<
    F: Fn(InputKind, Modifiers, TerminalMode) -> BindingAction,
>(
    state: TerminalViewState,
    clicks: Clicks,
    mode: TerminalMode,
    lookup: F,
    x: usize,
    y: usize,
    modifiers: Modifiers,
    pressed: bool,
    after: TerminalViewState,
    action: InputAction,
) -> bool {
    let pointer = state.current_mouse_position_on_grid;
    if mode.has_any(MOUSE_MODE) {
        &&& after == state
        &&& action == InputAction::BackendCall(
            BackendCommand::MouseReport(MouseButton::LeftButton, modifiers, pointer, pressed),
        )
    } else if pressed {
        &&& after == (TerminalViewState { is_dragged: true, ..state })
        &&& action == InputAction::BackendCall(
            BackendCommand::SelectStart(selection_kind(clicks), x, y),
        )
    } else {
        &&& after == (TerminalViewState { is_dragged: false, ..state })
        &&& release_comes_to(pointer, clicks, mode, lookup, x, y, modifiers, action)
    }
}

/// Handles the left button.
pub fn process_left_button<F: Fn(InputKind, Modifiers, TerminalMode) -> BindingAction>(
    state: &mut TerminalViewState,
    clicks: Clicks,
    mode: TerminalMode,
    lookup: F,
    x: usize,
    y: usize,
    modifiers: Modifiers,
    pressed: bool,
) -> (action: InputAction)
    requires
        forall|kind: InputKind, held: Modifiers| call_requires(lookup, (kind, held, mode)),
    ensures
        left_button_comes_to(
            *old(state),
            clicks,
            mode,
            lookup,
            x,
            y,
            modifiers,
            pressed,
            *final(state),
            action,
        ),
{
    if mode.intersects(MOUSE_MODE) {
        InputAction::BackendCall(
            BackendCommand::MouseReport(
                MouseButton::LeftButton,
                modifiers,
                state.current_mouse_position_on_grid,
                pressed,
            ),
        )
    } else if pressed {
        process_left_button_pressed(state, clicks, x, y)
    } else {
        process_left_button_released(state, clicks, mode, lookup, x, y, modifiers)
    }
}

/// What a button comes to: only the left one does anything.
pub open spec fn button_comes_to<F: Fn(InputKind, Modifiers, TerminalMode) -> BindingAction>(
    state: TerminalViewState,
    clicks: Clicks,
    mode: TerminalMode,
    lookup: F,
    button: PointerButton,
    x: usize,
    y: usize,
    modifiers: Modifiers,
    pressed: bool,
    after: TerminalViewState,
    action: InputAction,
) -> bool {
    if button is Primary {
        left_button_comes_to(
            state,
            clicks,
            mode,
            lookup,
            x,
            y,
            modifiers,
            pressed,
            after,
            action,
        )
    } else {
        after == state && action is Ignore
    }
}

/// Handles a button.
pub fn process_button_click<F: Fn(InputKind, Modifiers, TerminalMode) -> BindingAction>(
    state: &mut TerminalViewState,
    clicks: Clicks,
    mode: TerminalMode,
    lookup: F,
    button: PointerButton,
    x: usize,
    y: usize,
    modifiers: Modifiers,
    pressed: bool,
) -> (action: InputAction)
    requires
        forall|kind: InputKind, held: Modifiers| call_requires(lookup, (kind, held, mode)),
    ensures
        button_comes_to(
            *old(state),
            clicks,
            mode,
            lookup,
            button,
            x,
            y,
            modifiers,
            pressed,
            *final(state),
            action,
        ),
{
    match button {
        PointerButton::Primary => process_left_button(
            state,
            clicks,
            mode,
            lookup,
            x,
            y,
            modifiers,
            pressed,
        ),
        _ => InputAction::Ignore,
    }
}

/// How far the pointer is beyond the upper or the lower edge of the widget, in
/// lines.
#[derive(Clone, Copy, Debug, PartialEq, Eq, Structural)]
pub enum Overshoot {
    Inside,
    Above(i32),
    Below(i32),
}

/// The scrolling that dragging beyond an edge asks for.
pub open spec fn edge_scrolling(overshoot: Overshoot) -> Seq<InputAction> {
    match overshoot {
        Overshoot::Inside => Seq::empty(),
        Overshoot::Above(lines) => seq![InputAction::BackendCall(BackendCommand::Scroll(lines))],
        Overshoot::Below(lines) => seq![
            InputAction::BackendCall(BackendCommand::Scroll((-lines) as i32)),
        ],
    }
}

/// What dragging to a cell comes to: a report, if the program in the terminal
/// wants to hear of every motion and no modifier is held; else the selection
/// grows, after some scrolling beyond an edge.
pub open spec fn drag_actions(
    mode: TerminalMode,
    pointer: Point,
    x: usize,
    y: usize,
    overshoot: Overshoot,
    modifiers: Modifiers,
) -> Seq<InputAction> {
    if mode.has(MOUSE_MOTION) && modifiers.bare() {
        seq![
            InputAction::BackendCall(
                BackendCommand::MouseReport(MouseButton::LeftMove, modifiers, pointer, true),
            ),
        ]
    } else {
        edge_scrolling(overshoot).push(
            InputAction::BackendCall(BackendCommand::SelectUpdate(x, y)),
        )
    }
}

/// What a motion to a cell comes to: dragging, if a button is held; and with
/// the command key a look for a link.
pub open spec fn move_actions(
    dragged: bool,
    mode: TerminalMode,
    pointer: Point,
    x: usize,
    y: usize,
    overshoot: Overshoot,
    modifiers: Modifiers,
) -> Seq<InputAction> {
    let dragging = if dragged {
        drag_actions(mode, pointer, x, y, overshoot, modifiers)
    } else {
        Seq::empty()
    };
    if modifiers.just_command() {
        dragging.push(
            InputAction::BackendCall(BackendCommand::ProcessLink(LinkAction::Hover, pointer)),
        )
    } else {
        dragging
    }
}

/// The motion can be handled: the terminal's size can be divided into cells,
/// and the counts of lines can be negated.
pub open spec fn move_fits(content: RenderableContent, overshoot: Overshoot) -> bool {
    &&& content.terminal_size.divides()
    &&& content.display_offset <= i32::MAX
    &&& overshoot matches Overshoot::Below(lines) ==> lines > i32::MIN
}

/// Decides [`move_fits`].
pub fn can_move(content: &RenderableContent, overshoot: Overshoot) -> (b: bool)
    ensures
        b == move_fits(*content, overshoot),
{
    let negates = match overshoot {
        Overshoot::Below(lines) => lines > i32::MIN,
        _ => true,
    };
    content.terminal_size.is_divisible() && content.display_offset <= i32::MAX as usize && negates
}

/// Handles a motion of the pointer to a position in the widget.
pub fn process_mouse_move(
    state: &mut TerminalViewState,
    content: &RenderableContent,
    x: usize,
    y: usize,
    overshoot: Overshoot,
    modifiers: Modifiers,
) -> (actions: Vec<InputAction>)
    requires
        move_fits(*content, overshoot),
    ensures
        ({
            let pointer = point_at(
                content.terminal_size,
                x as nat,
                y as nat,
                content.display_offset as nat,
            );
            &&& *final(state) == (TerminalViewState {
                current_mouse_position_on_grid: pointer,
                ..*old(state)
            })
            &&& actions@ == move_actions(
                old(state).is_dragged,
                content.terminal_mode,
                pointer,
                x,
                y,
                overshoot,
                modifiers,
            )
        }),
{
    let pointer = TerminalBackend::selection_point(
        x,
        y,
        &content.terminal_size,
        content.display_offset,
    );
    state.current_mouse_position_on_grid = pointer;
    let mode = content.terminal_mode;
    let mut actions: Vec<InputAction> = Vec::new();
    if state.is_dragged {
        if mode.contains(MOUSE_MOTION) && modifiers.is_none() {
            actions.push(
                InputAction::BackendCall(
                    BackendCommand::MouseReport(MouseButton::LeftMove, modifiers, pointer, true),
                ),
            );
        } else {
            match overshoot {
                Overshoot::Inside => {},
                Overshoot::Above(lines) => actions.push(
                    InputAction::BackendCall(BackendCommand::Scroll(lines)),
                ),
                Overshoot::Below(lines) => actions.push(
                    InputAction::BackendCall(BackendCommand::Scroll(-lines)),
                ),
            }
            assert(actions@ == edge_scrolling(overshoot));
            actions.push(InputAction::BackendCall(BackendCommand::SelectUpdate(x, y)));
        }
        assert(actions@ == drag_actions(mode, pointer, x, y, overshoot, modifiers));
    }
    if modifiers.command_only() {
        actions.push(
            InputAction::BackendCall(BackendCommand::ProcessLink(LinkAction::Hover, pointer)),
        );
    }
    assert(actions@ == move_actions(
        state.is_dragged,
        mode,
        pointer,
        x,
        y,
        overshoot,
        modifiers,
    ));
    actions
}

} // verus!
