use egui_term::backend::RenderableContent;
use egui_term::geometry::Point;
use egui_term::input::{
    BackendCommand, BindingAction, InputAction, InputKind, LinkAction, Modifiers, MouseButton,
    PointerButton,
};
use egui_term::mode::{TerminalMode, MOUSE_MOTION, MOUSE_REPORT_CLICK};
use egui_term::mouse::{
    build_start_select_command, can_move, process_button_click, process_mouse_move,
    process_mouse_wheel, Clicks, Overshoot, WheelUnit,
};
use egui_term::size::TerminalSize;
use egui_term::terminal::SelectionType;
use egui_term::view::TerminalViewState;

fn none() -> Modifiers {
    Modifiers { alt: false, ctrl: false, shift: false, mac_cmd: false, command: false }
}

fn command() -> Modifiers {
    Modifiers { ctrl: true, command: true, ..none() }
}

fn single() -> Clicks {
    Clicks { double: false, triple: false }
}

fn unbound(_kind: InputKind, _held: Modifiers, _mode: TerminalMode) -> BindingAction {
    BindingAction::Ignore
}

fn opens(kind: InputKind, held: Modifiers, _mode: TerminalMode) -> BindingAction {
    match kind {
        InputKind::Mouse(PointerButton::Primary) if held.command => BindingAction::LinkOpen,
        _ => BindingAction::Ignore,
    }
}

/// Cells of 10 by 20 pixels, 8 columns, 4 lines.
fn content(bits: u32, display_offset: usize) -> RenderableContent {
    RenderableContent {
        display_offset,
        terminal_mode: TerminalMode { bits },
        terminal_size: TerminalSize {
            cell_width: 10,
            cell_height: 20,
            num_cols: 8,
            num_lines: 4,
            ..TerminalSize::default()
        },
        ..RenderableContent::default()
    }
}

fn show(actions: &[InputAction]) -> Vec<String> {
    actions.iter().map(|action| format!("{:?}", action)).collect()
}

fn call(cmd: BackendCommand) -> String {
    format!("{:?}", InputAction::BackendCall(cmd))
}

#[test]
fn the_wheel_scrolls_by_lines() {
    assert_eq!(
        show(&[process_mouse_wheel(WheelUnit::Line, 3, false)]),
        vec![call(BackendCommand::Scroll(3))]
    );
    assert_eq!(
        show(&[process_mouse_wheel(WheelUnit::Pixel, -2, true)]),
        vec![call(BackendCommand::Scroll(-2))]
    );
    assert!(matches!(process_mouse_wheel(WheelUnit::Pixel, 0, false), InputAction::Ignore));
    assert!(matches!(process_mouse_wheel(WheelUnit::Page, 1, true), InputAction::Ignore));
}

#[test]
fn clicks_choose_what_is_selected() {
    let kind = |double, triple| {
        match build_start_select_command(Clicks { double, triple }, 7, 9) {
            BackendCommand::SelectStart(kind, 7, 9) => kind,
            other => panic!("not a selection: {:?}", other),
        }
    };
    assert_eq!(kind(false, false), SelectionType::Simple);
    assert_eq!(kind(true, false), SelectionType::Semantic);
    assert_eq!(kind(false, true), SelectionType::Lines);
    assert_eq!(kind(true, true), SelectionType::Semantic);
}

#[test]
fn pressing_begins_a_selection_and_releasing_ends_the_drag() {
    let mut state = TerminalViewState::default();
    let mode = TerminalMode { bits: 0 };
    let action = process_button_click(
        &mut state,
        single(),
        mode,
        unbound,
        PointerButton::Primary,
        3,
        4,
        none(),
        true,
    );
    assert!(state.is_dragged);
    assert_eq!(
        show(&[action]),
        vec![call(BackendCommand::SelectStart(SelectionType::Simple, 3, 4))]
    );
    let action = process_button_click(
        &mut state,
        single(),
        mode,
        unbound,
        PointerButton::Primary,
        3,
        4,
        none(),
        false,
    );
    assert!(!state.is_dragged);
    assert!(matches!(action, InputAction::Ignore));
}

#[test]
fn releasing_after_a_double_click_selects_the_word() {
    let mut state = TerminalViewState { is_dragged: true, ..TerminalViewState::default() };
    let action = process_button_click(
        &mut state,
        Clicks { double: true, triple: false },
        TerminalMode { bits: 0 },
        opens,
        PointerButton::Primary,
        3,
        4,
        command(),
        false,
    );
    assert!(!state.is_dragged);
    assert_eq!(
        show(&[action]),
        vec![call(BackendCommand::SelectStart(SelectionType::Semantic, 3, 4))]
    );
}

#[test]
fn a_bound_click_opens_the_link() {
    let mut state = TerminalViewState {
        current_mouse_position_on_grid: Point::new(2, 5),
        ..TerminalViewState::default()
    };
    let action = process_button_click(
        &mut state,
        single(),
        TerminalMode { bits: 0 },
        opens,
        PointerButton::Primary,
        0,
        0,
        command(),
        false,
    );
    assert_eq!(
        show(&[action]),
        vec![call(BackendCommand::ProcessLink(LinkAction::Open, Point::new(2, 5)))]
    );
}

#[test]
fn programs_that_listen_get_the_click() {
    let mut state = TerminalViewState {
        current_mouse_position_on_grid: Point::new(1, 6),
        ..TerminalViewState::default()
    };
    let action = process_button_click(
        &mut state,
        single(),
        TerminalMode { bits: MOUSE_REPORT_CLICK },
        unbound,
        PointerButton::Primary,
        0,
        0,
        none(),
        true,
    );
    assert!(!state.is_dragged);
    assert_eq!(
        show(&[action]),
        vec![call(BackendCommand::MouseReport(
            MouseButton::LeftButton,
            none(),
            Point::new(1, 6),
            true
        ))]
    );
}

#[test]
fn other_buttons_do_nothing() {
    let mut state = TerminalViewState::default();
    for button in [PointerButton::Secondary, PointerButton::Middle, PointerButton::Extra] {
        let action = process_button_click(
            &mut state,
            single(),
            TerminalMode { bits: MOUSE_REPORT_CLICK },
            opens,
            button,
            0,
            0,
            command(),
            true,
        );
        assert!(matches!(action, InputAction::Ignore));
    }
    assert_eq!(state, TerminalViewState::default());
}

#[test]
fn moving_notes_the_cell_under_the_pointer() {
    let mut state = TerminalViewState::default();
    let actions =
        process_mouse_move(&mut state, &content(0, 3), 25, 45, Overshoot::Inside, none());
    assert!(actions.is_empty());
    assert_eq!(state.current_mouse_position_on_grid, Point::new(-1, 2));
    process_mouse_move(&mut state, &content(0, 0), 9999, 9999, Overshoot::Inside, none());
    assert_eq!(state.current_mouse_position_on_grid, Point::new(3, 7));
}

#[test]
fn dragging_extends_the_selection() {
    let mut state = TerminalViewState { is_dragged: true, ..TerminalViewState::default() };
    let content = content(0, 0);
    let actions = process_mouse_move(&mut state, &content, 25, 45, Overshoot::Inside, none());
    assert_eq!(show(&actions), vec![call(BackendCommand::SelectUpdate(25, 45))]);
    let actions = process_mouse_move(&mut state, &content, 25, 0, Overshoot::Above(2), none());
    assert_eq!(
        show(&actions),
        vec![call(BackendCommand::Scroll(2)), call(BackendCommand::SelectUpdate(25, 0))]
    );
    let actions = process_mouse_move(&mut state, &content, 25, 95, Overshoot::Below(1), none());
    assert_eq!(
        show(&actions),
        vec![call(BackendCommand::Scroll(-1)), call(BackendCommand::SelectUpdate(25, 95))]
    );
}

#[test]
fn dragging_is_reported_where_motion_is_asked_for() {
    let mut state = TerminalViewState { is_dragged: true, ..TerminalViewState::default() };
    let content = content(MOUSE_MOTION, 0);
    let actions = process_mouse_move(&mut state, &content, 25, 45, Overshoot::Above(1), none());
    assert_eq!(
        show(&actions),
        vec![call(BackendCommand::MouseReport(
            MouseButton::LeftMove,
            none(),
            Point::new(2, 2),
            true
        ))]
    );
    let shift = Modifiers { shift: true, ..none() };
    let actions = process_mouse_move(&mut state, &content, 25, 45, Overshoot::Inside, shift);
    assert_eq!(show(&actions), vec![call(BackendCommand::SelectUpdate(25, 45))]);
}

#[test]
fn the_command_key_looks_for_links() {
    let mut state = TerminalViewState::default();
    let actions =
        process_mouse_move(&mut state, &content(0, 0), 25, 45, Overshoot::Inside, command());
    assert_eq!(
        show(&actions),
        vec![call(BackendCommand::ProcessLink(LinkAction::Hover, Point::new(2, 2)))]
    );
    let with_shift = Modifiers { shift: true, ..command() };
    let actions =
        process_mouse_move(&mut state, &content(0, 0), 25, 45, Overshoot::Inside, with_shift);
    assert!(actions.is_empty());
}

#[test]
fn motion_needs_cells_with_an_extent() {
    assert!(can_move(&content(0, 0), Overshoot::Inside));
    assert!(!can_move(&content(0, 0), Overshoot::Below(i32::MIN)));
    let mut flat = content(0, 0);
    flat.terminal_size.cell_height = 0;
    assert!(!can_move(&flat, Overshoot::Inside));
}
