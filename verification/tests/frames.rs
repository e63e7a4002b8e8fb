use alacritty_terminal::term::test::TermSize;
use alacritty_terminal::term::{Config, Term};
use alacritty_terminal::vte::ansi::Processor;
use egui_term::backend::{url_regex, TerminalBackend};
use egui_term::geometry::{Point, SearchMatch, SelectionRange};
use egui_term::highlight::{HighlightKind, Highlights};
use egui_term::input::{
    BackendCommand, BindingAction, InputAction, InputKind, Modifiers, PointerButton,
};
use egui_term::keyboard::KeyboardEvent;
use egui_term::mode::TerminalMode;
use egui_term::mouse::{Clicks, Overshoot, WheelUnit};
use egui_term::paint::{
    border_colour, border_rows, highlight_background, paint_cells, BorderRow, CellPaint,
    ColumnBand, PaintOptions, Rgb,
};
use egui_term::search::SearchPattern;
use egui_term::terminal::EventProxy;
use egui_term::view::{
    FramePlan, InputEvent, PixelRect, ScrollbarInput, Surroundings, TerminalView,
    TerminalViewState, TrackPointer, RENDER_THROTTLE_NANOS,
};
use std::sync::atomic::AtomicBool;
use std::sync::mpsc;
use std::sync::Arc;

fn setup(columns: usize, lines: usize, text: &str) -> (TerminalBackend, Term<EventProxy>) {
    let (sender, _receiver) = mpsc::channel();
    let proxy = EventProxy::new(sender, Arc::new(AtomicBool::new(false)));
    let (mut backend, mut term, mut writer) =
        TerminalBackend::new_direct(7, proxy, url_regex().unwrap());
    term.resize(TermSize::new(columns, lines));
    assert!(writer.can_write(&term, text.as_bytes()));
    writer.write(&mut backend, &mut term, text.as_bytes());
    backend.sync_with_term(&mut term);
    (backend, term)
}

fn numbered() -> (TerminalBackend, Term<EventProxy>) {
    let lines: Vec<String> = (0..20).map(|i| format!("row {}", i)).collect();
    setup(12, 4, &lines.join("\r\n"))
}

fn rect(width: i64) -> PixelRect {
    PixelRect { min_x: 0, min_y: 0, max_x: width, max_y: 100 }
}

fn none() -> Modifiers {
    Modifiers { alt: false, ctrl: false, shift: false, mac_cmd: false, command: false }
}

fn around(has_focus: bool, has_pointer: bool) -> Surroundings {
    Surroundings {
        has_focus,
        has_pointer,
        modifiers: none(),
        clicks: Clicks { double: false, triple: false },
        apple: false,
    }
}

fn unbound(_kind: InputKind, _held: Modifiers, _mode: TerminalMode) -> BindingAction {
    BindingAction::Ignore
}

fn options(min: i32, max: i32) -> PaintOptions {
    PaintOptions { band: ColumnBand { min, max }, hide_cursor: false, pointer: Point::new(0, 0) }
}

fn glyphs(cells: &[CellPaint]) -> String {
    cells.iter().filter_map(|cell| cell.glyph).collect()
}

fn at(cells: &[CellPaint], line: i32, column: usize) -> CellPaint {
    *cells.iter().find(|cell| cell.point == Point::new(line, column)).unwrap()
}

#[test]
fn cells_are_painted_row_by_row() {
    let (backend, term) = setup(4, 2, "ab\r\nc");
    let marks = Highlights::of(&Vec::new(), None, 4);
    let cells = paint_cells(&term, backend.last_content(), &marks, &options(0, 4));
    assert_eq!(cells.len(), 8);
    assert_eq!(glyphs(&cells), "abc");
    assert_eq!((cells[4].row, cells[4].shift), (1, 0));
    assert_eq!(cells[4].point, Point::new(1, 0));
    assert_eq!(cells[2].glyph, None);
    assert!(at(&cells, 1, 1).cursor);
    assert_eq!(cells.iter().filter(|cell| cell.cursor).count(), 1);
}

#[test]
fn only_the_band_is_painted() {
    let (backend, term) = setup(10, 1, "0123456789");
    let marks = Highlights::of(&Vec::new(), None, 10);
    let content = backend.last_content();
    let cells = paint_cells(&term, content, &marks, &options(3, 6));
    assert_eq!(glyphs(&cells), "345");
    assert_eq!(cells[0].shift, 0);
    assert_eq!(cells[2].shift, 2);
    assert_eq!(glyphs(&paint_cells(&term, content, &marks, &options(8, 20))), "89");
    assert_eq!(glyphs(&paint_cells(&term, content, &marks, &options(15, 20))), "");
    let shifted = paint_cells(&term, content, &marks, &options(-2, 2));
    assert_eq!(glyphs(&shifted), "01");
    assert_eq!(shifted[0].shift, 2);
}

#[test]
fn the_scrolled_viewport_is_painted() {
    let (mut backend, mut term) = numbered();
    backend.process_command(&mut term, BackendCommand::Scroll(16));
    backend.sync_with_term(&mut term);
    let marks = Highlights::of(&Vec::new(), None, 12);
    let cells = paint_cells(&term, backend.last_content(), &marks, &options(0, 12));
    assert_eq!(glyphs(&cells), "row0row1row2row3");
    assert_eq!(cells[0].point, Point::new(-16, 0));
    assert_eq!(cells[0].row, 0);
    assert!(cells.iter().all(|cell| !cell.cursor));
}

#[test]
fn wide_characters_take_two_columns() {
    let (backend, term) = setup(6, 1, "a\u{4f60}b");
    let marks = Highlights::of(&Vec::new(), None, 6);
    let cells = paint_cells(&term, backend.last_content(), &marks, &options(0, 6));
    assert_eq!(glyphs(&cells), "a\u{4f60}b");
    assert_eq!(cells.len(), 5);
    assert!(at(&cells, 0, 1).wide);
    assert!(!at(&cells, 0, 0).wide);
    assert!(cells.iter().all(|cell| cell.point != Point::new(0, 2)));
}

#[test]
fn attributes_change_the_colours() {
    let (backend, term) = setup(8, 1, "a\x1b[7mb\x1b[0;2mc\x1b[0;1md\x1b[0me");
    let marks = Highlights::of(&Vec::new(), None, 8);
    let cells = paint_cells(&term, backend.last_content(), &marks, &options(0, 8));
    let swapped: Vec<bool> = cells.iter().take(5).map(|cell| cell.swapped).collect();
    assert_eq!(swapped, vec![false, true, false, false, false]);
    let dim: Vec<bool> = cells.iter().take(5).map(|cell| cell.dim).collect();
    assert_eq!(dim, vec![false, false, true, true, false]);
}

#[test]
fn selections_and_links_show() {
    let (mut backend, term) = setup(8, 1, "abcdefgh");
    backend.last_content.selectable_range = Some(SelectionRange {
        start: Point::new(0, 1),
        end: Point::new(0, 2),
        is_block: false,
    });
    backend.last_content.hovered_hyperlink =
        Some(SearchMatch { start: Point::new(0, 4), end: Point::new(0, 5) });
    let marks = Highlights::of(&Vec::new(), None, 8);
    let mut options = options(0, 8);
    options.pointer = Point::new(0, 5);
    let cells = paint_cells(&term, backend.last_content(), &marks, &options);
    let swapped: Vec<bool> = cells.iter().map(|cell| cell.swapped).collect();
    assert_eq!(swapped, vec![false, true, true, false, false, false, false, false]);
    let underlined: Vec<bool> = cells.iter().map(|cell| cell.underlined).collect();
    assert_eq!(underlined, vec![false, false, false, false, true, true, false, false]);
    options.pointer = Point::new(0, 6);
    let cells = paint_cells(&term, backend.last_content(), &marks, &options);
    assert!(cells.iter().all(|cell| !cell.underlined));
}

#[test]
fn the_cursor_can_be_hidden_and_swaps_in_application_mode() {
    let (backend, term) = setup(8, 1, "\x1b[?1hab\x1b[1;1H");
    let marks = Highlights::of(&Vec::new(), None, 8);
    let mut options = options(0, 8);
    let cells = paint_cells(&term, backend.last_content(), &marks, &options);
    assert!(cells[0].cursor && cells[0].glyph_swapped);
    assert!(!cells[1].cursor && !cells[1].glyph_swapped);
    options.hide_cursor = true;
    let cells = paint_cells(&term, backend.last_content(), &marks, &options);
    assert!(!cells[0].cursor && !cells[0].glyph_swapped);
}

#[test]
fn highlights_have_their_colours() {
    assert_eq!(
        highlight_background(HighlightKind::Current),
        Some(Rgb { r: 255, g: 150, b: 50 })
    );
    assert_eq!(
        highlight_background(HighlightKind::Match),
        Some(Rgb { r: 180, g: 160, b: 60 })
    );
    assert_eq!(highlight_background(HighlightKind::Plain), None);
    assert_eq!(border_colour(), Rgb { r: 255, g: 180, b: 50 });
}

#[test]
fn the_border_goes_round_each_line() {
    let band = ColumnBand { min: 2, max: 12 };
    let one = SearchMatch { start: Point::new(-1, 4), end: Point::new(-1, 6) };
    assert_eq!(border_rows(&one, 10, 3, &band), vec![BorderRow { row: 2, from: 2, to: 5 }]);
    let many = SearchMatch { start: Point::new(0, 8), end: Point::new(2, 1) };
    assert_eq!(
        border_rows(&many, 10, 0, &band),
        vec![
            BorderRow { row: 0, from: 6, to: 8 },
            BorderRow { row: 1, from: -2, to: 8 },
            BorderRow { row: 2, from: -2, to: 0 },
        ]
    );
}

#[test]
fn the_grid_has_the_columns_that_were_set() {
    assert_eq!(TerminalView::new().grid_columns(80), 80);
    let view = TerminalView::new().set_grid_columns(Some(200));
    assert_eq!(view.grid_columns(80), 200);
    assert_eq!(view.grid_columns(214), 214);
    assert_eq!(TerminalView::new().set_grid_columns(Some(70_000)).grid_columns(80), 65_535);
}

#[test]
fn bands_follow_the_offset() {
    assert_eq!(ColumnBand::new(5, 10), ColumnBand { min: 5, max: 15 });
    assert!(ColumnBand::can_show(5, 10));
    assert!(ColumnBand::can_show(i32::MAX as usize, 0));
    assert!(!ColumnBand::can_show(i32::MAX as usize, 1));
    let band = ColumnBand { min: 5, max: 15 };
    assert_eq!((band.scan_from(), band.scan_to()), (5, 15));
    let touching = |start: (i32, usize), end: (i32, usize)| {
        band.is_touched_by(&SearchMatch {
            start: Point::new(start.0, start.1),
            end: Point::new(end.0, end.1),
        })
    };
    assert!(touching((0, 5), (0, 6)));
    assert!(touching((0, 1), (0, 5)));
    assert!(touching((0, 15), (0, 20)));
    assert!(!touching((0, 1), (0, 4)));
    assert!(!touching((0, 16), (0, 20)));
    assert!(touching((0, 30), (1, 0)));
}

#[test]
fn a_frame_highlights_the_current_match() {
    let (backend, term) = numbered();
    let mut view = TerminalView::new()
        .set_search(Some(SearchPattern::new("row").unwrap()))
        .set_current_match(Some(Point::new(1, 0)));
    let mut state = TerminalViewState::default();
    assert!(view.can_render(&state, backend.last_content(), &term, 12));
    let frame = view.render(&mut state, backend.last_content(), &term, 12);
    assert_eq!(at(&frame.cells, 1, 2).highlight, HighlightKind::Current);
    assert_eq!(at(&frame.cells, 0, 2).highlight, HighlightKind::Match);
    assert_eq!(at(&frame.cells, 1, 3).highlight, HighlightKind::Plain);
    assert_eq!(frame.border, vec![BorderRow { row: 1, from: 0, to: 3 }]);
    assert!(frame.highlights.any());
    assert_eq!(state.tracked_current, Some(Point::new(1, 0)));
    assert_eq!(state.last_caller_current, Some(Point::new(1, 0)));
}

#[test]
fn the_current_match_is_tracked_across_frames() {
    let (mut backend, mut term) = setup(20, 6, "x one\r\nx two\r\n needle here\r\nz");
    let mut view = TerminalView::new()
        .set_search(Some(SearchPattern::new("needle").unwrap()))
        .set_current_match(Some(Point::new(2, 1)));
    let mut state = TerminalViewState::default();
    let frame = view.render(&mut state, backend.last_content(), &term, 20);
    assert_eq!(frame.highlights.current.unwrap().start, Point::new(2, 1));
    let mut processor: Processor = Processor::new();
    processor.advance(&mut term, b"\r\na\r\nb\r\nc");
    backend.mark_dirty();
    backend.sync_with_term(&mut term);
    let frame = view.render(&mut state, backend.last_content(), &term, 20);
    assert_eq!(frame.highlights.current.unwrap().start, Point::new(1, 1));
    assert_eq!(state.tracked_current, Some(Point::new(1, 1)));
    let mut view = view.set_current_match(Some(Point::new(1, 9)));
    let frame = view.render(&mut state, backend.last_content(), &term, 20);
    assert!(frame.highlights.current.is_none());
    assert!(frame.border.is_empty());
    assert_eq!(state.tracked_current, Some(Point::new(1, 9)));
}

#[test]
fn a_frame_of_no_columns_is_worked_out() {
    let text = format!("{}\u{4e16}foo", "x".repeat(79));
    let (backend, term) = setup(80, 3, &text);
    let mut view = TerminalView::new().set_search(Some(SearchPattern::new("foo").unwrap()));
    let mut state = TerminalViewState::default();
    assert!(view.can_render(&state, backend.last_content(), &term, 0));
    let frame = view.render(&mut state, backend.last_content(), &term, 0);
    assert!(frame.cells.is_empty());
    assert!(!frame.highlights.any());
    let frame = view.render(&mut state, backend.last_content(), &term, 80);
    assert_eq!(at(&frame.cells, 1, 2).highlight, HighlightKind::Match);
    assert_eq!(at(&frame.cells, 1, 0).highlight, HighlightKind::Plain);
}

#[test]
fn a_frame_without_a_search_highlights_nothing() {
    let (backend, term) = numbered();
    let mut view = TerminalView::new().set_hide_cursor(true);
    let mut state = TerminalViewState::default();
    let frame = view.render(&mut state, backend.last_content(), &term, 5);
    assert!(!frame.highlights.any());
    assert_eq!(frame.current, None);
    assert_eq!(glyphs(&frame.cells), "row1row1row1row1");
    assert!(frame.cells.iter().all(|cell| !cell.cursor));
}

#[test]
fn a_panned_frame_searches_the_band() {
    let (backend, term) = setup(30, 1, "ab......ab......ab");
    let mut view = TerminalView::new()
        .set_search(Some(SearchPattern::new("ab").unwrap()))
        .set_horizontal_offset_cols(5);
    let mut state = TerminalViewState::default();
    let frame = view.render(&mut state, backend.last_content(), &term, 6);
    assert_eq!(at(&frame.cells, 0, 8).highlight, HighlightKind::Match);
    assert_eq!(at(&frame.cells, 0, 8).shift, 3);
    assert_eq!(glyphs(&frame.cells), "...ab.");
    let far = TerminalView::new()
        .set_search(Some(SearchPattern::new("ab").unwrap()))
        .set_horizontal_offset_cols(30);
    assert!(!far.can_render(&state, backend.last_content(), &term, 6));
}

#[test]
fn frames_are_reused_while_nothing_changes() {
    let view = TerminalView::new().set_search_key(3);
    let mut state = TerminalViewState::default();
    let plan = |view: &TerminalView, state: &TerminalViewState, width, dirty, nanos| {
        view.plan_frame(state, &rect(width), &rect(50), dirty, false, nanos)
    };
    assert_eq!(plan(&view, &state, 100, false, None), FramePlan::Rebuild);
    view.finish_frame(&mut state, &rect(100), &rect(50), true);
    assert!(state.had_highlights && state.has_shapes);
    assert_eq!(plan(&view, &state, 100, false, None), FramePlan::Reuse);
    assert_eq!(plan(&view, &state, 101, false, None), FramePlan::Rebuild);
    assert_eq!(plan(&view, &state, 100, true, Some(1)), FramePlan::ReuseForNow);
    assert_eq!(
        plan(&view, &state, 100, true, Some(RENDER_THROTTLE_NANOS)),
        FramePlan::Rebuild
    );
    assert_eq!(plan(&view, &state, 100, true, None), FramePlan::Rebuild);
    let other_search = TerminalView::new().set_search_key(4);
    assert_eq!(plan(&other_search, &state, 100, false, None), FramePlan::Rebuild);
    let panned = TerminalView::new().set_search_key(3).set_horizontal_offset_cols(1);
    assert_eq!(plan(&panned, &state, 100, false, Some(1)), FramePlan::Rebuild);
    let navigated =
        TerminalView::new().set_search_key(3).set_current_match(Some(Point::new(0, 0)));
    assert_eq!(plan(&navigated, &state, 100, false, None), FramePlan::Rebuild);
    state.scrollbar_dragging = true;
    assert_eq!(plan(&view, &state, 100, false, None), FramePlan::Rebuild);
}

#[test]
fn the_pointer_on_the_scrollbar_makes_a_new_frame() {
    let view = TerminalView::new();
    let mut state = TerminalViewState::default();
    view.finish_frame(&mut state, &rect(100), &rect(50), false);
    assert_eq!(
        view.plan_frame(&state, &rect(100), &rect(50), false, true, Some(1)),
        FramePlan::Rebuild
    );
}

#[test]
fn builders_set_one_thing_each() {
    let view = TerminalView::new()
        .set_focus(true)
        .set_read_only(true)
        .set_hide_cursor(true)
        .set_grid_columns(Some(2000))
        .set_horizontal_offset_cols(7)
        .set_search_key(9)
        .set_current_match(Some(Point::new(1, 2)))
        .set_search(None);
    assert!(view.has_focus && view.read_only && view.hide_cursor);
    assert_eq!(view.grid_columns_override, Some(2000));
    assert_eq!(view.horizontal_offset_cols, 7);
    assert_eq!(view.search_key, 9);
    assert_eq!(view.current_match_start, Some(Point::new(1, 2)));
    assert!(view.search_regex.is_none());
}

fn pointer(on_thumb: bool, above_thumb: bool, target: i32) -> Option<TrackPointer> {
    Some(TrackPointer { on_track: true, on_thumb, above_thumb, target })
}

#[test]
fn clicking_beside_the_thumb_scrolls_a_page() {
    let (mut backend, mut term) = numbered();
    let mut state = TerminalViewState::default();
    let click = |above| ScrollbarInput {
        pointer: pointer(false, above, 9),
        primary_down: true,
        primary_pressed: true,
    };
    state.process_scrollbar(&mut backend, &mut term, &click(true));
    assert_eq!(term.grid().display_offset(), 3);
    assert!(backend.is_dirty());
    assert!(!state.scrollbar_dragging);
    state.process_scrollbar(&mut backend, &mut term, &click(false));
    assert_eq!(term.grid().display_offset(), 0);
}

#[test]
fn dragging_the_thumb_scrolls_to_the_target() {
    let (mut backend, mut term) = numbered();
    let mut state = TerminalViewState::default();
    let drag = |pressed, target| ScrollbarInput {
        pointer: pointer(true, false, target),
        primary_down: true,
        primary_pressed: pressed,
    };
    state.process_scrollbar(&mut backend, &mut term, &drag(true, 5));
    assert!(state.scrollbar_dragging);
    assert_eq!(term.grid().display_offset(), 5);
    state.process_scrollbar(&mut backend, &mut term, &drag(false, 99));
    assert_eq!(term.grid().display_offset(), 16);
    state.process_scrollbar(&mut backend, &mut term, &drag(false, -4));
    assert_eq!(term.grid().display_offset(), 0);
    let release = ScrollbarInput { primary_down: false, ..drag(false, 7) };
    state.process_scrollbar(&mut backend, &mut term, &release);
    assert!(!state.scrollbar_dragging);
    assert_eq!(term.grid().display_offset(), 0);
}

#[test]
fn without_a_scrollback_there_is_no_scrollbar() {
    let (mut backend, mut term) = setup(10, 4, "x");
    let mut state =
        TerminalViewState { scrollbar_dragging: true, ..TerminalViewState::default() };
    let input = ScrollbarInput {
        pointer: pointer(true, false, 3),
        primary_down: true,
        primary_pressed: true,
    };
    state.process_scrollbar(&mut backend, &mut term, &input);
    assert!(!state.scrollbar_dragging);
    assert!(!backend.is_dirty());
    assert_eq!(term.grid().display_offset(), 0);
}

fn handle(
    view: &TerminalView,
    state: &mut TerminalViewState,
    event: InputEvent,
    around: &Surroundings,
) -> usize {
    let (backend, term) = setup(20, 4, "text");
    assert!(view.can_handle(state, &backend, &term, &event, around));
    let actions = view.process_input(state, &backend, &term, unbound, event, around);
    actions.iter().filter(|action| !matches!(action, InputAction::Ignore)).count()
}

fn typed() -> InputEvent {
    InputEvent::Keyboard(KeyboardEvent::Text("q".to_string()))
}

fn pressed(pressed: bool, over_scrollbar: bool) -> InputEvent {
    InputEvent::Button {
        button: PointerButton::Primary,
        pressed,
        modifiers: none(),
        x: 1,
        y: 1,
        over_scrollbar,
    }
}

fn moved(over_scrollbar: bool) -> InputEvent {
    InputEvent::Moved { x: 3, y: 1, overshoot: Overshoot::Inside, over_scrollbar }
}

#[test]
fn keys_need_the_focus_and_a_writable_view() {
    let view = TerminalView::new();
    let mut state = TerminalViewState::default();
    assert_eq!(handle(&view, &mut state, typed(), &around(true, false)), 1);
    assert_eq!(handle(&view, &mut state, typed(), &around(false, true)), 0);
    let read_only = TerminalView::new().set_read_only(true);
    assert_eq!(handle(&read_only, &mut state, typed(), &around(true, true)), 0);
}

#[test]
fn the_wheel_needs_the_pointer() {
    let view = TerminalView::new().set_read_only(true);
    let mut state = TerminalViewState::default();
    let wheel = || InputEvent::Wheel { unit: WheelUnit::Line, lines: 1, moved: true };
    assert_eq!(handle(&view, &mut state, wheel(), &around(false, true)), 1);
    assert_eq!(handle(&view, &mut state, wheel(), &around(true, false)), 0);
}

#[test]
fn buttons_need_the_pointer_or_a_drag_to_end() {
    let view = TerminalView::new();
    let mut state = TerminalViewState::default();
    assert_eq!(handle(&view, &mut state, pressed(true, false), &around(true, false)), 0);
    assert!(!state.is_dragged);
    assert_eq!(handle(&view, &mut state, pressed(true, true), &around(true, true)), 0);
    assert!(!state.is_dragged);
    assert_eq!(handle(&view, &mut state, pressed(true, false), &around(true, true)), 1);
    assert!(state.is_dragged);
    assert_eq!(handle(&view, &mut state, pressed(false, false), &around(false, false)), 0);
    assert!(state.is_dragged);
    assert_eq!(handle(&view, &mut state, pressed(false, false), &around(true, false)), 0);
    assert!(!state.is_dragged);
}

#[test]
fn moves_are_followed_over_the_widget_and_while_dragging() {
    let view = TerminalView::new();
    let mut state = TerminalViewState::default();
    assert_eq!(handle(&view, &mut state, moved(false), &around(true, false)), 0);
    assert_eq!(state.current_mouse_position_on_grid, Point::new(0, 0));
    assert_eq!(handle(&view, &mut state, moved(true), &around(true, true)), 0);
    assert_eq!(state.current_mouse_position_on_grid, Point::new(0, 0));
    assert_eq!(handle(&view, &mut state, moved(false), &around(true, true)), 0);
    assert_eq!(state.current_mouse_position_on_grid, Point::new(1, 3));
    state.is_dragged = true;
    assert_eq!(handle(&view, &mut state, moved(false), &around(true, false)), 1);
    state.scrollbar_dragging = true;
    assert_eq!(handle(&view, &mut state, moved(false), &around(true, true)), 0);
    assert_eq!(handle(&view, &mut state, InputEvent::Other, &around(true, true)), 0);
}
