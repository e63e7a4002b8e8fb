use alacritty_terminal::grid::Dimensions;
use alacritty_terminal::term::test::TermSize;
use alacritty_terminal::term::{Config, Term};
use alacritty_terminal::term::TermMode;
use egui_term::backend::{
    subscription_step, url_regex, DirectWriter, Effect, PtySignal, PtyStep, RenderableContent,
    TerminalBackend, WriteMark,
};
use egui_term::geometry::{Point, SearchMatch, SelectionRange};
use egui_term::input::{BackendCommand, Fitting, LinkAction, Modifiers, MouseButton};
use egui_term::mode::{TerminalMode, SGR_MOUSE};
use egui_term::search::SearchPattern;
use egui_term::sequence::Sequence;
use egui_term::size::{Size, TerminalSize, WindowSize};
use egui_term::terminal::{EventProxy, SelectionType};
use std::sync::atomic::AtomicBool;
use std::sync::mpsc;
use std::sync::Arc;

struct Bench {
    backend: TerminalBackend,
    term: Term<EventProxy>,
    writer: DirectWriter,
}

impl Bench {
    fn new(columns: usize, lines: usize, text: &str) -> Bench {
        let (mut backend, mut term, mut writer) =
            TerminalBackend::new_direct(7, proxy(), url_regex().unwrap());
        term.resize(TermSize::new(columns, lines));
        assert!(writer.can_write(&term, text.as_bytes()));
        writer.write(&mut backend, &mut term, text.as_bytes());
        backend.sync_with_term(&mut term);
        backend.dirty = true;
        backend.content_revision = 0;
        Bench { backend, term, writer }
    }

    fn numbered() -> Bench {
        let lines: Vec<String> = (0..20).map(|i| format!("row {}", i)).collect();
        Bench::new(12, 4, &lines.join("\r\n"))
    }

    fn run(&mut self, cmd: BackendCommand) -> Effect {
        assert!(self.backend.can_process(&self.term, &cmd));
        self.backend.process_command(&mut self.term, cmd)
    }

    fn offset(&self) -> usize {
        self.term.grid().display_offset()
    }

    fn feed(&mut self, text: &str) {
        assert!(self.writer.can_write(&self.term, text.as_bytes()));
        self.writer.write(&mut self.backend, &mut self.term, text.as_bytes());
    }
}

fn none() -> Modifiers {
    Modifiers { alt: false, ctrl: false, shift: false, mac_cmd: false, command: false }
}

fn fitting(width: u32, cell: (u16, u16), grid: (u16, u16)) -> Fitting {
    Fitting {
        layout_size: Size { width, height: 480 },
        cell_width: cell.0,
        cell_height: cell.1,
        num_cols: grid.0,
        num_lines: grid.1,
    }
}

fn notified(effect: Effect) -> Vec<u8> {
    match effect {
        Effect::Notify(bytes) => bytes,
        other => panic!("nothing sent: {:?}", other),
    }
}

fn nothing(effect: Effect) -> bool {
    matches!(effect, Effect::Nothing)
}

#[test]
fn a_new_backend_starts_with_the_terminal() {
    let bench = Bench::new(12, 4, "ab");
    let backend = &bench.backend;
    assert_eq!(backend.id(), 7);
    assert_eq!(backend.pty_id(), 0);
    assert!(backend.is_dirty());
    assert_eq!(backend.content_revision(), 0);
    assert_eq!(backend.sticky_scroll, Some(false));
    assert_eq!(backend.size, TerminalSize::default());
    let content = backend.last_content();
    assert_eq!(content.cursor_point, Point::new(0, 2));
    assert_eq!(content.display_offset, 0);
    assert_eq!(content.hovered_hyperlink, None);
    assert_eq!(content.selectable_range, None);
}

#[test]
fn the_three_backends_differ_in_process_and_stickiness() {
    let (with_process, term) = TerminalBackend::new(1, 42, proxy(), url_regex().unwrap());
    assert_eq!((with_process.id(), with_process.pty_id()), (1, 42));
    assert_eq!(with_process.sticky_scroll, None);
    fresh(&with_process, &term);
    let (mut streaming, term) = TerminalBackend::new_streaming(2, proxy(), url_regex().unwrap());
    assert_eq!((streaming.id(), streaming.pty_id()), (2, 0));
    streaming.set_sticky_scroll(true);
    assert_eq!(streaming.sticky_scroll, None);
    fresh(&streaming, &term);
    let (mut direct, mut term, mut writer) =
        TerminalBackend::new_direct(3, proxy(), url_regex().unwrap());
    assert_eq!((direct.id(), direct.pty_id()), (3, 0));
    assert_eq!(direct.sticky_scroll, Some(false));
    direct.set_sticky_scroll(true);
    assert_eq!(direct.sticky_scroll, Some(true));
    fresh(&direct, &term);
    writer.write(&mut direct, &mut term, b"hi");
    assert_eq!(direct.full_text(&term), "hi\n");
    assert_eq!(direct.content_revision(), 1);
}

fn proxy() -> EventProxy {
    let (sender, _receiver) = mpsc::channel();
    EventProxy::new(sender, Arc::new(AtomicBool::new(false)))
}

fn fresh(backend: &TerminalBackend, term: &Term<EventProxy>) {
    assert_eq!((term.columns(), term.screen_lines(), term.total_lines()), (80, 50, 50));
    assert_eq!(term.grid().display_offset(), 0);
    assert!(term.selection.is_none());
    assert_eq!(*term.mode(), TermMode::default());
    let content = backend.last_content();
    assert_eq!(content.cursor_point, Point::new(0, 0));
    assert_eq!(content.cursor.c, ' ');
    assert_eq!(content.terminal_mode.bits, TermMode::default().bits());
    assert_eq!(backend.full_text(term), "\n");
}

#[test]
fn default_content_is_blank() {
    let content = RenderableContent::default();
    assert_eq!(content.display_offset, 0);
    assert_eq!(content.cursor_point, Point::new(0, 0));
    assert_eq!(content.terminal_mode, TerminalMode::empty());
    assert_eq!(content.terminal_size, TerminalSize::default());
    assert_eq!(content.cursor.c, ' ');
}

#[test]
fn writing_sends_and_returns_to_the_screen() {
    let mut bench = Bench::numbered();
    assert!(nothing(bench.run(BackendCommand::Scroll(5))));
    assert_eq!(bench.offset(), 5);
    assert!(!bench.backend.is_at_bottom(&bench.term));
    assert_eq!(bench.backend.content_revision(), 1);
    assert_eq!(notified(bench.run(BackendCommand::Write(b"ls\r".to_vec()))), b"ls\r".to_vec());
    assert_eq!(bench.offset(), 0);
    assert!(bench.backend.is_at_bottom(&bench.term));
    assert_eq!(bench.backend.content_revision(), 2);
}

#[test]
fn the_revision_starts_over() {
    let mut bench = Bench::new(12, 4, "");
    bench.backend.content_revision = u64::MAX;
    bench.run(BackendCommand::Write(Vec::new()));
    assert_eq!(bench.backend.content_revision(), 0);
}

#[test]
fn scrolling_stops_at_both_ends() {
    let mut bench = Bench::numbered();
    bench.run(BackendCommand::Scroll(100));
    assert_eq!(bench.offset(), 16);
    bench.run(BackendCommand::Scroll(-3));
    assert_eq!(bench.offset(), 13);
    bench.run(BackendCommand::Scroll(-100));
    assert_eq!(bench.offset(), 0);
    bench.backend.dirty = false;
    bench.backend.scroll_to_top(&mut bench.term);
    assert_eq!(bench.offset(), 16);
    assert!(bench.backend.is_dirty());
}

#[test]
fn on_the_alternate_screen_the_wheel_sends_cursor_keys() {
    let mut bench = Bench::new(12, 4, "\x1b[?1049h\x1b[?1007h");
    assert_eq!(notified(bench.run(BackendCommand::Scroll(2))), b"\x1bOA\x1bOA".to_vec());
    assert_eq!(notified(bench.run(BackendCommand::Scroll(-1))), b"\x1bOB".to_vec());
    assert!(nothing(bench.run(BackendCommand::Scroll(0))));
    assert!(!bench.backend.can_process(&bench.term, &BackendCommand::Scroll(i32::MIN)));
}

#[test]
fn fitting_the_terminal_reshapes_it_once() {
    let mut bench = Bench::new(80, 50, "text");
    bench.backend.dirty = false;
    let wanted = fitting(640, (8, 16), (80, 30));
    match bench.run(BackendCommand::Resize(wanted)) {
        Effect::Resized(size) => assert_eq!(
            size,
            WindowSize { num_lines: 30, num_cols: 80, cell_width: 8, cell_height: 16 }
        ),
        other => panic!("not resized: {:?}", other),
    }
    assert!(bench.backend.is_dirty());
    assert_eq!((bench.term.columns(), bench.term.screen_lines()), (80, 30));
    bench.backend.dirty = false;
    assert!(nothing(bench.run(BackendCommand::Resize(wanted))));
    assert!(!bench.backend.is_dirty());
}

#[test]
fn a_fitting_without_a_cell_is_ignored() {
    let mut bench = Bench::new(80, 50, "");
    let before = bench.backend.size;
    assert!(nothing(bench.run(BackendCommand::Resize(fitting(9, (8, 16), (0, 30))))));
    assert!(nothing(bench.run(BackendCommand::Resize(fitting(9, (8, 16), (80, 0))))));
    assert_eq!(bench.backend.size, before);
}

#[test]
fn a_fitting_with_the_same_grid_only_notes_the_pixels() {
    let mut bench = Bench::new(80, 50, "");
    bench.backend.dirty = false;
    assert!(nothing(bench.run(BackendCommand::Resize(fitting(641, (8, 16), (80, 50))))));
    assert!(!bench.backend.is_dirty());
    assert_eq!(bench.backend.size.cell_width, 8);
    assert_eq!(bench.backend.size.layout_size, Size { width: 641, height: 480 });
}

#[test]
fn one_column_is_too_few() {
    let bench = Bench::new(80, 50, "");
    let narrow = BackendCommand::Resize(fitting(8, (8, 16), (1, 50)));
    assert!(!bench.backend.can_process(&bench.term, &narrow));
}

#[test]
fn positions_fall_on_cells() {
    let size = TerminalSize {
        cell_width: 8,
        cell_height: 16,
        num_cols: 10,
        num_lines: 5,
        ..TerminalSize::default()
    };
    let at = |x, y, offset| TerminalBackend::selection_point(x, y, &size, offset);
    assert_eq!(at(0, 0, 0), Point::new(0, 0));
    assert_eq!(at(7, 15, 0), Point::new(0, 0));
    assert_eq!(at(8, 16, 0), Point::new(1, 1));
    assert_eq!(at(79, 79, 3), Point::new(1, 9));
    assert_eq!(at(500, 500, 3), Point::new(1, 9));
}

#[test]
fn selecting_a_word_and_lines() {
    let mut bench = Bench::new(80, 50, "alpha beta\r\ngamma");
    bench.run(BackendCommand::SelectStart(SelectionType::Semantic, 7, 0));
    assert!(bench.backend.sync_with_term(&mut bench.term));
    assert!(bench.backend.can_copy(&bench.term));
    assert_eq!(bench.backend.selectable_content(&bench.term), "beta");
    bench.run(BackendCommand::SelectStart(SelectionType::Lines, 7, 0));
    bench.backend.sync_with_term(&mut bench.term);
    assert_eq!(bench.backend.selectable_content(&bench.term), "alpha beta");
}

#[test]
fn dragging_a_selection_goes_by_halves_of_cells() {
    let mut bench = Bench::new(80, 50, "alpha beta\r\ngamma");
    bench.run(BackendCommand::Resize(fitting(800, (10, 20), (80, 50))));
    bench.run(BackendCommand::SelectStart(SelectionType::Simple, 12, 5));
    bench.run(BackendCommand::SelectUpdate(46, 5));
    bench.backend.sync_with_term(&mut bench.term);
    assert_eq!(
        bench.backend.last_content().selectable_range,
        Some(SelectionRange {
            start: Point::new(0, 1),
            end: Point::new(0, 4),
            is_block: false
        })
    );
    assert_eq!(bench.backend.selectable_content(&bench.term), "lpha");
    bench.run(BackendCommand::SelectUpdate(45, 5));
    bench.backend.sync_with_term(&mut bench.term);
    assert_eq!(bench.backend.selectable_content(&bench.term), "lph");
}

#[test]
fn a_selection_can_be_updated_only_once_begun() {
    let mut bench = Bench::new(80, 50, "alpha");
    assert!(nothing(bench.run(BackendCommand::SelectUpdate(3, 0))));
    bench.backend.sync_with_term(&mut bench.term);
    assert_eq!(bench.backend.last_content().selectable_range, None);
    assert_eq!(bench.backend.selectable_content(&bench.term), "");
}

#[test]
fn syncing_takes_over_what_is_new_once() {
    let mut bench = Bench::numbered();
    bench.run(BackendCommand::Scroll(3));
    assert!(bench.backend.sync_with_term(&mut bench.term));
    assert!(!bench.backend.is_dirty());
    assert_eq!(bench.backend.last_content().display_offset, 3);
    assert_eq!(bench.backend.last_content().cursor_point, Point::new(3, 6));
    assert!(!bench.backend.sync_with_term(&mut bench.term));
    bench.backend.mark_dirty();
    assert!(bench.backend.sync_with_term(&mut bench.term));
}

#[test]
fn hovering_and_opening_a_link() {
    let mut bench = Bench::new(80, 50, "go to http://a.b/c now");
    assert!(nothing(bench.run(BackendCommand::ProcessLink(LinkAction::Open, Point::new(0, 8)))));
    bench.run(BackendCommand::ProcessLink(LinkAction::Hover, Point::new(0, 8)));
    assert_eq!(
        bench.backend.last_content().hovered_hyperlink,
        Some(SearchMatch { start: Point::new(0, 6), end: Point::new(0, 17) })
    );
    match bench.run(BackendCommand::ProcessLink(LinkAction::Open, Point::new(0, 0))) {
        Effect::OpenLink(url) => assert_eq!(url, "http://a.b/c"),
        other => panic!("not opened: {:?}", other),
    }
    bench.run(BackendCommand::ProcessLink(LinkAction::Clear, Point::new(0, 8)));
    assert_eq!(bench.backend.last_content().hovered_hyperlink, None);
    bench.run(BackendCommand::ProcessLink(LinkAction::Hover, Point::new(0, 2)));
    assert_eq!(bench.backend.last_content().hovered_hyperlink, None);
    assert_eq!(bench.backend.open_link(&bench.term), None);
}

#[test]
fn a_link_outside_the_grid_cannot_be_opened() {
    let mut bench = Bench::new(12, 4, "");
    bench.backend.last_content.hovered_hyperlink =
        Some(SearchMatch { start: Point::new(4, 0), end: Point::new(4, 3) });
    let open = BackendCommand::ProcessLink(LinkAction::Open, Point::new(0, 0));
    assert!(!bench.backend.can_process(&bench.term, &open));
}

#[test]
fn mouse_events_are_reported_in_the_synced_mode() {
    let mut bench = Bench::new(80, 50, "");
    let report =
        BackendCommand::MouseReport(MouseButton::LeftButton, none(), Point::new(0, 300), true);
    assert!(nothing(bench.run(report.clone())));
    bench.feed("\x1b[?1006h");
    assert!(nothing(bench.run(report.clone())));
    bench.backend.sync_with_term(&mut bench.term);
    assert!(bench.backend.last_content().terminal_mode.contains(SGR_MOUSE));
    assert_eq!(notified(bench.run(report)), b"\x1b[<0;301;1M".to_vec());
}

#[test]
fn every_command_but_a_fitting_asks_for_painting() {
    let mut bench = Bench::new(80, 50, "x");
    for cmd in [
        BackendCommand::Write(vec![1]),
        BackendCommand::Scroll(0),
        BackendCommand::SelectStart(SelectionType::Simple, 0, 0),
        BackendCommand::SelectUpdate(0, 0),
        BackendCommand::ProcessLink(LinkAction::Hover, Point::new(0, 0)),
        BackendCommand::MouseReport(MouseButton::Other, none(), Point::new(0, 0), true),
    ] {
        let counts = matches!(cmd, BackendCommand::Write(_));
        let revision = bench.backend.content_revision();
        bench.backend.dirty = false;
        bench.run(cmd);
        assert!(bench.backend.is_dirty());
        assert_eq!(bench.backend.content_revision() - revision, counts as u64);
    }
}

#[test]
fn scrolling_to_a_point_shows_it() {
    let mut bench = Bench::numbered();
    bench.backend.dirty = false;
    bench.backend.scroll_to_point(&mut bench.term, Point::new(2, 0));
    assert_eq!(bench.offset(), 0);
    assert!(!bench.backend.is_dirty());
    bench.backend.scroll_to_point(&mut bench.term, Point::new(-9, 0));
    assert_eq!(bench.offset(), 9);
    assert!(bench.backend.is_dirty());
    bench.backend.scroll_to_point(&mut bench.term, Point::new(-6, 0));
    assert_eq!(bench.offset(), 9);
    bench.backend.scroll_to_point(&mut bench.term, Point::new(-2, 0));
    assert_eq!(bench.offset(), 5);
    bench.backend.scroll_to_point(&mut bench.term, Point::new(-500, 0));
    assert_eq!(bench.offset(), 16);
    bench.backend.scroll_to_point(&mut bench.term, Point::new(500, 0));
    assert_eq!(bench.offset(), 0);
    assert!(bench.backend.can_scroll_to(&bench.term, Point::new(-500, 0)));
    assert!(!bench.backend.can_scroll_to(&bench.term, Point::new(i32::MIN, 0)));
}

#[test]
fn the_bounds_describe_the_grid() {
    let mut bench = Bench::numbered();
    bench.run(BackendCommand::Scroll(5));
    let bounds = bench.backend.grid_bounds(&bench.term);
    assert_eq!(bounds.display_offset, 5);
    assert_eq!(bounds.screen_lines, 4);
    assert_eq!(bounds.columns, 12);
    assert_eq!(bounds.total_lines, 20);
    assert_eq!(bounds.bottommost_line, 3);
}

#[test]
fn searches_go_through_the_backend() {
    let mut bench = Bench::numbered();
    let regex = SearchPattern::new("row 1").unwrap();
    let backend = &bench.backend;
    assert_eq!(backend.search_all(&bench.term, &regex).len(), 11);
    assert_eq!(backend.search_visible(&bench.term, &regex).len(), 4);
    let next = backend.next_match_after(&bench.term, &regex, Point::new(-100, 0)).unwrap();
    assert_eq!(next.start, Point::new(-15, 0));
    let prev = backend.prev_match_before(&bench.term, &regex, Point::new(100, 100)).unwrap();
    assert_eq!(prev.start, Point::new(3, 0));
    assert_eq!(backend.full_text(&bench.term).lines().count(), 20);
    bench.run(BackendCommand::Scroll(16));
    assert_eq!(bench.backend.search_visible(&bench.term, &regex).len(), 1);
}

#[test]
fn sticky_scrolling_keeps_the_lines_in_view() {
    let mut bench = Bench::numbered();
    bench.backend.set_sticky_scroll(true);
    bench.run(BackendCommand::Scroll(6));
    let regex = SearchPattern::new("row [0-9]+").unwrap();
    let shown = |bench: &Bench, regex: &SearchPattern| -> Vec<String> {
        let all = bench.backend.search_visible(&bench.term, regex);
        all.iter()
            .map(|m| {
                let range =
                    SelectionRange { start: m.start, end: m.end, is_block: false };
                egui_term::text::selection_text(&bench.term, &range)
            })
            .collect()
    };
    let before = shown(&bench, &regex);
    assert_eq!(before, vec!["row 10", "row 11", "row 12", "row 13"]);
    bench.backend.dirty = false;
    bench.feed("\r\nmore\r\nand more\r\nand more");
    assert_eq!(shown(&bench, &regex), before);
    assert_eq!(bench.offset(), 9);
    assert!(bench.backend.is_dirty());
    assert_eq!(bench.backend.content_revision(), 2);
}

#[test]
fn movements_of_the_viewport_are_counted() {
    let mut bench = Bench::numbered();
    bench.run(BackendCommand::Scroll(3));
    assert_eq!(bench.backend.content_revision(), 1);
    bench.backend.scroll_to_top(&mut bench.term);
    assert_eq!(bench.backend.content_revision(), 2);
    bench.backend.scroll_to_point(&mut bench.term, Point::new(-16, 0));
    assert_eq!(bench.backend.content_revision(), 2);
    bench.backend.scroll_to_point(&mut bench.term, Point::new(3, 0));
    assert_eq!(bench.backend.content_revision(), 3);
    bench.backend.dirty = false;
    bench.run(BackendCommand::Scroll(0));
    bench.run(BackendCommand::Scroll(-5));
    assert_eq!(bench.backend.content_revision(), 3);
    assert!(bench.backend.is_dirty());
    bench.backend.content_revision = u64::MAX;
    bench.run(BackendCommand::Scroll(1));
    assert_eq!(bench.backend.content_revision(), 0);
    bench.backend.scroll_to_top(&mut bench.term);
    bench.backend.scroll_to_top(&mut bench.term);
    bench.backend.scroll_to_point(&mut bench.term, Point::new(-500, 0));
    assert_eq!(bench.backend.content_revision(), 1);
    let mut alternate = Bench::new(12, 4, "\x1b[?1049h");
    assert_eq!(notified(alternate.run(BackendCommand::Scroll(1))), b"\x1bOA".to_vec());
    assert_eq!(alternate.backend.content_revision(), 0);
}

#[test]
fn two_writes_make_one() {
    let text = "ab\u{4e16}\x1b[1;31mcd\r\n\x1b[2;3Hxy\x1b[?2026h12\x1b[?2026l\r\nend".as_bytes();
    let mut at_once = Bench::new(6, 3, "");
    at_once.writer.write(&mut at_once.backend, &mut at_once.term, text);
    let wanted = at_once.backend.full_text(&at_once.term);
    assert!(wanted.contains("12"));
    for cut in 0..=text.len() {
        let mut pieces = Bench::new(6, 3, "");
        pieces.writer.write(&mut pieces.backend, &mut pieces.term, &text[..cut]);
        pieces.writer.write(&mut pieces.backend, &mut pieces.term, &text[cut..]);
        assert_eq!(pieces.backend.full_text(&pieces.term), wanted);
        assert_eq!(pieces.term.grid().cursor.point, at_once.term.grid().cursor.point);
        assert_eq!(pieces.backend.content_revision(), 2);
    }
}

#[test]
fn two_writes_of_text_make_one() {
    let tokens = [
        "a", "z ", "\u{4e16}", "\u{e9}", "\u{85}", "\u{1f600}", "\r\n", "\t", "\x08", "\x1b", "[",
        "]", "?", "2;3H", "1;31m", "2J", "K", "3@", "2P", "\x1b[2r", "\x1bM", "\x1b7", "\x1b8", "0;title",
        "\x07", "\x1bP", "\x1b\\", "\x1b[4h", "\x1bc", "\x1b[?25l", "\x18", "\x1b[?25h", "\x1b[?6h",
        "\x1b[?1049h", "\x1b[?1049l", "\x1b[?20", "04h", "\x1b[?7;25h", "\x1b[?2026l",
    ];
    let blank = || Term::new(Config::default(), &TermSize::new(6, 3), proxy());
    let mut bench = Bench::new(6, 3, "");
    let mut state: u64 = 17;
    for _ in 0..300 {
        let mut text = String::new();
        for _ in 0..20 {
            state = state.wrapping_mul(6364136223846793005).wrapping_add(1442695040888963407);
            text.push_str(tokens[(state >> 33) as usize % tokens.len()]);
        }
        let mut whole = blank();
        DirectWriter::new().write(&mut bench.backend, &mut whole, text.as_bytes());
        for cut in 0..=text.len() {
            if !text.is_char_boundary(cut) {
                continue;
            }
            let (a, b) = text.as_bytes().split_at(cut);
            let mut pieces = blank();
            let mut writer = DirectWriter::new();
            writer.write(&mut bench.backend, &mut pieces, a);
            writer.write(&mut bench.backend, &mut pieces, b);
            assert_eq!(bench.backend.full_text(&pieces), bench.backend.full_text(&whole));
            assert_eq!(pieces.grid().cursor.point, whole.grid().cursor.point);
            assert_eq!(pieces.mode(), whole.mode());
        }
    }
}

#[test]
fn any_bytes_can_be_written_and_any_grid_laid_out() {
    let alphabet = b"\x1b\x1b\x1b[[[[?;1234567890hlmHrJKLMPST@XABCDEFGabz \n\n\r\t\x08\x18\x07]\\78c#\
        \xe4\xb8\x96\xe4\xb8\x96\xc3\xff\x9b\xf0\x9f\x98\x80";
    let mut bench = Bench::new(6, 3, "");
    let mut state: u64 = 5;
    let mut next = |below: u64| {
        state = state.wrapping_mul(6364136223846793005).wrapping_add(1442695040888963407);
        (state >> 33) % below
    };
    for _ in 0..300 {
        let size = TermSize::new(2 + next(7) as usize, 1 + next(5) as usize);
        let mut term = Term::new(Config::default(), &size, proxy());
        let mut writer = DirectWriter::new();
        bench.backend.set_sticky_scroll(next(2) == 0);
        bench.backend.size = TerminalSize::default();
        for _ in 0..12 {
            match next(6) {
                0 => {
                    let kind = [
                        SelectionType::Simple,
                        SelectionType::Block,
                        SelectionType::Semantic,
                        SelectionType::Lines,
                    ][next(4) as usize];
                    let start = BackendCommand::SelectStart(
                        kind,
                        next(9) as usize,
                        next(6) as usize,
                    );
                    bench.backend.process_command(&mut term, start);
                },
                1 => {
                    let end = BackendCommand::SelectUpdate(next(9) as usize, next(6) as usize);
                    bench.backend.process_command(&mut term, end);
                },
                2 => {
                    let grid = (2 + next(9) as u16, 1 + next(6) as u16);
                    let cmd = BackendCommand::Resize(fitting(next(1000) as u32, (8, 16), grid));
                    if bench.backend.can_process(&term, &cmd) {
                        bench.backend.process_command(&mut term, cmd);
                    }
                },
                3 => {
                    let cmd = BackendCommand::Scroll(next(9) as i32 - 4);
                    if bench.backend.can_process(&term, &cmd) {
                        bench.backend.process_command(&mut term, cmd);
                    }
                },
                4 => term.toggle_vi_mode(),
                _ => {},
            }
            let text: Vec<u8> = (0..next(60))
                .map(|_| alphabet[next(alphabet.len() as u64) as usize])
                .collect();
            if !writer.can_write(&term, &text) {
                break;
            }
            let before = (term.columns(), term.screen_lines());
            let at_bottom = term.grid().display_offset() == 0;
            let alternate = term.mode().contains(TermMode::ALT_SCREEN);
            let selected = term.selection.is_some();
            writer.write(&mut bench.backend, &mut term, &text);
            assert_eq!((term.columns(), term.screen_lines()), before);
            assert!(!at_bottom || alternate || term.grid().display_offset() == 0);
            assert!(selected || term.selection.is_none());
            if egui_term::terminal::usable(&term) {
                bench.backend.dirty = true;
                assert!(bench.backend.sync_with_term(&mut term));
                assert!(bench.backend.can_copy(&term));
                bench.backend.selectable_content(&term);
                bench.backend.full_text(&term);
            } else {
                assert!(term.grid().display_offset() > term.history_size());
            }
        }
    }
}

#[test]
fn a_terminal_with_a_selection_takes_fewer_bytes() {
    let mut bench = Bench::new(12, 4, "abc");
    assert!(bench.writer.can_write(&bench.term, &vec![0; 0x10_0000]));
    bench.run(BackendCommand::SelectStart(SelectionType::Simple, 1, 0));
    assert!(bench.writer.can_write(&bench.term, &vec![0; 0x1_0000]));
    assert!(!bench.writer.can_write(&bench.term, &vec![0; 0x1_0001]));
    bench.feed("\x1b[?2026h0123456789");
    assert!(bench.writer.can_write(&bench.term, &vec![0; 0x1_0000 - 10]));
    assert!(!bench.writer.can_write(&bench.term, &vec![0; 0x1_0000]));
}

#[test]
fn long_colours_are_not_written() {
    let bench = Bench::new(12, 4, "");
    let takes = |text: &str| bench.writer.can_write(&bench.term, text.as_bytes());
    let zeros = |n: usize| "0".repeat(n);
    assert!(takes(&format!("\x1b]4;1;#{}\x07", zeros(12))));
    assert!(takes(&format!("\x1b]4;1;#{}\x07", zeros(22))));
    assert!(!takes(&format!("\x1b]4;1;#{}\x07", zeros(23))));
    assert!(!takes(&format!("\x1b]4;1;#{}\x07", zeros(51))));
    assert!(!takes(&format!("\x1b]11;#{}{}\x07", zeros(17), "z".repeat(34))));
    assert!(!takes(&format!("\x1b\n]11;#{}\n{}\x07", zeros(10), zeros(13))));
    assert!(takes(&format!("#{}", zeros(64))));
    assert!(takes(&format!("\x1b]0;#channel {}\x07", zeros(64))));
    assert!(takes(&format!("\x1b]0;build #{}\x07", zeros(64))));
    let mut bench = bench;
    bench.feed(&format!("\x1b]4;1;#{}", zeros(20)));
    assert!(bench.writer.can_write(&bench.term, b"00\x07"));
    assert!(!bench.writer.can_write(&bench.term, b"000\x07"));
    assert!(bench.writer.can_write(&bench.term, b";000\x07"));
    bench.feed("\x1b\\");
    assert_eq!(bench.writer.sequence, Sequence::Outside);
}

#[test]
fn sequences_are_followed() {
    let outside = Sequence::Outside;
    assert_eq!(outside.read(b"plain #123"), Some(outside));
    assert_eq!(outside.read(b"\x1b"), Some(Sequence::Escape));
    assert_eq!(outside.read(b"\x1b\n["), Some(Sequence::Control));
    assert_eq!(
        outside.read(b"\x1b[?2026;7"),
        Some(Sequence::Private { value: 7, asked: true })
    );
    assert_eq!(
        outside.read(b"\x1b[?99999999"),
        Some(Sequence::Private { value: 65535, asked: false })
    );
    assert_eq!(outside.read(b"\x1b[?25h"), Some(outside));
    assert_eq!(outside.read(b"\x1b[1;31m"), Some(outside));
    assert_eq!(outside.read(b"\x1b]0;a"), Some(Sequence::Command { start: false }));
    assert_eq!(outside.read(b"\x1b]0;"), Some(Sequence::Command { start: true }));
    assert_eq!(
        outside.read(b"\x1b]4;1;#12g"),
        Some(Sequence::Colour { digits: 2, length: 3, plain: false })
    );
    assert_eq!(outside.read(b"\x1b]4;1;#12\x18"), Some(outside));
}

#[test]
fn a_synchronized_update_is_held_back() {
    let mut bench = Bench::new(12, 4, "");
    bench.feed("a\x1b[?2026hbc");
    assert_eq!(bench.backend.full_text(&bench.term), "a\n");
    bench.feed("d");
    assert_eq!(bench.backend.full_text(&bench.term), "a\n");
    bench.feed("\x1b[?2026le");
    assert_eq!(bench.backend.full_text(&bench.term), "abcde\n");
    bench.feed("f");
    assert_eq!(bench.backend.full_text(&bench.term), "abcdef\n");
}

#[test]
fn a_scroll_region_can_raise_the_view_above_the_scrollback() {
    let mut bench = Bench::new(12, 3, "1\r\n2\r\n3\r\n4");
    bench.run(BackendCommand::Scroll(1));
    bench.feed("\x1b[2;3r\x1b[3;1H\n\n\n");
    assert_eq!(bench.term.history_size(), 1);
    assert_eq!(bench.offset(), 4);
    assert!(!egui_term::terminal::usable(&bench.term));
    let mut at_bottom = Bench::new(12, 3, "1\r\n2\r\n3\r\n4");
    at_bottom.feed("\x1b[2;3r\x1b[3;1H\n\n\n");
    assert!(egui_term::terminal::usable(&at_bottom.term));
}

#[test]
fn a_mark_keeps_the_view_of_a_terminal_that_was_written_to() {
    let mut bench = Bench::numbered();
    bench.backend.set_sticky_scroll(true);
    bench.run(BackendCommand::Scroll(6));
    let mark = WriteMark::begin(&bench.term);
    assert_eq!((mark.old_offset, mark.old_history), (6, 16));
    let mark = WriteMark { old_offset: 6, old_history: 12 };
    mark.complete(&mut bench.backend, &mut bench.term);
    assert_eq!(bench.offset(), 10);
    let mark = WriteMark { old_offset: 15, old_history: 12 };
    mark.complete(&mut bench.backend, &mut bench.term);
    assert_eq!(bench.offset(), 16);
    let mark = WriteMark { old_offset: 3, old_history: 16 };
    mark.complete(&mut bench.backend, &mut bench.term);
    assert_eq!(bench.offset(), 16);
}

#[test]
fn a_view_of_the_screen_does_not_stick() {
    let mut bench = Bench::numbered();
    bench.backend.set_sticky_scroll(true);
    bench.feed("\r\nmore");
    assert_eq!(bench.offset(), 0);
    assert_eq!(bench.backend.content_revision(), 1);
}

#[test]
fn events_decide_when_to_stop_and_what_to_answer() {
    assert!(matches!(subscription_step(None), PtyStep::Stop));
    assert!(matches!(subscription_step(Some(PtySignal::Exit)), PtyStep::Stop));
    assert!(matches!(subscription_step(Some(PtySignal::Other)), PtyStep::Continue));
    match subscription_step(Some(PtySignal::PtyWrite("é".to_string()))) {
        PtyStep::Reply(bytes) => assert_eq!(bytes, vec![0xc3, 0xa9]),
        other => panic!("no reply: {:?}", other),
    }
}
