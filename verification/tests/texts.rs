use alacritty_terminal::term::test::TermSize;
use alacritty_terminal::term::{Config, Term};
use alacritty_terminal::vte::ansi::Processor;
use egui_term::geometry::{Point, SelectionRange};
use egui_term::terminal::{usable, EventProxy};
use egui_term::text::{full_text, is_white_space, selection_text};
use std::sync::atomic::{AtomicBool, Ordering};
use std::sync::mpsc;
use std::sync::Arc;

fn terminal(columns: usize, lines: usize, text: &str) -> Term<EventProxy> {
    let (sender, _receiver) = mpsc::channel();
    let proxy = EventProxy::new(sender, Arc::new(AtomicBool::new(false)));
    let mut term = Term::new(Config::default(), &TermSize::new(columns, lines), proxy);
    let mut processor: Processor = Processor::new();
    processor.advance(&mut term, text.as_bytes());
    term
}

fn range(start: (i32, usize), end: (i32, usize)) -> SelectionRange {
    SelectionRange {
        start: Point::new(start.0, start.1),
        end: Point::new(end.0, end.1),
        is_block: false,
    }
}

#[test]
fn a_fresh_terminal_is_usable() {
    assert!(usable(&terminal(10, 4, "")));
}

#[test]
fn an_empty_terminal_has_one_line_break() {
    assert_eq!(full_text(&terminal(10, 4, "")), "\n");
}

#[test]
fn lines_are_trimmed_and_the_blank_tail_dropped() {
    let term = terminal(10, 4, "ab  \r\n\r\n  cd ");
    assert_eq!(full_text(&term), "ab\n\n  cd\n");
}

#[test]
fn wrapped_lines_are_joined() {
    let term = terminal(5, 4, "abcdefgh\r\nij");
    assert_eq!(full_text(&term), "abcdefgh\nij\n");
}

#[test]
fn the_scrollback_comes_first() {
    let term = terminal(5, 2, "one\r\ntwo\r\nthree\r\nfour");
    assert_eq!(full_text(&term), "one\ntwo\nthree\nfour\n");
}

#[test]
fn trimming_knows_unicode_white_space() {
    let term = terminal(10, 2, "ab\u{a0}\u{3000}");
    assert_eq!(full_text(&term), "ab\n");
}

#[test]
fn white_space_is_what_unicode_says() {
    let mut spaces = 0;
    for code in 0..=char::MAX as u32 {
        if let Some(c) = char::from_u32(code) {
            assert_eq!(is_white_space(c), c.is_whitespace());
            spaces += is_white_space(c) as u32;
        }
    }
    assert_eq!(spaces, 25);
}

#[test]
fn a_selection_takes_part_of_its_first_and_last_line() {
    let term = terminal(6, 3, "abcdef\r\nghi\r\njkl");
    assert_eq!(selection_text(&term, &range((0, 2), (0, 3))), "cd");
    let term = terminal(7, 3, "abcdef\r\nghi\r\njkl");
    assert_eq!(selection_text(&term, &range((0, 4), (2, 1))), "ef\nghi\njk");
}

#[test]
fn a_selection_joins_wrapped_lines() {
    let term = terminal(5, 3, "abcdefgh");
    assert_eq!(selection_text(&term, &range((0, 1), (1, 1))), "bcdefg");
}

#[test]
fn a_selection_reaches_into_the_scrollback() {
    let term = terminal(5, 2, "one\r\ntwo\r\nthree");
    assert_eq!(selection_text(&term, &range((-1, 0), (0, 2))), "one\ntwo");
}

#[test]
fn a_selection_that_ends_before_it_starts_is_empty() {
    let term = terminal(5, 2, "one\r\ntwo");
    assert_eq!(selection_text(&term, &range((1, 0), (0, 2))), "");
}

#[test]
fn a_selection_that_starts_beyond_the_line_adds_nothing() {
    let term = terminal(5, 2, "one\r\ntwo");
    assert_eq!(selection_text(&term, &range((0, 9), (1, 1))), "\ntw");
}

#[test]
fn blocks_select_the_same_columns_of_each_line() {
    let text = range((0, 2), (2, 4));
    assert!(text.contains(&Point::new(1, 0)));
    assert!(text.contains(&Point::new(0, 7)));
    assert!(!text.contains(&Point::new(0, 1)));
    assert!(!text.contains(&Point::new(2, 5)));
    let block = SelectionRange { is_block: true, ..text };
    assert!(!block.contains(&Point::new(1, 0)));
    assert!(!block.contains(&Point::new(0, 7)));
    assert!(block.contains(&Point::new(1, 3)));
}

#[test]
fn events_are_forwarded_and_noted() {
    let (sender, receiver) = mpsc::channel();
    let dirty = Arc::new(AtomicBool::new(false));
    let proxy = EventProxy::new(sender, dirty.clone());
    let mut term = Term::new(Config::default(), &TermSize::new(10, 4), proxy);
    let mut processor: Processor = Processor::new();
    processor.advance(&mut term, b"\x07");
    assert!(dirty.load(Ordering::Acquire));
    assert!(matches!(receiver.try_recv(), Ok(alacritty_terminal::event::Event::Bell)));
}

#[test]
fn events_without_a_listener_are_dropped() {
    let mut term = terminal(10, 4, "");
    let mut processor: Processor = Processor::new();
    processor.advance(&mut term, b"\x07x");
    assert_eq!(full_text(&term), "x\n");
}
