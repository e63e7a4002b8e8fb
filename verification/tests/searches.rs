use alacritty_terminal::grid::{Dimensions, Scroll};
use alacritty_terminal::index::{Column, Line};
use alacritty_terminal::term::cell::Flags;
use alacritty_terminal::term::test::TermSize;
use alacritty_terminal::term::{Config, Term};
use alacritty_terminal::vte::ansi::Processor;
use egui_term::backend::{url_regex, URL_PATTERN};
use egui_term::geometry::{Point, SearchMatch};
use egui_term::search::{
    clamp_to_grid, find_covering, link_text, next_match_after, prev_match_before, regex_match_at,
    search_all_in_term, visible_regex_match_iter,
    visible_regex_match_iter_in_cols, PatternError, SearchPattern, SCAN_PADDING,
};
use egui_term::terminal::EventProxy;
use std::sync::atomic::AtomicBool;
use std::sync::mpsc;
use std::sync::Arc;

fn terminal(columns: usize, lines: usize, text: &str) -> Term<EventProxy> {
    let (sender, _receiver) = mpsc::channel();
    let proxy = EventProxy::new(sender, Arc::new(AtomicBool::new(false)));
    let mut term = Term::new(Config::default(), &TermSize::new(columns, lines), proxy);
    let mut processor: Processor = Processor::new();
    processor.advance(&mut term, text.as_bytes());
    term
}

fn found(start: (i32, usize), end: (i32, usize)) -> SearchMatch {
    SearchMatch { start: Point::new(start.0, start.1), end: Point::new(end.0, end.1) }
}

/// Twenty numbered lines on a screen of four: `row 0` stands in line -16.
fn numbered() -> Term<EventProxy> {
    let lines: Vec<String> = (0..20).map(|i| format!("row {}", i)).collect();
    terminal(12, 4, &lines.join("\r\n"))
}

#[test]
fn points_are_brought_into_the_grid() {
    let term = numbered();
    assert_eq!(clamp_to_grid(&term, Point::new(-100, 100)), Point::new(-16, 11));
    assert_eq!(clamp_to_grid(&term, Point::new(100, 3)), Point::new(3, 3));
    assert_eq!(clamp_to_grid(&term, Point::new(-7, 5)), Point::new(-7, 5));
}

#[test]
fn the_whole_buffer_is_searched() {
    let term = numbered();
    let regex = SearchPattern::new("row 1").unwrap();
    let all = search_all_in_term(&term, &regex);
    assert_eq!(all.len(), 11);
    assert_eq!(all[0], found((-15, 0), (-15, 4)));
    assert_eq!(all[1], found((-6, 0), (-6, 4)));
    assert_eq!(all[10], found((3, 0), (3, 4)));
}

#[test]
fn a_search_finds_the_same_again() {
    let term = numbered();
    let regex = SearchPattern::new("[0-9]+").unwrap();
    let once = search_all_in_term(&term, &regex);
    assert_eq!(once.len(), 20);
    assert_eq!(search_all_in_term(&term, &regex), once);
}

#[test]
fn wrapped_text_is_matched_across_lines() {
    let term = terminal(5, 3, "abcdefgh");
    let regex = SearchPattern::new("defg").unwrap();
    assert_eq!(search_all_in_term(&term, &regex), vec![found((0, 3), (1, 1))]);
}

#[test]
fn the_viewport_shows_its_own_matches() {
    let mut term = numbered();
    let regex = SearchPattern::new("row [0-9]+").unwrap();
    let shown = visible_regex_match_iter(&term, &regex);
    assert_eq!(shown.len(), 4);
    assert_eq!(shown[0], found((0, 0), (0, 5)));
    term.grid_mut().scroll_display(Scroll::Delta(10));
    let shown = visible_regex_match_iter(&term, &regex);
    assert_eq!(shown.len(), 4);
    assert_eq!(shown[0], found((-10, 0), (-10, 4)));
    assert_eq!(shown[3], found((-7, 0), (-7, 4)));
}

#[test]
fn matches_that_reach_into_the_viewport_show() {
    let mut term = terminal(5, 2, "abcdefgh\r\nx\r\ny");
    term.grid_mut().scroll_display(Scroll::Delta(1));
    let regex = SearchPattern::new("defg").unwrap();
    assert_eq!(visible_regex_match_iter(&term, &regex), vec![found((-2, 3), (-1, 1))]);
}

#[test]
fn the_first_match_over_a_point_is_found() {
    let all = vec![found((0, 0), (0, 3)), found((0, 2), (0, 5)), found((1, 0), (2, 1))];
    assert_eq!(find_covering(&all, Point::new(0, 2)), Some(all[0]));
    assert_eq!(find_covering(&all, Point::new(0, 4)), Some(all[1]));
    assert_eq!(find_covering(&all, Point::new(1, 50)), Some(all[2]));
    assert_eq!(find_covering(&all, Point::new(2, 2)), None);
}

#[test]
fn next_and_previous_match_leave_the_anchor_out() {
    let term = numbered();
    let regex = SearchPattern::new("row 1").unwrap();
    assert_eq!(
        next_match_after(&term, &regex, Point::new(-16, 11)),
        Some(found((-15, 0), (-15, 4)))
    );
    assert_eq!(
        next_match_after(&term, &regex, Point::new(-15, 0)),
        Some(found((-6, 0), (-6, 4)))
    );
    assert_eq!(
        next_match_after(&term, &regex, Point::new(-15, 1)),
        Some(found((-6, 0), (-6, 4)))
    );
    assert_eq!(
        prev_match_before(&term, &regex, Point::new(-7, 0)),
        Some(found((-15, 0), (-15, 4)))
    );
    assert_eq!(
        prev_match_before(&term, &regex, Point::new(-6, 4)),
        Some(found((-15, 0), (-15, 4)))
    );
    assert_eq!(next_match_after(&term, &regex, Point::new(3, 5)), None);
    assert_eq!(next_match_after(&term, &regex, Point::new(3, 11)), None);
    assert_eq!(prev_match_before(&term, &regex, Point::new(-16, 0)), None);
    let term = terminal(12, 2, "foo foo");
    let regex = SearchPattern::new("foo").unwrap();
    let (first, second) = (found((0, 0), (0, 2)), found((0, 4), (0, 6)));
    assert_eq!(next_match_after(&term, &regex, Point::new(0, 0)), Some(second));
    assert_eq!(next_match_after(&term, &regex, Point::new(0, 4)), None);
    assert_eq!(prev_match_before(&term, &regex, Point::new(0, 6)), Some(first));
    assert_eq!(prev_match_before(&term, &regex, Point::new(0, 7)), Some(second));
    assert_eq!(prev_match_before(&term, &regex, Point::new(0, 2)), None);
}

#[test]
fn stale_anchors_are_brought_into_the_grid_first() {
    let term = numbered();
    let regex = SearchPattern::new("row 1").unwrap();
    assert_eq!(
        next_match_after(&term, &regex, Point::new(-5000, 70)),
        Some(found((-15, 0), (-15, 4)))
    );
    assert_eq!(
        prev_match_before(&term, &regex, Point::new(5000, 70)),
        Some(found((3, 0), (3, 4)))
    );
}

#[test]
fn a_band_is_searched_row_by_row() {
    let term = terminal(12, 3, "ab ab ab\r\nab\r\n   ab");
    let regex = SearchPattern::new("ab").unwrap();
    let all = visible_regex_match_iter_in_cols(&term, &regex, 0, 11, SCAN_PADDING);
    assert_eq!(
        all,
        vec![
            found((0, 0), (0, 1)),
            found((0, 3), (0, 4)),
            found((0, 6), (0, 7)),
            found((1, 0), (1, 1)),
            found((2, 3), (2, 4)),
        ]
    );
    let some = visible_regex_match_iter_in_cols(&term, &regex, 1, 5, SCAN_PADDING);
    assert_eq!(some, vec![found((0, 3), (0, 4)), found((2, 3), (2, 4))]);
}

#[test]
fn a_band_takes_in_lines_around_the_viewport() {
    let mut term = numbered();
    term.grid_mut().scroll_display(Scroll::Delta(8));
    let regex = SearchPattern::new("row").unwrap();
    let lines = |padding, term: &Term<EventProxy>, regex: &SearchPattern| {
        let all = visible_regex_match_iter_in_cols(term, regex, 0, 11, padding);
        (all.len(), all[0].start.line, all[all.len() - 1].start.line)
    };
    assert_eq!(lines(0, &term, &regex), (4, -8, -5));
    assert_eq!(lines(5, &term, &regex), (14, -13, 0));
    assert_eq!(lines(50, &term, &regex), (20, -16, 3));
}

#[test]
fn matches_of_a_band_may_go_on_beyond_it() {
    let term = terminal(12, 1, "foobar foo");
    let regex = SearchPattern::new("foo[a-z]*").unwrap();
    let all = visible_regex_match_iter_in_cols(&term, &regex, 0, 3, 0);
    assert_eq!(all, vec![found((0, 0), (0, 5))]);
    let all = visible_regex_match_iter_in_cols(&term, &regex, 0, 7, 0);
    assert_eq!(all, vec![found((0, 0), (0, 5)), found((0, 7), (0, 9))]);
    let all = visible_regex_match_iter_in_cols(&term, &regex, 1, 6, 0);
    assert!(all.is_empty());
}

#[test]
fn rows_that_end_in_a_wide_character_are_searched() {
    let term = terminal(80, 4, &format!("{}\u{4e16}foo", "x".repeat(79)));
    let regex = SearchPattern::new("x+").unwrap();
    let band = |max, regex: &SearchPattern| {
        visible_regex_match_iter_in_cols(&term, regex, 0, max, SCAN_PADDING)
    };
    assert_eq!(band(0, &regex), vec![found((0, 0), (0, 78))]);
    assert_eq!(band(79, &regex), vec![found((0, 0), (0, 78))]);
    let regex = SearchPattern::new("\u{4e16}foo").unwrap();
    assert_eq!(band(79, &regex), vec![found((1, 0), (1, 4))]);
    assert_eq!(search_all_in_term(&term, &regex).len(), 1);
    assert_eq!(visible_regex_match_iter(&term, &regex).len(), 1);
    let regex = SearchPattern::new("foo").unwrap();
    let foo = found((1, 2), (1, 4));
    assert_eq!(search_all_in_term(&term, &regex), vec![foo]);
    assert_eq!(visible_regex_match_iter(&term, &regex), vec![foo]);
    for column in 0..80 {
        let from = Point::new(0, column);
        assert_eq!(next_match_after(&term, &regex, from), Some(foo));
        assert_eq!(prev_match_before(&term, &regex, from), None);
    }
    for column in 5..80 {
        assert_eq!(prev_match_before(&term, &regex, Point::new(1, column)), Some(foo));
    }
}

#[test]
fn a_screen_full_of_wide_characters_is_searched() {
    let term = terminal(5, 4, &"\u{4e16}".repeat(30));
    let regex = SearchPattern::new("\u{4e16}").unwrap();
    let all = search_all_in_term(&term, &regex);
    assert_eq!(all.len(), 30);
    for pair in all.windows(2) {
        let (a, b) = (&pair[0], &pair[1]);
        assert!((a.end.line, a.end.column) < (b.start.line, b.start.column));
    }
    let shown = visible_regex_match_iter(&term, &regex);
    assert_eq!(shown.len(), 8);
    for max in 0..5 {
        let rows = visible_regex_match_iter_in_cols(&term, &regex, 0, max, 0);
        let starts: Vec<(i32, usize)> =
            rows.iter().map(|m| (m.start.line, m.start.column)).collect();
        let mut wanted = Vec::new();
        for line in 0..4 {
            for column in [0, 2] {
                if column <= max {
                    wanted.push((line, column));
                }
            }
        }
        assert_eq!(starts, wanted);
    }
    for line in -11..4 {
        for column in 0..5 {
            let from = Point::new(line, column);
            if let Some(next) = next_match_after(&term, &regex, from) {
                assert!((line, column) < (next.start.line, next.start.column));
            }
            if let Some(before) = prev_match_before(&term, &regex, from) {
                assert!((before.end.line, before.end.column) < (line, column));
            }
        }
    }
}

#[test]
fn what_shows_is_part_of_the_whole() {
    let mut term = numbered();
    let regex = SearchPattern::new("[0-9]|ow").unwrap();
    let all = search_all_in_term(&term, &regex);
    for offset in 0..17 {
        term.grid_mut().scroll_display(Scroll::Bottom);
        term.grid_mut().scroll_display(Scroll::Delta(offset));
        assert_eq!(search_all_in_term(&term, &regex), all);
        let shown = visible_regex_match_iter(&term, &regex);
        let part: Vec<SearchMatch> = all
            .iter()
            .copied()
            .filter(|m| -offset <= m.start.line && m.end.line <= 3 - offset)
            .collect();
        assert_eq!(shown, part);
    }
}

#[test]
fn links_are_recognised() {
    let regex = url_regex().unwrap();
    let term = terminal(40, 3, "see https://example.org/a?b=1 <mailto:x@y>");
    let all = search_all_in_term(&term, &regex);
    assert_eq!(all.len(), 2);
    assert_eq!(link_text(&term, &all[0]), "https://example.org/a?b=1");
    assert_eq!(link_text(&term, &all[1]), "mailto:x@y");
    assert_eq!(regex_match_at(&term, Point::new(0, 10), &regex), Some(all[0]));
    assert_eq!(regex_match_at(&term, Point::new(0, 1), &regex), None);
}

#[test]
fn every_scheme_of_the_pattern_is_a_link() {
    for scheme in [
        "ipfs:", "ipns:", "magnet:", "mailto:", "gemini://", "gopher://", "https://", "http://",
        "news:", "file://", "git://", "ssh:", "ftp://",
    ] {
        assert!(URL_PATTERN.contains(scheme));
        let regex = url_regex().unwrap();
        let term = terminal(40, 2, &format!("({}x `", scheme));
        let all = search_all_in_term(&term, &regex);
        assert_eq!(all.len(), 1);
        assert_eq!(link_text(&term, &all[0]), format!("{}x", scheme));
    }
}

#[test]
fn links_are_read_across_wrapped_lines() {
    let term = terminal(10, 4, "ftp://abcdefgh z");
    let regex = url_regex().unwrap();
    let all = search_all_in_term(&term, &regex);
    assert_eq!(all, vec![found((0, 0), (1, 3))]);
    assert_eq!(link_text(&term, &all[0]), "ftp://abcdefgh");
}

#[test]
fn a_link_of_one_cell_is_its_character() {
    let term = terminal(3, 2, "abcdef");
    assert_eq!(link_text(&term, &found((0, 1), (0, 1))), "b");
    assert_eq!(link_text(&term, &found((0, 1), (1, 0))), "bcd");
    assert_eq!(link_text(&term, &found((1, 2), (1, 2))), "f");
}

#[test]
fn a_broken_pattern_does_not_compile() {
    assert_eq!(SearchPattern::new("(").err(), Some(PatternError));
    let pattern = SearchPattern::new("b.").unwrap();
    let term = terminal(6, 1, "abcd");
    assert_eq!(search_all_in_term(&term, &pattern.copy()), vec![found((0, 1), (0, 2))]);
    assert!(url_regex().is_ok());
}

/// Writes a mixture of narrow and wide characters, and moves cells about.
fn scrambled(seed: u64) -> Term<EventProxy> {
    let mut state = seed.wrapping_mul(0x9e37_79b9_7f4a_7c15).wrapping_add(1);
    let mut next = |below: u64| {
        state = state.wrapping_mul(6364136223846793005).wrapping_add(1442695040888963407);
        (state >> 33) % below
    };
    let columns = 2 + next(6) as usize;
    let mut text = String::new();
    for _ in 0..60 {
        match next(12) {
            0..=3 => text.push('\u{4e16}'),
            4..=6 => text.push('a'),
            7 => text.push(' '),
            8 => text.push_str("\r\n"),
            9 => text.push_str(&format!("\x1b[{}@", 1 + next(3))),
            10 => text.push_str(&format!("\x1b[{}P", 1 + next(3))),
            _ => text.push_str(&format!("\x1b[{};{}H", 1 + next(3), 1 + next(columns as u64))),
        }
    }
    terminal(columns, 3, &text)
}

#[test]
fn searches_end_whatever_the_cells_hold() {
    for seed in 0..60 {
        let mut term = scrambled(seed);
        let columns = term.columns();
        let top = -((term.total_lines() - 3) as i32);
        for pattern in ["a", "\u{4e16}", "a\u{4e16}|\u{4e16}a", " ", "[^a]+", "a*"] {
            let regex = SearchPattern::new(pattern).unwrap();
            let holds = |p: &Point| top <= p.line && p.line < 3 && p.column < columns;
            let in_order = |all: &Vec<SearchMatch>| {
                assert!(all.iter().all(|m| holds(&m.start) && holds(&m.end)));
                for pair in all.windows(2) {
                    let (end, start) = (pair[0].end, pair[1].start);
                    assert!((end.line, end.column) < (start.line, start.column));
                }
            };
            in_order(&search_all_in_term(&term, &regex));
            for offset in 0..=-top {
                term.grid_mut().scroll_display(Scroll::Bottom);
                term.grid_mut().scroll_display(Scroll::Delta(offset));
                in_order(&visible_regex_match_iter(&term, &regex));
            }
            term.grid_mut().scroll_display(Scroll::Bottom);
            for min in 0..columns {
                for max in min..columns {
                    let all = visible_regex_match_iter_in_cols(&term, &regex, min, max, 5);
                    in_order(&all);
                    assert!(all.iter().all(|m| min <= m.start.column && m.start.column <= max));
                    assert!(all.iter().all(|m| m.start.line == m.end.line));
                }
            }
            for line in top..3 {
                for column in 0..columns {
                    let from = Point::new(line, column);
                    if let Some(m) = next_match_after(&term, &regex, from) {
                        assert!((line, column) < (m.start.line, m.start.column));
                    }
                    if let Some(m) = prev_match_before(&term, &regex, from) {
                        assert!((m.end.line, m.end.column) < (line, column));
                    }
                }
            }
        }
    }
}

#[test]
fn going_from_match_to_match_finds_them_all() {
    for columns in 2..8 {
        for turn in 0..20 {
            let mut text = String::from("ab\u{4e16}");
            for i in 0..40 {
                text.push(match (i * i + i * turn + columns) % 5 {
                    0 | 3 => '\u{4e16}',
                    1 => 'a',
                    2 => 'b',
                    _ => ' ',
                });
            }
            let term = terminal(columns, 4, &text);
            for pattern in ["a", "b", "\u{4e16}", "a|\u{4e16}"] {
                let regex = SearchPattern::new(pattern).unwrap();
                let all = search_all_in_term(&term, &regex);
                let mut forward = Vec::new();
                let mut from = all[0].start;
                while let Some(next) = next_match_after(&term, &regex, from) {
                    forward.push(next.end);
                    from = next.start;
                }
                let wanted: Vec<Point> = all[1..].iter().map(|m| m.end).collect();
                assert_eq!(forward, wanted);
                let mut back = Vec::new();
                let mut from = all[all.len() - 1].end;
                while let Some(before) = prev_match_before(&term, &regex, from) {
                    back.push(before.end);
                    from = before.start;
                }
                let mut wanted: Vec<Point> = all[..all.len() - 1].iter().map(|m| m.end).collect();
                wanted.reverse();
                assert_eq!(back, wanted);
            }
        }
    }
}

#[test]
fn a_leading_spacer_near_the_end_of_the_buffer_is_searched() {
    let mut term = terminal(80, 2, "\r\n");
    term.grid_mut()[Line(1)][Column(77)].c = '\u{4e16}';
    term.grid_mut()[Line(1)][Column(77)].flags.insert(Flags::WIDE_CHAR);
    term.grid_mut()[Line(1)][Column(78)].flags.insert(Flags::LEADING_WIDE_CHAR_SPACER);
    for pattern in [".", " ", "\u{4e16}"] {
        let pattern = SearchPattern::new(pattern).unwrap();
        search_all_in_term(&term, &pattern);
        visible_regex_match_iter(&term, &pattern);
        visible_regex_match_iter_in_cols(&term, &pattern, 0, 79, 5);
        for column in 70..80 {
            next_match_after(&term, &pattern, Point::new(1, column));
            prev_match_before(&term, &pattern, Point::new(1, column));
        }
    }
}

/// A pattern whose automaton does not fit its cache, and text that fills it.
#[test]
fn a_pattern_that_outgrows_its_cache_can_be_searched_with_again() {
    let mut branches: Vec<String> =
        (0..60).map(|i| format!("[01]*1[01]{{9}}z{}", i)).collect();
    branches.push("[01]*1[01]{12}z".to_string());
    let pattern = SearchPattern::new(&branches.join("|")).unwrap();
    let mut state: u64 = 3;
    let mut text = String::new();
    for _ in 0..60_000 {
        state = state.wrapping_mul(6364136223846793005).wrapping_add(1442695040888963407);
        text.push(if state >> 63 == 0 { '0' } else { '1' });
    }
    let term = terminal(200, 20, &text);
    for _ in 0..3 {
        search_all_in_term(&term, &pattern);
        visible_regex_match_iter(&term, &pattern);
    }
}

#[test]
fn a_long_buffer_is_searched_in_good_time() {
    let lines: Vec<String> = (0..10_000).map(|i| format!("line {} of the log", i)).collect();
    let term = terminal(80, 24, &lines.join("\r\n"));
    let pattern = SearchPattern::new("[0-9]7 of").unwrap();
    assert_eq!(search_all_in_term(&term, &pattern).len(), 999);
}
