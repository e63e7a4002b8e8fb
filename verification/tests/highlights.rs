use egui_term::geometry::{Point, SearchMatch};
use egui_term::highlight::{
    expand_match_into_cells, pick_current, CellSet, HighlightKind, Highlights, LINE_WEIGHT,
    STREAMING_LINE_TOLERANCE,
};

fn found(start: (i32, usize), end: (i32, usize)) -> SearchMatch {
    SearchMatch { start: Point::new(start.0, start.1), end: Point::new(end.0, end.1) }
}

#[test]
fn sets_hold_what_was_put_in() {
    let mut cells = CellSet::new();
    assert!(cells.is_empty());
    cells.insert(Point::new(-3, 7));
    cells.insert(Point::new(i32::MIN, 0));
    cells.insert(Point::new(i32::MAX, usize::MAX));
    assert!(!cells.is_empty());
    assert!(cells.contains(Point::new(-3, 7)));
    assert!(cells.contains(Point::new(i32::MIN, 0)));
    assert!(cells.contains(Point::new(i32::MAX, usize::MAX)));
    assert!(!cells.contains(Point::new(-3, 8)));
    assert!(!cells.contains(Point::new(-2, 7)));
}

#[test]
fn a_match_on_one_line_covers_its_columns() {
    let mut cells = CellSet::new();
    expand_match_into_cells(&found((1, 3), (1, 5)), 10, &mut cells);
    let covered: Vec<usize> = (0..10).filter(|c| cells.contains(Point::new(1, *c))).collect();
    assert_eq!(covered, vec![3, 4, 5]);
    assert!(!cells.contains(Point::new(0, 4)));
    assert!(!cells.contains(Point::new(2, 4)));
}

#[test]
fn a_match_over_lines_covers_the_lines_between() {
    let m = found((-1, 7), (2, 1));
    let mut cells = CellSet::new();
    expand_match_into_cells(&m, 10, &mut cells);
    for line in -3..5 {
        for column in 0..10 {
            let point = Point::new(line, column);
            assert_eq!(cells.contains(point), m.contains(&point));
        }
        assert!(!cells.contains(Point::new(line, 10)));
    }
}

#[test]
fn expanding_keeps_what_is_there() {
    let mut cells = CellSet::new();
    cells.insert(Point::new(9, 9));
    expand_match_into_cells(&found((0, 4), (0, 2)), 10, &mut cells);
    assert!(cells.contains(Point::new(9, 9)));
    assert!(!cells.contains(Point::new(0, 3)));
}

#[test]
fn the_match_at_the_target_is_current() {
    let all = vec![found((0, 5), (0, 6)), found((3, 5), (3, 6)), found((3, 9), (3, 9))];
    assert_eq!(pick_current(&all, Some(Point::new(3, 5))), Some(1));
    assert_eq!(pick_current(&all, None), None);
    assert_eq!(pick_current(&Vec::new(), Some(Point::new(3, 5))), None);
}

#[test]
fn the_current_match_follows_streaming() {
    let all = vec![found((-4, 5), (-4, 6)), found((-2, 5), (-2, 6))];
    assert_eq!(pick_current(&all, Some(Point::new(-1, 5))), Some(1));
    let far = vec![found((-200, 5), (-200, 6))];
    assert_eq!(pick_current(&far, Some(Point::new(0, 5))), Some(0));
    let farther = vec![found((-201, 5), (-201, 6))];
    assert_eq!(pick_current(&farther, Some(Point::new(0, 5))), None);
    assert_eq!(STREAMING_LINE_TOLERANCE, 200);
}

#[test]
fn the_current_match_never_changes_its_column() {
    let all = vec![found((0, 6), (0, 7))];
    assert_eq!(pick_current(&all, Some(Point::new(0, 5))), None);
    let closer_line = vec![found((1, 9), (1, 9)), found((2, 5), (2, 5))];
    assert_eq!(pick_current(&closer_line, Some(Point::new(0, 5))), None);
    assert_eq!(LINE_WEIGHT, 1_000_000);
    let far_column = vec![found((0, 1_000_005), (0, 1_000_005))];
    assert_eq!(pick_current(&far_column, Some(Point::new(0, 5))), None);
}

#[test]
fn the_first_of_equally_close_matches_is_current() {
    let all = vec![found((1, 5), (1, 5)), found((-1, 5), (-1, 5))];
    assert_eq!(pick_current(&all, Some(Point::new(0, 5))), Some(0));
}

#[test]
fn current_and_other_matches_are_marked_apart() {
    let all = vec![found((0, 0), (0, 3)), found((0, 2), (0, 5)), found((1, 0), (1, 1))];
    let marks = Highlights::of(&all, Some(1), 10);
    assert!(marks.any());
    assert_eq!(marks.current, Some(all[1]));
    assert_eq!(marks.kind_at(Point::new(0, 1)), HighlightKind::Match);
    assert_eq!(marks.kind_at(Point::new(0, 2)), HighlightKind::Current);
    assert_eq!(marks.kind_at(Point::new(0, 5)), HighlightKind::Current);
    assert_eq!(marks.kind_at(Point::new(0, 6)), HighlightKind::Plain);
    assert_eq!(marks.kind_at(Point::new(1, 1)), HighlightKind::Match);
}

#[test]
fn without_matches_nothing_is_marked() {
    let marks = Highlights::of(&Vec::new(), None, 10);
    assert!(!marks.any());
    assert_eq!(marks.current, None);
    assert_eq!(marks.kind_at(Point::new(0, 0)), HighlightKind::Plain);
}
