//! Which cells search matches highlight, and which match is the current one.

use std::collections::BTreeSet;
use vstd::prelude::*;

use crate::geometry::{Point, SearchMatch};

verus! {

broadcast use {vstd::std_specs::btree::group_btree_axioms, vstd::laws_cmp::group_laws_cmp};

/// A cell as one number, ordered as the cells are read.
spec fn key_of(point: Point) -> int {
    (point.line - i32::MIN) * 0x1_0000_0000_0000_0000 + point.column
}

fn key(point: Point) -> (key: u128)
    ensures
        key == key_of(point),
{
    let line: u128 = (point.line as i64 - i32::MIN as i64) as u128;
    line * 0x1_0000_0000_0000_0000 + point.column as u128
}

proof fn lemma_key_tells_apart(a: Point, b: Point)
    requires
        key_of(a) == key_of(b),
    ensures
        a == b,
{
}

/// A set of cells.
pub struct CellSet {
    keys: BTreeSet<u128>,
}

impl CellSet {
    #[verifier::type_invariant]
    spec fn inv(self) -> bool {
        forall|k: u128| #[trigger] self.keys@.contains(k) ==> exists|p: Point| key_of(p) == k
    }

    pub closed spec fn view(self) -> Set<Point> {
        Set::new(|p: Point| self.keys@.contains(key_of(p) as u128))
    }

    pub fn new() -> (set: CellSet)
        ensures
            set@ == Set::<Point>::empty(),
    {
        let set = CellSet { keys: BTreeSet::new() };
        assert(set@ == Set::<Point>::empty());
        set
    }

    pub fn insert(&mut self, point: Point)
        ensures
            final(self)@ == old(self)@.insert(point),
    {
        proof {
            use_type_invariant(&*self);
        }
        let mut keys: BTreeSet<u128> = BTreeSet::new();
        std::mem::swap(&mut keys, &mut self.keys);
        let ghost before = keys@;
        keys.insert(key(point));
        assert forall|k: u128| #[trigger] keys@.contains(k) implies exists|p: Point|
            key_of(p) == k by {
            if k == key_of(point) {
            } else {
                assert(before.contains(k));
            }
        }
        self.keys = keys;
        assert forall|p: Point| self@.contains(p) == old(self)@.insert(point).contains(p) by {
            if key_of(p) == key_of(point) {
                lemma_key_tells_apart(p, point);
            }
        }
        assert(self@ == old(self)@.insert(point));
    }

    pub fn contains(&self, point: Point) -> (b: bool)
        ensures
            b == self@.contains(point),
    {
        self.keys.contains(&key(point))
    }

    pub fn is_empty(&self) -> (b: bool)
        ensures
            b == (self@ == Set::<Point>::empty()),
    {
        proof {
            use_type_invariant(self);
            if self@ == Set::<Point>::empty() {
                assert forall|k: u128| !self.keys@.contains(k) by {
                    if self.keys@.contains(k) {
                        let p = choose|p: Point| key_of(p) == k;
                        assert(self@.contains(p));
                    }
                }
                assert(self.keys@ =~= Set::<u128>::empty());
            } else {
                assert(exists|p: Point| self@.contains(p)) by {
                    if forall|p: Point| !self@.contains(p) {
                        assert(self@ =~= Set::<Point>::empty());
                    }
                }
                let p = choose|p: Point| self@.contains(p);
                assert(self.keys@.contains(key_of(p) as u128));
            }
        }
        self.keys.is_empty()
    }
}

/// The cells of a match on a grid of so many columns, line by line: on one line
/// the columns from its start to its end; over several lines the rest of the
/// first, the lines between, and the last one up to its end.
pub open spec fn match_cells(found: SearchMatch, columns: usize) -> Set<Point> {
    let last_column = if columns == 0 {
        0
    } else {
        columns - 1
    };
    Set::new(
        |p: Point|
            if found.start.line == found.end.line {
                p.line == found.start.line && found.start.column <= p.column <= found.end.column
            } else {
                ||| p.line == found.start.line && found.start.column <= p.column <= last_column
                ||| found.start.line < p.line < found.end.line && p.column <= last_column
                ||| p.line == found.end.line && p.column <= found.end.column
            },
    )
}

/// Adds the columns from `from` to `to` of a line.
fn insert_row(cells: &mut CellSet, line: i32, from: usize, to: usize)
    ensures
        final(cells)@ == old(cells)@.union(
            Set::new(|p: Point| p.line == line && from <= p.column <= to),
        ),
{
    if from > to {
        assert(cells@ == old(cells)@.union(
            Set::new(|p: Point| p.line == line && from <= p.column <= to),
        ));
        return ;
    }
    let mut column: usize = from;
    cells.insert(Point { line, column });
    assert(cells@ == old(cells)@.union(
        Set::new(|p: Point| p.line == line && from <= p.column <= column),
    ));
    while column < to
        invariant
            from <= column <= to,
            cells@ == old(cells)@.union(
                Set::new(|p: Point| p.line == line && from <= p.column <= column),
            ),
        decreases to - column,
    {
        let ghost before = cells@;
        let ghost at = column;
        column = column + 1;
        cells.insert(Point { line, column });
        assert forall|p: Point|
            cells@.contains(p) == old(cells)@.union(
                Set::new(|p: Point| p.line == line && from <= p.column <= column),
            ).contains(p) by {
            if p.line == line && p.column == column {
                assert(p == Point { line, column });
            }
        }
        assert(cells@ == old(cells)@.union(
            Set::new(|p: Point| p.line == line && from <= p.column <= column),
        ));
    }
}

/// Adds the cells of a match.
pub fn expand_match_into_cells(found: &SearchMatch, columns: usize, cells: &mut CellSet)
    requires
        found.start.line != found.end.line ==> found.start.line < i32::MAX,
    ensures
        final(cells)@ == old(cells)@.union(match_cells(*found, columns)),
{
    let start = found.start;
    let end = found.end;
    let last_column: usize = if columns == 0 {
        0
    } else {
        columns - 1
    };
    if start.line == end.line {
        insert_row(cells, start.line, start.column, end.column);
        assert(cells@ == old(cells)@.union(match_cells(*found, columns)));
        return ;
    }
    insert_row(cells, start.line, start.column, last_column);
    let mut line: i32 = start.line + 1;
    while line < end.line
        invariant
            start == found.start,
            end == found.end,
            last_column == (if columns == 0 {
                0
            } else {
                columns - 1
            }),
            start.line < line,
            start.line < end.line ==> line <= end.line,
            start.line >= end.line ==> line == start.line + 1,
            cells@ == old(cells)@.union(
                Set::new(
                    |p: Point|
                        {
                            ||| p.line == start.line && start.column <= p.column <= last_column
                            ||| start.line < p.line < line && p.column <= last_column
                        },
                ),
            ),
        decreases end.line - line,
    {
        insert_row(cells, line, 0, last_column);
        line = line + 1;
        assert(cells@ == old(cells)@.union(
            Set::new(
                |p: Point|
                    {
                        ||| p.line == start.line && start.column <= p.column <= last_column
                        ||| start.line < p.line < line && p.column <= last_column
                    },
            ),
        ));
    }
    insert_row(cells, end.line, 0, end.column);
    assert(cells@ == old(cells)@.union(match_cells(*found, columns)));
}

/// What a line counts for, against a column, in the distance of two cells.
pub const LINE_WEIGHT: u64 = 1_000_000;

/// How many lines the current match may have moved between two frames.
pub const STREAMING_LINE_TOLERANCE: u64 = 200;

/// The distance of two cells can be worked out in the machine's integers.
pub open spec fn scorable(start: Point, target: Point) -> bool {
    &&& i32::MIN <= start.line - target.line <= i32::MAX
    &&& i64::MIN <= (start.column as i64) - (target.column as i64) <= i64::MAX
}

/// The distance of two cells, in which lines dominate.
pub open spec fn score_of(start: Point, target: Point) -> int {
    let lines = start.line - target.line;
    let columns = (start.column as i64) - (target.column as i64);
    (if lines < 0 {
        -lines
    } else {
        lines
    }) * LINE_WEIGHT + (if columns < 0 {
        -columns
    } else {
        columns
    })
}

fn score(start: Point, target: Point) -> (score: u64)
    requires
        scorable(start, target),
    ensures
        score == score_of(start, target),
{
    let lines: i64 = start.line as i64 - target.line as i64;
    let lines: u64 = if lines < 0 {
        (-lines) as u64
    } else {
        lines as u64
    };
    let columns: i64 = start.column as i64 - target.column as i64;
    let columns: u64 = if columns < 0 {
        (-(columns as i128)) as u64
    } else {
        columns as u64
    };
    lines * LINE_WEIGHT + columns
}

/// A match that begins at `start` may be the one that the user chose at `target`:
/// it is in the same column, at most [`STREAMING_LINE_TOLERANCE`] lines off.
/// Streaming moves a match to another line, never to another column.
pub open spec fn acceptable(start: Point, target: Point) -> bool {
    &&& start.column == target.column
    &&& -STREAMING_LINE_TOLERANCE <= start.line - target.line <= STREAMING_LINE_TOLERANCE
}

/// The match at `i` is the closest to `target`, the first of those where there
/// are several.
pub open spec fn closest_at(found: Seq<SearchMatch>, target: Point, i: int) -> bool {
    &&& 0 <= i < found.len()
    &&& forall|j: int|
        0 <= j < found.len() ==> score_of(found[i].start, target) <= score_of(
            (#[trigger] found[j]).start,
            target,
        )
    &&& forall|j: int|
        0 <= j < i ==> score_of(found[i].start, target) < score_of(
            (#[trigger] found[j]).start,
            target,
        )
}

/// `current` is the index of the match that is current for a target: the closest
/// to it, if that is acceptable.
pub open spec fn current_at(
    found: Seq<SearchMatch>,
    target: Point,
    current: Option<usize>,
) -> bool {
    match current {
        Some(i) => closest_at(found, target, i as int) && acceptable(found[i as int].start, target),
        None => forall|i: int| #[trigger]
            closest_at(found, target, i) ==> !acceptable(found[i].start, target),
    }
}

/// `current` is the index of the current match. Without a target there is none.
pub open spec fn current_is(
    found: Seq<SearchMatch>,
    target: Option<Point>,
    current: Option<usize>,
) -> bool {
    match target {
        Some(target) => current_at(found, target, current),
        None => current is None,
    }
}

/// Picks the current match.
pub fn pick_current(found: &Vec<SearchMatch>, target: Option<Point>) -> (current: Option<usize>)
    requires
        target is Some ==> forall|i: int|
            0 <= i < found@.len() ==> scorable((#[trigger] found@[i]).start, target->0),
    ensures
        current_is(found@, target, current),
{
    let target = match target {
        Some(target) => target,
        None => {
            return None;
        },
    };
    if found.len() == 0 {
        return None;
    }
    let mut best: usize = 0;
    let mut best_score: u64 = score(found[0].start, target);
    let mut i: usize = 1;
    while i < found.len()
        invariant
            0 <= best < i <= found@.len(),
            best_score == score_of(found@[best as int].start, target),
            forall|j: int|
                0 <= j < found@.len() ==> scorable((#[trigger] found@[j]).start, target),
            forall|j: int|
                0 <= j < i ==> best_score <= score_of((#[trigger] found@[j]).start, target),
            forall|j: int|
                0 <= j < best ==> best_score < score_of((#[trigger] found@[j]).start, target),
        decreases found@.len() - i,
    {
        let here: u64 = score(found[i].start, target);
        if here < best_score {
            best = i;
            best_score = here;
        }
        i = i + 1;
    }
    assert(closest_at(found@, target, best as int));
    let start = found[best].start;
    let lines: i64 = start.line as i64 - target.line as i64;
    let tolerance: i64 = STREAMING_LINE_TOLERANCE as i64;
    if start.column == target.column && -tolerance <= lines && lines <= tolerance {
        Some(best)
    } else {
        assert forall|j: int| #[trigger] closest_at(found@, target, j) implies !acceptable(
            found@[j].start,
            target,
        ) by {
            if j < best {
                assert(score_of(found@[best as int].start, target) < score_of(
                    found@[j].start,
                    target,
                ));
            } else if best < j {
                assert(score_of(found@[j].start, target) < score_of(
                    found@[best as int].start,
                    target,
                ));
            }
        }
        None
    }
}

/// How a cell is highlighted.
#[derive(Clone, Copy, Debug, PartialEq, Eq, Structural)]
pub enum HighlightKind {
    Plain,
    Match,
    Current,
}

/// The highlighted cells of a frame.
pub struct Highlights {
    /// The cells of the current match.
    pub current_cells: CellSet,
    /// The cells of the other matches.
    pub match_cells: CellSet,
    pub current: Option<SearchMatch>,
}

/// The cells of all matches up to the number `n` except the current one.
pub open spec fn other_cells(
    found: Seq<SearchMatch>,
    current: Option<usize>,
    columns: usize,
    n: int,
) -> Set<Point> {
    Set::new(
        |p: Point|
            exists|i: int|
                0 <= i < n && !(current is Some && current->0 == i) && match_cells(
                    #[trigger] found[i],
                    columns,
                ).contains(p),
    )
}

impl Highlights {
    /// The highlights of these matches, with the given one as the current.
    pub open spec fn shows(
        self,
        found: Seq<SearchMatch>,
        current: Option<usize>,
        columns: usize,
    ) -> bool {
        &&& self.match_cells@ == other_cells(found, current, columns, found.len() as int)
        &&& match current {
            Some(i) => {
                &&& self.current == Some(found[i as int])
                &&& self.current_cells@ == match_cells(found[i as int], columns)
            },
            None => self.current is None && self.current_cells@ == Set::<Point>::empty(),
        }
    }

    /// Marks the cells of every match.
    pub fn of(found: &Vec<SearchMatch>, current: Option<usize>, columns: usize) -> (highlights:
        Highlights)
        requires
            current is Some ==> current->0 < found@.len(),
            forall|i: int|
                0 <= i < found@.len() && (#[trigger] found@[i]).start.line != found@[i].end.line
                    ==> found@[i].start.line < i32::MAX,
        ensures
            highlights.shows(found@, current, columns),
    {
        let mut current_cells = CellSet::new();
        let mut other = CellSet::new();
        let mut chosen: Option<SearchMatch> = None;
        let mut i: usize = 0;
        assert(other@ == other_cells(found@, current, columns, 0));
        while i < found.len()
            invariant
                i <= found@.len(),
                current is Some ==> current->0 < found@.len(),
                forall|i: int|
                    0 <= i < found@.len() && (#[trigger] found@[i]).start.line
                        != found@[i].end.line ==> found@[i].start.line < i32::MAX,
                other@ == other_cells(found@, current, columns, i as int),
                current is Some && current->0 < i ==> chosen == Some(found@[current->0 as int])
                    && current_cells@ == match_cells(found@[current->0 as int], columns),
                !(current is Some && current->0 < i) ==> chosen is None && current_cells@
                    == Set::<Point>::empty(),
            decreases found@.len() - i,
        {
            let is_current = match current {
                Some(index) => index == i,
                None => false,
            };
            let ghost before = other@;
            if is_current {
                chosen = Some(found[i]);
                expand_match_into_cells(&found[i], columns, &mut current_cells);
                assert(current_cells@ == match_cells(found@[i as int], columns));
            } else {
                expand_match_into_cells(&found[i], columns, &mut other);
            }
            assert forall|p: Point|
                other@.contains(p) == other_cells(found@, current, columns, i + 1).contains(p) by {
                if other@.contains(p) {
                    if before.contains(p) {
                        let j = choose|j: int|
                            0 <= j < i && !(current is Some && current->0 == j) && match_cells(
                                #[trigger] found@[j],
                                columns,
                            ).contains(p);
                        assert(match_cells(found@[j], columns).contains(p));
                    } else {
                        assert(match_cells(found@[i as int], columns).contains(p));
                    }
                }
            }
            assert(other@ == other_cells(found@, current, columns, i + 1));
            i = i + 1;
        }
        Highlights { current_cells, match_cells: other, current: chosen }
    }

    /// How the highlights mark a cell: the current match wins.
    pub open spec fn kind(self, point: Point) -> HighlightKind {
        if self.current_cells@.contains(point) {
            HighlightKind::Current
        } else if self.match_cells@.contains(point) {
            HighlightKind::Match
        } else {
            HighlightKind::Plain
        }
    }

    /// Tells how a cell is marked.
    pub fn kind_at(&self, point: Point) -> (kind: HighlightKind)
        ensures
            kind == self.kind(point),
    {
        if self.current_cells.contains(point) {
            HighlightKind::Current
        } else if self.match_cells.contains(point) {
            HighlightKind::Match
        } else {
            HighlightKind::Plain
        }
    }

    /// Whether any cell is marked.
    pub fn any(&self) -> (b: bool)
        ensures
            b == !(self.current_cells@ == Set::<Point>::empty() && self.match_cells@ == Set::<
                Point,
            >::empty()),
    {
        !self.current_cells.is_empty() || !self.match_cells.is_empty()
    }
}

} // verus!
