//! Positions in the terminal grid and ranges of them.

use vstd::prelude::*;

verus! {

/// A cell of the grid. Lines count downward from the first line of the screen,
/// so that the lines of the scrollback are negative.
#[derive(Clone, Copy, Debug, PartialEq, Eq, Structural)]
pub struct Point {
    pub line: i32,
    pub column: usize,
}

impl Point {
    pub fn new(line: i32, column: usize) -> (point: Point)
        ensures
            point == (Point { line, column }),
    {
        Point { line, column }
    }

    /// Whether `self` comes no later than `other` in reading order.
    pub open spec fn at_most(self, other: Point) -> bool {
        self.line < other.line || self.line == other.line && self.column <= other.column
    }

    /// Decides [`Point::at_most`].
    pub fn is_at_most(&self, other: &Point) -> (b: bool)
        ensures
            b == self.at_most(*other),
    {
        self.line < other.line || (self.line == other.line && self.column <= other.column)
    }
}

impl Default for Point {
    fn default() -> (point: Point)
        ensures
            point == (Point { line: 0, column: 0 }),
    {
        Point { line: 0, column: 0 }
    }
}

/// A search match: every cell from `start` to `end`, both included, in reading
/// order.
#[derive(Clone, Copy, Debug, PartialEq, Eq, Structural)]
pub struct SearchMatch {
    pub start: Point,
    pub end: Point,
}

impl SearchMatch {
    pub open spec fn has(self, point: Point) -> bool {
        self.start.at_most(point) && point.at_most(self.end)
    }

    pub fn contains(&self, point: &Point) -> (b: bool)
        ensures
            b == self.has(*point),
    {
        self.start.is_at_most(point) && point.is_at_most(&self.end)
    }
}

/// The cells that the user has selected.
#[derive(Clone, Copy, Debug, PartialEq, Eq, Structural)]
pub struct SelectionRange {
    pub start: Point,
    pub end: Point,
    /// Whether the selection is a rectangle rather than running text.
    pub is_block: bool,
}

impl SelectionRange {
    /// A block selects the same columns on each of its lines; running text
    /// selects whole lines between the first and the last.
    pub open spec fn has(self, point: Point) -> bool {
        &&& self.start.line <= point.line <= self.end.line
        &&& self.start.column <= point.column || !self.is_block && self.start.line != point.line
        &&& point.column <= self.end.column || !self.is_block && self.end.line != point.line
    }

    pub fn contains(&self, point: &Point) -> (b: bool)
        ensures
            b == self.has(*point),
    {
        self.start.line <= point.line && self.end.line >= point.line && (self.start.column
            <= point.column || (self.start.line != point.line && !self.is_block)) && (
        self.end.column >= point.column || (self.end.line != point.line && !self.is_block))
    }
}

/// Snapshot of the grid's geometry for navigation helpers.
#[derive(Clone, Copy, Debug, PartialEq, Eq, Structural)]
pub struct GridBounds {
    pub display_offset: i32,
    pub screen_lines: i32,
    pub columns: usize,
    pub total_lines: usize,
    pub bottommost_line: i32,
}

} // verus!
