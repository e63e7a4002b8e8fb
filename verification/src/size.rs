//! The size of the terminal, in cells and in pixels.

use vstd::prelude::*;

verus! {

/// The extent of the widget in pixels, each side as the bit pattern of its
/// single-precision value: extents are only ever compared.
#[derive(Clone, Copy, Debug, PartialEq, Eq, Structural)]
pub struct Size {
    pub width: u32,
    pub height: u32,
}

impl Default for Size {
    fn default() -> (size: Size)
        ensures
            size == (Size { width: 0, height: 0 }),
    {
        Size { width: 0, height: 0 }
    }
}

/// What the pty is told of the terminal's size.
#[derive(Clone, Copy, Debug, PartialEq, Eq, Structural)]
pub struct WindowSize {
    pub num_lines: u16,
    pub num_cols: u16,
    pub cell_width: u16,
    pub cell_height: u16,
}

/// The terminal's size: its cells in pixels, its grid in cells, and the layout
/// that it was last fitted to.
#[derive(Clone, Copy, Debug, PartialEq, Eq, Structural)]
pub struct TerminalSize {
    pub cell_width: u16,
    pub cell_height: u16,
    pub num_cols: u16,
    pub num_lines: u16,
    pub layout_size: Size,
}

impl Default for TerminalSize {
    fn default() -> (size: TerminalSize)
        ensures
            size == TerminalSize::initial(),
    {
        TerminalSize {
            cell_width: 1,
            cell_height: 1,
            num_cols: 80,
            num_lines: 50,
            layout_size: Size::default(),
        }
    }
}

impl TerminalSize {
    /// The size of a terminal that has not been fitted to a layout yet.
    pub open spec fn initial() -> TerminalSize {
        TerminalSize {
            cell_width: 1,
            cell_height: 1,
            num_cols: 80,
            num_lines: 50,
            layout_size: Size { width: 0, height: 0 },
        }
    }

    /// A size that can be divided into cells: no side of a cell or of the grid
    /// is zero.
    pub open spec fn divides(self) -> bool {
        self.cell_width > 0 && self.cell_height > 0 && self.num_cols > 0 && self.num_lines > 0
    }

    /// Decides [`TerminalSize::divides`].
    pub fn is_divisible(&self) -> (b: bool)
        ensures
            b == self.divides(),
    {
        self.cell_width > 0 && self.cell_height > 0 && self.num_cols > 0 && self.num_lines > 0
    }

    /// A bare size has no scrollback: its lines are those of the screen.
    pub fn total_lines(&self) -> (n: usize)
        ensures
            n == self.num_lines,
    {
        self.screen_lines()
    }

    pub fn screen_lines(&self) -> (n: usize)
        ensures
            n == self.num_lines,
    {
        self.num_lines as usize
    }

    pub fn columns(&self) -> (n: usize)
        ensures
            n == self.num_cols,
    {
        self.num_cols as usize
    }

    pub fn last_column(&self) -> (column: usize)
        requires
            self.num_cols > 0,
        ensures
            column == self.num_cols - 1,
    {
        self.num_cols as usize - 1
    }

    pub fn bottommost_line(&self) -> (line: i32)
        ensures
            line == self.num_lines - 1,
    {
        self.num_lines as i32 - 1
    }
}

impl From<TerminalSize> for WindowSize {
    fn from(size: TerminalSize) -> (window: WindowSize) {
        WindowSize {
            num_lines: size.num_lines,
            num_cols: size.num_cols,
            cell_width: size.cell_width,
            cell_height: size.cell_height,
        }
    }
}

impl vstd::std_specs::convert::FromSpecImpl<TerminalSize> for WindowSize {
    open spec fn obeys_from_spec() -> bool {
        true
    }

    open spec fn from_spec(size: TerminalSize) -> WindowSize {
        WindowSize {
            num_lines: size.num_lines,
            num_cols: size.num_cols,
            cell_width: size.cell_width,
            cell_height: size.cell_height,
        }
    }
}

} // verus!
