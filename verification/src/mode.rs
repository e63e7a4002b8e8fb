//! The terminal's mode bits, and the mouse encoding that they select.

use vstd::prelude::*;

verus! {

/// Cursor keys send application sequences.
pub const APP_CURSOR: u32 = 0x2;

/// Clicks are reported to the program.
pub const MOUSE_REPORT_CLICK: u32 = 0x8;

/// Mouse reports use the SGR encoding.
pub const SGR_MOUSE: u32 = 0x20;

/// Every motion of the mouse is reported.
pub const MOUSE_MOTION: u32 = 0x40;

/// The alternate screen is shown.
pub const ALT_SCREEN: u32 = 0x1000;

/// Motion with a button held down is reported.
pub const MOUSE_DRAG: u32 = 0x2000;

/// Mouse reports encode large coordinates as UTF-8.
pub const UTF8_MOUSE: u32 = 0x4000;

/// On the alternate screen the wheel sends cursor keys.
pub const ALTERNATE_SCROLL: u32 = 0x8000;

/// Vi-style keyboard selection is active.
pub const VI: u32 = 0x1_0000;

/// Any of the three ways in which a program asks for mouse reports.
pub const MOUSE_MODE: u32 = 0x2048;

/// On the alternate screen with `ALTERNATE_SCROLL` set.
pub const ALTERNATE_SCROLLING: u32 = 0x9000;

/// The modes of a new terminal: the cursor shows, lines wrap, the wheel sends
/// cursor keys on the alternate screen, and bells ask for attention.
pub const INITIAL_MODES: u32 = 0x2_8081;

/// The modes that the program in the terminal has switched on, one bit each.
#[derive(Clone, Copy, Debug, PartialEq, Eq, Structural)]
pub struct TerminalMode {
    pub bits: u32,
}

impl TerminalMode {
    pub fn empty() -> (mode: TerminalMode)
        ensures
            mode.bits == 0,
    {
        TerminalMode { bits: 0 }
    }

    /// All of `flags` are set.
    pub open spec fn has(self, flags: u32) -> bool {
        self.bits & flags == flags
    }

    /// Some bit of `flags` is set.
    pub open spec fn has_any(self, flags: u32) -> bool {
        self.bits & flags != 0
    }

    pub fn contains(&self, flags: u32) -> (b: bool)
        ensures
            b == self.has(flags),
    {
        self.bits & flags == flags
    }

    pub fn intersects(&self, flags: u32) -> (b: bool)
        ensures
            b == self.has_any(flags),
    {
        self.bits & flags != 0
    }
}

/// How mouse reports are encoded. `Normal` says whether coordinates past the
/// single-byte range go out as UTF-8.
#[derive(Clone, Copy, Debug, PartialEq, Eq, Structural)]
pub enum MouseMode {
    Sgr,
    Normal(bool),
}

/// SGR wins over UTF-8, which wins over the single-byte encoding.
pub open spec fn mouse_mode_of(mode: TerminalMode) -> MouseMode {
    if mode.has(SGR_MOUSE) {
        MouseMode::Sgr
    } else {
        MouseMode::Normal(mode.has(UTF8_MOUSE))
    }
}

impl From<TerminalMode> for MouseMode {
    fn from(mode: TerminalMode) -> (mouse: MouseMode) {
        if mode.contains(SGR_MOUSE) {
            MouseMode::Sgr
        } else if mode.contains(UTF8_MOUSE) {
            MouseMode::Normal(true)
        } else {
            MouseMode::Normal(false)
        }
    }
}

impl vstd::std_specs::convert::FromSpecImpl<TerminalMode> for MouseMode {
    open spec fn obeys_from_spec() -> bool {
        true
    }

    open spec fn from_spec(mode: TerminalMode) -> MouseMode {
        mouse_mode_of(mode)
    }
}

} // verus!
