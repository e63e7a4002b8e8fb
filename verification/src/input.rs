//! What the user does, and what the widget asks of the backend in turn.

use vstd::prelude::*;

use crate::geometry::Point;
use crate::size::Size;
use crate::terminal::SelectionType;

verus! {

/// A key of the keyboard, as the toolkit names them.
#[verifier::external_type_specification]
#[verifier::external_body]
pub struct ExKey(egui::Key);

/// The modifier keys that are held down. `command` is Ctrl, or on a Mac the
/// command key.
#[derive(Clone, Copy, Debug, PartialEq, Eq, Structural)]
pub struct Modifiers {
    pub alt: bool,
    pub ctrl: bool,
    pub shift: bool,
    pub mac_cmd: bool,
    pub command: bool,
}

impl Modifiers {
    /// The modifiers that a shortcut asks for: Alt, Shift, and the command key.
    pub open spec fn query(alt: bool, shift: bool, command: bool) -> Modifiers {
        Modifiers { alt, ctrl: false, shift, mac_cmd: false, command }
    }

    /// Builds [`Modifiers::query`].
    pub fn shortcut(alt: bool, shift: bool, command: bool) -> (modifiers: Modifiers)
        ensures
            modifiers == Modifiers::query(alt, shift, command),
    {
        Modifiers { alt, ctrl: false, shift, mac_cmd: false, command }
    }

    /// Every modifier of `query` is held down, where Ctrl and the command key
    /// stand for `command` and it stands for each of them.
    pub open spec fn holds(self, query: Modifiers) -> bool {
        &&& query.alt ==> self.alt
        &&& query.shift ==> self.shift
        &&& query.ctrl ==> self.ctrl || self.command
        &&& query.mac_cmd ==> self.mac_cmd || self.command
        &&& query.command ==> self.ctrl || self.mac_cmd || self.command
    }

    /// `egui::Modifiers::contains`, which is [`Modifiers::holds`].
    #[verifier::external_body]
    pub(crate) fn contains(&self, query: Modifiers) -> (b: bool)
        ensures
            b == self.holds(query),
    {
        let held = egui::Modifiers {
            alt: self.alt,
            ctrl: self.ctrl,
            shift: self.shift,
            mac_cmd: self.mac_cmd,
            command: self.command,
        };
        held.contains(egui::Modifiers {
            alt: query.alt,
            ctrl: query.ctrl,
            shift: query.shift,
            mac_cmd: query.mac_cmd,
            command: query.command,
        })
    }

    /// Nothing is held down.
    pub open spec fn bare(self) -> bool {
        !(self.alt || self.ctrl || self.shift || self.mac_cmd || self.command)
    }

    /// The command key is held down, and neither Alt nor Shift.
    pub open spec fn just_command(self) -> bool {
        self.command && !self.alt && !self.shift
    }

    /// Decides [`Modifiers::bare`].
    pub fn is_none(&self) -> (b: bool)
        ensures
            b == self.bare(),
    {
        !self.alt && !self.ctrl && !self.shift && !self.mac_cmd && !self.command
    }

    /// Decides [`Modifiers::just_command`].
    pub fn command_only(&self) -> (b: bool)
        ensures
            b == self.just_command(),
    {
        !self.alt && !self.shift && self.command
    }
}

/// A button of the mouse, or its motion, as mouse reports number them.
#[derive(Clone, Copy, Debug, PartialEq, Eq, Structural)]
pub enum MouseButton {
    LeftButton,
    MiddleButton,
    RightButton,
    LeftMove,
    MiddleMove,
    RightMove,
    NoneMove,
    ScrollUp,
    ScrollDown,
    Other,
}

impl MouseButton {
    pub open spec fn number(self) -> u8 {
        match self {
            MouseButton::LeftButton => 0,
            MouseButton::MiddleButton => 1,
            MouseButton::RightButton => 2,
            MouseButton::LeftMove => 32,
            MouseButton::MiddleMove => 33,
            MouseButton::RightMove => 34,
            MouseButton::NoneMove => 35,
            MouseButton::ScrollUp => 64,
            MouseButton::ScrollDown => 65,
            MouseButton::Other => 99,
        }
    }

    pub fn code(&self) -> (code: u8)
        ensures
            code == self.number(),
    {
        match self {
            MouseButton::LeftButton => 0,
            MouseButton::MiddleButton => 1,
            MouseButton::RightButton => 2,
            MouseButton::LeftMove => 32,
            MouseButton::MiddleMove => 33,
            MouseButton::RightMove => 34,
            MouseButton::NoneMove => 35,
            MouseButton::ScrollUp => 64,
            MouseButton::ScrollDown => 65,
            MouseButton::Other => 99,
        }
    }
}

/// What to do about the link under the pointer.
#[derive(Clone, Copy, Debug, PartialEq, Eq, Structural)]
pub enum LinkAction {
    Clear,
    Hover,
    Open,
}

/// A layout that the terminal is to fit: the widget's extent, the size of a
/// cell, and how many of them go into it.
#[derive(Clone, Copy, Debug, PartialEq, Eq, Structural)]
pub struct Fitting {
    pub layout_size: Size,
    pub cell_width: u16,
    pub cell_height: u16,
    pub num_lines: u16,
    pub num_cols: u16,
}

/// What the widget asks of the backend. Positions are in whole pixels from the
/// widget's corner.
#[derive(Debug, Clone)]
pub enum BackendCommand {
    Write(Vec<u8>),
    Scroll(i32),
    Resize(Fitting),
    SelectStart(SelectionType, usize, usize),
    SelectUpdate(usize, usize),
    ProcessLink(LinkAction, Point),
    MouseReport(MouseButton, Modifiers, Point, bool),
}

/// What an input event comes to.
#[derive(Debug, Clone)]
pub enum InputAction {
    BackendCall(BackendCommand),
    WriteToClipboard(String),
    Ignore,
}

impl InputAction {
    /// The action writes `bytes` to the program in the terminal.
    pub open spec fn writes(self, bytes: Seq<u8>) -> bool {
        self matches InputAction::BackendCall(BackendCommand::Write(sent)) && sent@ == bytes
    }

    /// The action writes these bytes, or nothing happens where there are none.
    pub open spec fn sends(self, bytes: Option<Seq<u8>>) -> bool {
        match bytes {
            Some(bytes) => self.writes(bytes),
            None => self is Ignore,
        }
    }

    /// The action puts `text` on the clipboard.
    pub open spec fn copies(self, text: Seq<char>) -> bool {
        self matches InputAction::WriteToClipboard(copied) && copied@ == text
    }
}

/// A button of the pointer.
#[derive(Clone, Copy, Debug, PartialEq, Eq, Structural)]
pub enum PointerButton {
    Primary,
    Secondary,
    Middle,
    Extra,
}

/// What a binding is attached to.
#[derive(Clone, Copy, Debug)]
pub enum InputKind {
    KeyCode(egui::Key),
    Mouse(PointerButton),
}

/// What a binding does.
#[derive(Clone, Debug)]
pub enum BindingAction {
    Copy,
    Paste,
    Char(char),
    Esc(String),
    LinkOpen,
    Ignore,
}

} // verus!
