//! What keyboard events come to.

use alacritty_terminal::term::Term;
use vstd::prelude::*;
use vstd::utf8::encode_utf8;

use crate::backend::TerminalBackend;
use crate::input::{BackendCommand, BindingAction, InputAction, InputKind, Modifiers};
use crate::mode::TerminalMode;
use crate::terminal::{term_model, EventProxy};

verus! {

/// A keyboard event. The modifiers held down are those of the moment, except
/// that a key carries its own.
#[derive(Debug)]
pub enum KeyboardEvent {
    Text(String),
    Paste(String),
    Copy,
    Key { key: egui::Key, pressed: bool, modifiers: Modifiers },
}

/// The key with the given name.
pub uninterp spec fn key_named(name: Seq<char>) -> Option<egui::Key>;

/// `egui::Key::from_name`.
#[verifier::external_body]
fn key_from_name(name: &str) -> (key: Option<egui::Key>)
    ensures
        key == key_named(name@),
{
    egui::Key::from_name(name)
}

/// The symbol of a key or, where it has none, its name.
pub uninterp spec fn key_symbol(key: egui::Key) -> Seq<char>;

/// `egui::Key::symbol_or_name`.
#[verifier::external_body]
fn symbol_or_name(key: egui::Key) -> (symbol: &'static str)
    ensures
        symbol@ == key_symbol(key),
{
    key.symbol_or_name()
}

/// The bytes of a string, behind those in `out`.
fn push_text(out: &mut Vec<u8>, text: &str)
    ensures
        final(out)@ == old(out)@ + encode_utf8(text@),
{
    out.extend_from_slice(text.as_bytes());
    assert(out@ == old(out)@ + encode_utf8(text@));
}

/// An action that writes these bytes.
fn write_action(bytes: Vec<u8>) -> (action: InputAction)
    ensures
        action.writes(bytes@),
{
    InputAction::BackendCall(BackendCommand::Write(bytes))
}

/// Alt turns text into a Meta sequence. On Apple's systems it is the key for
/// special characters instead.
pub open spec fn meta_prefixes(modifiers: Modifiers, apple: bool) -> bool {
    !apple && modifiers.alt && !modifiers.ctrl && !modifiers.command
}

/// What typed text sends: the text, behind an escape where Meta is held.
pub open spec fn text_bytes(text: Seq<char>, modifiers: Modifiers, apple: bool) -> Seq<u8> {
    if meta_prefixes(modifiers, apple) {
        seq![0x1bu8] + encode_utf8(text)
    } else {
        encode_utf8(text)
    }
}

/// What typed text comes to. `bound` is what the key of that name is bound to,
/// if the text names a key; a bound key is left to its key event.
pub fn text_action(
    text: &str,
    modifiers: Modifiers,
    apple: bool,
    bound: Option<BindingAction>,
) -> (action: InputAction)
    ensures
        bound is None || bound->0 is Ignore ==> action.writes(
            text_bytes(text@, modifiers, apple),
        ),
        bound is Some && !(bound->0 is Ignore) ==> action is Ignore,
{
    let free = match bound {
        None => true,
        Some(BindingAction::Ignore) => true,
        Some(_) => false,
    };
    if !free {
        return InputAction::Ignore;
    }
    let mut bytes: Vec<u8> = Vec::new();
    if !apple && modifiers.alt && !modifiers.ctrl && !modifiers.command {
        bytes.push(0x1b);
    }
    push_text(&mut bytes, text);
    assert(bytes@ == text_bytes(text@, modifiers, apple));
    write_action(bytes)
}

/// What typed text comes to, given what the key that it names is bound to.
pub open spec fn text_comes_to<F: Fn(InputKind, Modifiers, TerminalMode) -> BindingAction>(
    text: Seq<char>,
    modifiers: Modifiers,
    mode: TerminalMode,
    lookup: F,
    apple: bool,
    action: InputAction,
) -> bool {
    match key_named(text) {
        None => action.writes(text_bytes(text, modifiers, apple)),
        Some(key) => exists|bound: BindingAction| #[trigger]
            call_ensures(lookup, (InputKind::KeyCode(key), modifiers, mode), bound)
                && if bound is Ignore {
                action.writes(text_bytes(text, modifiers, apple))
            } else {
                action is Ignore
            },
    }
}

/// Handles typed text. `lookup` tells what an input is bound to.
pub fn process_text_event<F: Fn(InputKind, Modifiers, TerminalMode) -> BindingAction>(
    text: &str,
    modifiers: Modifiers,
    mode: TerminalMode,
    lookup: F,
    apple: bool,
) -> (action: InputAction)
    requires
        forall|kind: InputKind, held: Modifiers| call_requires(lookup, (kind, held, mode)),
    ensures
        text_comes_to(text@, modifiers, mode, lookup, apple, action),
{
    match key_from_name(text) {
        None => text_action(text, modifiers, apple, None),
        Some(key) => {
            let bound = lookup(InputKind::KeyCode(key), modifiers, mode);
            let ghost found = bound;
            let action = text_action(text, modifiers, apple, Some(bound));
            assert(call_ensures(lookup, (InputKind::KeyCode(key), modifiers, mode), found));
            action
        },
    }
}

/// What a paste sends: the text on Apple's systems and with Ctrl and Shift,
/// else the control character of Ctrl+V, behind an escape with Alt.
pub open spec fn paste_bytes(text: Seq<char>, modifiers: Modifiers, apple: bool) -> Seq<u8> {
    if apple || modifiers.holds(Modifiers::query(false, true, true)) {
        encode_utf8(text)
    } else if modifiers.alt {
        seq![0x1bu8, 0x16]
    } else {
        seq![0x16u8]
    }
}

/// Handles a paste.
pub fn paste_action(text: &str, modifiers: Modifiers, apple: bool) -> (action: InputAction)
    ensures
        action.writes(paste_bytes(text@, modifiers, apple)),
{
    let mut bytes: Vec<u8> = Vec::new();
    if apple || modifiers.contains(Modifiers::shortcut(false, true, true)) {
        push_text(&mut bytes, text);
    } else if modifiers.alt {
        bytes.push(0x1b);
        bytes.push(0x16);
    } else {
        bytes.push(0x16);
    }
    assert(bytes@ == paste_bytes(text@, modifiers, apple));
    write_action(bytes)
}

/// A copy takes the selection: on Apple's systems and with Ctrl and Shift.
pub open spec fn copy_takes_selection(modifiers: Modifiers, apple: bool) -> bool {
    apple || modifiers.holds(Modifiers::query(false, true, true))
}

/// What a copy that does not take the selection sends: the control character of
/// Ctrl+C, behind an escape with Alt.
pub open spec fn interrupt_bytes(modifiers: Modifiers) -> Seq<u8> {
    if modifiers.alt {
        seq![0x1bu8, 0x03]
    } else {
        seq![0x03u8]
    }
}

/// Handles a copy.
pub fn copy_action(
    backend: &TerminalBackend,
    term: &Term<EventProxy>,
    modifiers: Modifiers,
    apple: bool,
) -> (action: InputAction)
    requires
        copy_takes_selection(modifiers, apple) ==> term_model(*term).wf() && backend.selection_in(
            term_model(*term),
        ),
    ensures
        if copy_takes_selection(modifiers, apple) {
            action.copies(backend.selection_chars(term_model(*term)))
        } else {
            action.writes(interrupt_bytes(modifiers))
        },
{
    if apple || modifiers.contains(Modifiers::shortcut(false, true, true)) {
        return InputAction::WriteToClipboard(backend.selectable_content(term));
    }
    let mut bytes: Vec<u8> = Vec::new();
    if modifiers.alt {
        bytes.push(0x1b);
    }
    bytes.push(0x03);
    assert(bytes@ == interrupt_bytes(modifiers));
    write_action(bytes)
}

/// What a binding sends, if it sends anything.
pub open spec fn bound_bytes(bound: BindingAction) -> Option<Seq<u8>> {
    match bound {
        BindingAction::Char(c) => Some(encode_utf8(seq![c])),
        BindingAction::Esc(sequence) => Some(encode_utf8(sequence@)),
        _ => None,
    }
}

/// What a bound key comes to.
pub fn bound_action(bound: BindingAction) -> (action: InputAction)
    ensures
        action.sends(bound_bytes(bound)),
{
    match bound {
        BindingAction::Char(c) => {
            let mut bytes: Vec<u8> = Vec::new();
            push_char(&mut bytes, c);
            assert(bytes@ == encode_utf8(seq![c]));
            write_action(bytes)
        },
        BindingAction::Esc(sequence) => {
            let mut bytes: Vec<u8> = Vec::new();
            push_text(&mut bytes, sequence.as_str());
            assert(bytes@ == encode_utf8(sequence@));
            write_action(bytes)
        },
        _ => InputAction::Ignore,
    }
}

/// The bytes of a character, behind those in `out`.
fn push_char(out: &mut Vec<u8>, c: char)
    ensures
        final(out)@ == old(out)@ + encode_utf8(seq![c]),
{
    let mut text = String::new();
    text.push(c);
    assert(text@ == seq![c]);
    push_text(out, text.as_str());
}

/// An unbound key with Ctrl and Alt held is tried once more without Alt.
pub open spec fn falls_back(bound: BindingAction, modifiers: Modifiers, apple: bool) -> bool {
    !apple && bound is Ignore && modifiers.alt && modifiers.ctrl
}

/// A printing ASCII character other than the space.
pub open spec fn is_graphic(c: char) -> bool {
    0x21 <= c as int <= 0x7e
}

/// The ASCII lower case of a character.
pub open spec fn lower(c: char) -> u8 {
    (if 0x41 <= c as int <= 0x5a {
        c as int + 32
    } else {
        c as int
    }) as u8
}

/// What an unbound key with Ctrl and Alt sends: an escape and what it is bound
/// to without Alt or, if that is nothing either, an escape and the key's own
/// character. Keys whose symbol is no single printing character send nothing.
pub open spec fn fallback_bytes(bound: BindingAction, symbol: Seq<char>) -> Option<Seq<u8>> {
    match bound {
        BindingAction::Char(c) => Some(seq![0x1bu8] + encode_utf8(seq![c])),
        BindingAction::Esc(sequence) => Some(seq![0x1bu8] + encode_utf8(sequence@)),
        BindingAction::Ignore => if symbol.len() == 1 && is_graphic(symbol[0]) {
            Some(seq![0x1bu8, lower(symbol[0])])
        } else {
            None
        },
        _ => None,
    }
}

/// What an unbound key with Ctrl and Alt comes to. `bound` is what it is bound
/// to without Alt.
pub fn fallback_action(bound: BindingAction, symbol: &str) -> (action: InputAction)
    ensures
        action.sends(fallback_bytes(bound, symbol@)),
{
    match bound {
        BindingAction::Char(c) => {
            let mut bytes: Vec<u8> = Vec::new();
            bytes.push(0x1b);
            push_char(&mut bytes, c);
            assert(bytes@ == seq![0x1bu8] + encode_utf8(seq![c]));
            write_action(bytes)
        },
        BindingAction::Esc(sequence) => {
            let mut bytes: Vec<u8> = Vec::new();
            bytes.push(0x1b);
            push_text(&mut bytes, sequence.as_str());
            assert(bytes@ == seq![0x1bu8] + encode_utf8(sequence@));
            write_action(bytes)
        },
        BindingAction::Ignore => {
            if symbol.unicode_len() != 1 {
                return InputAction::Ignore;
            }
            let c: u32 = symbol.get_char(0) as u32;
            if c < 0x21 || c > 0x7e {
                return InputAction::Ignore;
            }
            let small: u8 = if 0x41 <= c && c <= 0x5a {
                (c + 32) as u8
            } else {
                c as u8
            };
            let mut bytes: Vec<u8> = Vec::new();
            bytes.push(0x1b);
            bytes.push(small);
            assert(bytes@ == seq![0x1bu8, lower(symbol@[0])]);
            write_action(bytes)
        },
        _ => InputAction::Ignore,
    }
}

/// What a bound or an unbound key comes to.
pub open spec fn binding_comes_to<F: Fn(InputKind, Modifiers, TerminalMode) -> BindingAction>(
    lookup: F,
    mode: TerminalMode,
    key: egui::Key,
    modifiers: Modifiers,
    apple: bool,
    bound: BindingAction,
    action: InputAction,
) -> bool {
    if falls_back(bound, modifiers, apple) {
        exists|inner: BindingAction| #[trigger]
            call_ensures(
                lookup,
                (InputKind::KeyCode(key), Modifiers { alt: false, ..modifiers }, mode),
                inner,
            ) && action.sends(fallback_bytes(inner, key_symbol(key)))
    } else {
        action.sends(bound_bytes(bound))
    }
}

/// What a key comes to, given what it is bound to. Letting go of it does
/// nothing.
pub open spec fn key_comes_to<F: Fn(InputKind, Modifiers, TerminalMode) -> BindingAction>(
    mode: TerminalMode,
    lookup: F,
    key: egui::Key,
    modifiers: Modifiers,
    pressed: bool,
    apple: bool,
    action: InputAction,
) -> bool {
    if pressed {
        exists|bound: BindingAction| #[trigger]
            call_ensures(lookup, (InputKind::KeyCode(key), modifiers, mode), bound)
                && binding_comes_to(lookup, mode, key, modifiers, apple, bound, action)
    } else {
        action is Ignore
    }
}

/// Handles a key. `lookup` tells what an input is bound to.
pub fn process_keyboard_key<F: Fn(InputKind, Modifiers, TerminalMode) -> BindingAction>(
    mode: TerminalMode,
    lookup: F,
    key: egui::Key,
    modifiers: Modifiers,
    pressed: bool,
    apple: bool,
) -> (action: InputAction)
    requires
        forall|kind: InputKind, held: Modifiers| call_requires(lookup, (kind, held, mode)),
    ensures
        key_comes_to(mode, lookup, key, modifiers, pressed, apple, action),
{
    if !pressed {
        return InputAction::Ignore;
    }
    let bound = lookup(InputKind::KeyCode(key), modifiers, mode);
    let ghost found = bound;
    let unbound = match bound {
        BindingAction::Ignore => true,
        _ => false,
    };
    if !apple && unbound && modifiers.alt && modifiers.ctrl {
        let held = Modifiers { alt: false, ..modifiers };
        let inner = lookup(InputKind::KeyCode(key), held, mode);
        let ghost found_inner = inner;
        let action = fallback_action(inner, symbol_or_name(key));
        assert(call_ensures(lookup, (InputKind::KeyCode(key), held, mode), found_inner));
        assert(binding_comes_to(lookup, mode, key, modifiers, apple, found, action));
        return action;
    }
    let action = bound_action(bound);
    assert(binding_comes_to(lookup, mode, key, modifiers, apple, found, action));
    action
}

/// What the event needs of the terminal: a copy that takes the selection reads
/// it.
pub open spec fn event_fits(
    event: KeyboardEvent,
    backend: TerminalBackend,
    term: Term<EventProxy>,
    modifiers: Modifiers,
    apple: bool,
) -> bool {
    event is Copy && copy_takes_selection(modifiers, apple) ==> term_model(term).wf()
        && backend.selection_in(term_model(term))
}

/// Decides [`event_fits`].
pub fn can_take_event(
    event: &KeyboardEvent,
    backend: &TerminalBackend,
    term: &Term<EventProxy>,
    modifiers: Modifiers,
    apple: bool,
) -> (b: bool)
    ensures
        b == event_fits(*event, *backend, *term, modifiers, apple),
{
    match event {
        KeyboardEvent::Copy => {
            let takes_selection = apple || modifiers.contains(
                Modifiers::shortcut(false, true, true),
            );
            !takes_selection || backend.can_copy(term)
        },
        _ => true,
    }
}

/// What a keyboard event comes to.
pub open spec fn event_comes_to<F: Fn(InputKind, Modifiers, TerminalMode) -> BindingAction>(
    event: KeyboardEvent,
    backend: TerminalBackend,
    term: Term<EventProxy>,
    lookup: F,
    modifiers: Modifiers,
    apple: bool,
    action: InputAction,
) -> bool {
    let mode = backend.last_content.terminal_mode;
    match event {
        KeyboardEvent::Text(text) => text_comes_to(text@, modifiers, mode, lookup, apple, action),
        KeyboardEvent::Paste(text) => action.writes(paste_bytes(text@, modifiers, apple)),
        KeyboardEvent::Copy => if copy_takes_selection(modifiers, apple) {
            action.copies(backend.selection_chars(term_model(term)))
        } else {
            action.writes(interrupt_bytes(modifiers))
        },
        KeyboardEvent::Key { key, pressed, modifiers: held } => key_comes_to(
            mode,
            lookup,
            key,
            held,
            pressed,
            apple,
            action,
        ),
    }
}

/// Handles a keyboard event. `lookup` tells what an input is bound to.
pub fn process_keyboard_event<F: Fn(InputKind, Modifiers, TerminalMode) -> BindingAction>(
    event: KeyboardEvent,
    backend: &TerminalBackend,
    term: &Term<EventProxy>,
    lookup: F,
    modifiers: Modifiers,
    apple: bool,
) -> (action: InputAction)
    requires
        event_fits(event, *backend, *term, modifiers, apple),
        forall|kind: InputKind, held: Modifiers|
            call_requires(lookup, (kind, held, backend.last_content.terminal_mode)),
    ensures
        event_comes_to(event, *backend, *term, lookup, modifiers, apple, action),
{
    let mode = backend.last_content.terminal_mode;
    match event {
        KeyboardEvent::Text(text) => process_text_event(
            text.as_str(),
            modifiers,
            mode,
            lookup,
            apple,
        ),
        KeyboardEvent::Paste(text) => paste_action(text.as_str(), modifiers, apple),
        KeyboardEvent::Copy => copy_action(backend, term, modifiers, apple),
        KeyboardEvent::Key { key, pressed, modifiers } => process_keyboard_key(
            mode,
            lookup,
            key,
            modifiers,
            pressed,
            apple,
        ),
    }
}

} // verus!
