use alacritty_terminal::term::test::TermSize;
use alacritty_terminal::term::{Config, Term};
use alacritty_terminal::vte::ansi::Processor;
use egui_term::backend::{url_regex, TerminalBackend};
use egui_term::input::{BackendCommand, BindingAction, InputAction, InputKind, Modifiers};
use egui_term::keyboard::{
    bound_action, can_take_event, copy_action, fallback_action, paste_action,
    process_keyboard_event, process_keyboard_key, process_text_event, text_action, KeyboardEvent,
};
use egui_term::mode::TerminalMode;
use egui_term::terminal::{EventProxy, SelectionType};
use std::sync::atomic::AtomicBool;
use std::sync::mpsc;
use std::sync::Arc;

fn held(alt: bool, ctrl: bool, shift: bool) -> Modifiers {
    Modifiers { alt, ctrl, shift, mac_cmd: false, command: ctrl }
}

fn mode() -> TerminalMode {
    TerminalMode { bits: 0 }
}

fn unbound(_kind: InputKind, _held: Modifiers, _mode: TerminalMode) -> BindingAction {
    BindingAction::Ignore
}

fn bytes(action: InputAction) -> Vec<u8> {
    match action {
        InputAction::BackendCall(BackendCommand::Write(bytes)) => bytes,
        other => panic!("not a write: {:?}", other),
    }
}

fn ignored(action: InputAction) -> bool {
    matches!(action, InputAction::Ignore)
}

fn backend_over(text: &str) -> (TerminalBackend, Term<EventProxy>) {
    let (sender, _receiver) = mpsc::channel();
    let proxy = EventProxy::new(sender, Arc::new(AtomicBool::new(false)));
    let (mut backend, mut term, mut writer) =
        TerminalBackend::new_direct(1, proxy, url_regex().unwrap());
    term.resize(TermSize::new(20, 4));
    assert!(writer.can_write(&term, text.as_bytes()));
    writer.write(&mut backend, &mut term, text.as_bytes());
    backend.sync_with_term(&mut term);
    (backend, term)
}

#[test]
fn text_is_sent_as_utf8() {
    let action = process_text_event("é€", held(false, false, false), mode(), unbound, false);
    assert_eq!(bytes(action), vec![0xc3, 0xa9, 0xe2, 0x82, 0xac]);
}

#[test]
fn alt_prefixes_text_with_an_escape() {
    let alt = held(true, false, false);
    assert_eq!(bytes(process_text_event("b", alt, mode(), unbound, false)), b"\x1bb".to_vec());
    assert_eq!(bytes(process_text_event("b", alt, mode(), unbound, true)), b"b".to_vec());
    let with_ctrl = held(true, true, false);
    assert_eq!(bytes(process_text_event("b", with_ctrl, mode(), unbound, false)), b"b".to_vec());
}

#[test]
fn text_of_a_bound_key_is_left_to_the_key() {
    let lookup = |kind: InputKind, _held: Modifiers, _mode: TerminalMode| match kind {
        InputKind::KeyCode(egui::Key::A) => BindingAction::Char('\x01'),
        _ => BindingAction::Ignore,
    };
    let none = held(false, false, false);
    assert!(ignored(process_text_event("a", none, mode(), lookup, false)));
    assert_eq!(bytes(process_text_event("b", none, mode(), lookup, false)), b"b".to_vec());
    assert_eq!(bytes(process_text_event("ab", none, mode(), lookup, false)), b"ab".to_vec());
}

#[test]
fn text_that_names_no_key_is_not_looked_up() {
    let lookup = |_kind: InputKind, _held: Modifiers, _mode: TerminalMode| BindingAction::Copy;
    let none = held(false, false, false);
    assert_eq!(bytes(process_text_event("ß", none, mode(), lookup, false)), vec![0xc3, 0x9f]);
}

#[test]
fn text_actions_go_by_what_is_bound() {
    let none = held(false, false, false);
    assert_eq!(bytes(text_action("x", none, false, None)), b"x".to_vec());
    assert_eq!(bytes(text_action("x", none, false, Some(BindingAction::Ignore))), b"x".to_vec());
    assert!(ignored(text_action("x", none, false, Some(BindingAction::Paste))));
}

#[test]
fn pasting_sends_the_text_with_ctrl_and_shift_only() {
    assert_eq!(bytes(paste_action("täxt", held(false, true, true), false)), "täxt".as_bytes());
    assert_eq!(bytes(paste_action("text", held(false, true, false), false)), vec![0x16]);
    assert_eq!(bytes(paste_action("text", held(true, true, false), false)), vec![0x1b, 0x16]);
    assert_eq!(bytes(paste_action("text", held(false, false, false), true)), b"text".to_vec());
}

#[test]
fn copying_takes_the_selection_with_ctrl_and_shift_only() {
    let (mut backend, mut term) = backend_over("hello world");
    backend.process_command(
        &mut term,
        BackendCommand::SelectStart(SelectionType::Semantic, 2, 0),
    );
    assert!(backend.sync_with_term(&mut term));
    match copy_action(&backend, &term, held(false, true, true), false) {
        InputAction::WriteToClipboard(text) => assert_eq!(text, "hello"),
        other => panic!("not a copy: {:?}", other),
    }
    match copy_action(&backend, &term, held(false, false, false), true) {
        InputAction::WriteToClipboard(text) => assert_eq!(text, "hello"),
        other => panic!("not a copy: {:?}", other),
    }
    assert_eq!(bytes(copy_action(&backend, &term, held(false, true, false), false)), vec![0x03]);
    assert_eq!(
        bytes(copy_action(&backend, &term, held(true, true, false), false)),
        vec![0x1b, 0x03]
    );
}

#[test]
fn bound_keys_send_their_characters() {
    assert_eq!(bytes(bound_action(BindingAction::Char('\u{7f}'))), vec![0x7f]);
    assert_eq!(bytes(bound_action(BindingAction::Char('ä'))), vec![0xc3, 0xa4]);
    assert_eq!(
        bytes(bound_action(BindingAction::Esc("\x1b[A".to_string()))),
        b"\x1b[A".to_vec()
    );
    assert!(ignored(bound_action(BindingAction::Ignore)));
    assert!(ignored(bound_action(BindingAction::Copy)));
    assert!(ignored(bound_action(BindingAction::Paste)));
    assert!(ignored(bound_action(BindingAction::LinkOpen)));
}

#[test]
fn the_fallback_prefixes_an_escape() {
    assert_eq!(bytes(fallback_action(BindingAction::Char('\x01'), "A")), vec![0x1b, 0x01]);
    assert_eq!(
        bytes(fallback_action(BindingAction::Esc("\x1b[5~".to_string()), "PageUp")),
        b"\x1b\x1b[5~".to_vec()
    );
    assert_eq!(bytes(fallback_action(BindingAction::Ignore, "1")), b"\x1b1".to_vec());
    assert_eq!(bytes(fallback_action(BindingAction::Ignore, "Z")), b"\x1bz".to_vec());
    assert_eq!(bytes(fallback_action(BindingAction::Ignore, "~")), b"\x1b~".to_vec());
    assert!(ignored(fallback_action(BindingAction::Ignore, "Tab")));
    assert!(ignored(fallback_action(BindingAction::Ignore, " ")));
    assert!(ignored(fallback_action(BindingAction::Ignore, "⏶")));
    assert!(ignored(fallback_action(BindingAction::Ignore, "")));
    assert!(ignored(fallback_action(BindingAction::Copy, "c")));
}

#[test]
fn released_keys_do_nothing() {
    let lookup = |_: InputKind, _: Modifiers, _: TerminalMode| BindingAction::Char('x');
    let none = held(false, false, false);
    assert!(ignored(process_keyboard_key(mode(), lookup, egui::Key::A, none, false, false)));
    assert_eq!(
        bytes(process_keyboard_key(mode(), lookup, egui::Key::A, none, true, false)),
        b"x".to_vec()
    );
}

#[test]
fn ctrl_alt_falls_back_to_ctrl() {
    let lookup = |kind: InputKind, held: Modifiers, _mode: TerminalMode| match kind {
        InputKind::KeyCode(egui::Key::F) if held.ctrl && !held.alt => BindingAction::Char('\x06'),
        _ => BindingAction::Ignore,
    };
    let both = held(true, true, false);
    let key = |key, apple| process_keyboard_key(mode(), lookup, key, both, true, apple);
    assert_eq!(bytes(key(egui::Key::F, false)), vec![0x1b, 0x06]);
    assert_eq!(bytes(key(egui::Key::Num1, false)), b"\x1b1".to_vec());
    assert_eq!(bytes(key(egui::Key::G, false)), b"\x1bg".to_vec());
    assert_eq!(bytes(key(egui::Key::Slash, false)), b"\x1b/".to_vec());
    assert!(ignored(key(egui::Key::Tab, false)));
    assert!(ignored(key(egui::Key::F, true)));
}

#[test]
fn a_direct_binding_wins_over_the_fallback() {
    let lookup = |_: InputKind, held: Modifiers, _: TerminalMode| {
        if held.alt {
            BindingAction::Esc("direct".to_string())
        } else {
            BindingAction::Char('c')
        }
    };
    assert_eq!(
        bytes(process_keyboard_key(
            mode(),
            lookup,
            egui::Key::C,
            held(true, true, false),
            true,
            false
        )),
        b"direct".to_vec()
    );
}

#[test]
fn events_reach_their_handlers() {
    let (backend, term) = backend_over("");
    let none = held(false, false, false);
    let lookup = |kind: InputKind, _held: Modifiers, _mode: TerminalMode| match kind {
        InputKind::KeyCode(egui::Key::Enter) => BindingAction::Char('\r'),
        _ => BindingAction::Ignore,
    };
    let run = |event| process_keyboard_event(event, &backend, &term, lookup, none, false);
    assert_eq!(bytes(run(KeyboardEvent::Text("q".to_string()))), b"q".to_vec());
    assert_eq!(bytes(run(KeyboardEvent::Paste("q".to_string()))), vec![0x16]);
    assert_eq!(bytes(run(KeyboardEvent::Copy)), vec![0x03]);
    assert_eq!(
        bytes(run(KeyboardEvent::Key {
            key: egui::Key::Enter,
            pressed: true,
            modifiers: none
        })),
        b"\r".to_vec()
    );
    assert!(can_take_event(&KeyboardEvent::Copy, &backend, &term, none, true));
}

#[test]
fn modifiers_match_as_the_toolkit_matches_them() {
    let all = [false, true];
    for alt in all {
        for ctrl in all {
            for shift in all {
                for mac_cmd in all {
                    for command in all {
                        let ours = Modifiers { alt, ctrl, shift, mac_cmd, command };
                        let theirs = egui::Modifiers { alt, ctrl, shift, mac_cmd, command };
                        assert_eq!(ours.is_none(), theirs.is_none());
                        assert_eq!(ours.command_only(), theirs.command_only());
                        let paste = paste_action("t", ours, false);
                        let wanted = theirs
                            .contains(egui::Modifiers::COMMAND | egui::Modifiers::SHIFT);
                        assert_eq!(bytes(paste) == b"t".to_vec(), wanted);
                    }
                }
            }
        }
    }
}
