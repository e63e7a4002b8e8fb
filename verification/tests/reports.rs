use egui_term::geometry::Point;
use egui_term::input::{Modifiers, MouseButton};
use egui_term::mode::{TerminalMode, SGR_MOUSE, UTF8_MOUSE};
use egui_term::report::{
    can_report, normal_mouse_report, process_mouse_report, sgr_mouse_report,
};

fn held(alt: bool, ctrl: bool, shift: bool, command: bool) -> Modifiers {
    Modifiers { alt, ctrl, shift, mac_cmd: false, command }
}

#[test]
fn sgr_counts_from_one_and_tells_press_from_release() {
    let point = Point::new(4, 11);
    assert_eq!(sgr_mouse_report(point, 0, true), b"\x1b[<0;12;5M".to_vec());
    assert_eq!(sgr_mouse_report(point, 35, false), b"\x1b[<35;12;5m".to_vec());
}

#[test]
fn sgr_gives_scrollback_lines_a_sign() {
    assert_eq!(sgr_mouse_report(Point::new(-1, 0), 0, true), b"\x1b[<0;1;0M".to_vec());
    assert_eq!(sgr_mouse_report(Point::new(-12, 0), 0, true), b"\x1b[<0;1;-11M".to_vec());
}

#[test]
fn sgr_writes_long_numbers() {
    assert_eq!(
        sgr_mouse_report(Point::new(1_234_566, 9_999), 255, true),
        b"\x1b[<255;10000;1234567M".to_vec()
    );
}

#[test]
fn normal_reports_shift_past_the_control_characters() {
    assert_eq!(
        normal_mouse_report(Point::new(2, 7), 0, false),
        Some(vec![0x1b, b'[', b'M', 32, 40, 35])
    );
}

#[test]
fn normal_reports_have_no_room_beyond_a_byte() {
    assert_eq!(
        normal_mouse_report(Point::new(222, 222), 0, false),
        Some(vec![0x1b, b'[', b'M', 32, 255, 255])
    );
    assert_eq!(normal_mouse_report(Point::new(223, 0), 0, false), None);
    assert_eq!(normal_mouse_report(Point::new(0, 223), 0, false), None);
}

#[test]
fn utf8_reports_take_two_bytes_from_ninety_five_on() {
    assert_eq!(
        normal_mouse_report(Point::new(94, 95), 3, true),
        Some(vec![0x1b, b'[', b'M', 35, 0xc2, 0x80, 127])
    );
    assert_eq!(
        normal_mouse_report(Point::new(2014, 0), 0, true),
        Some(vec![0x1b, b'[', b'M', 32, 33, 0xdf, 0xbf])
    );
    assert_eq!(normal_mouse_report(Point::new(2015, 0), 0, true), None);
}

#[test]
fn utf8_coordinates_are_told_apart() {
    let mut seen: Vec<Vec<u8>> = Vec::new();
    for column in 0..2015usize {
        let report = normal_mouse_report(Point::new(0, column), 0, true).unwrap();
        assert!(!seen.contains(&report));
        seen.push(report);
    }
}

#[test]
fn modifiers_add_to_the_button() {
    let sgr = TerminalMode { bits: SGR_MOUSE };
    let point = Point::new(0, 0);
    let report = |modifiers| {
        process_mouse_report(sgr, MouseButton::LeftButton, modifiers, point, true).unwrap()
    };
    assert_eq!(report(held(false, false, true, false)), b"\x1b[<4;1;1M".to_vec());
    assert_eq!(report(held(true, false, false, false)), b"\x1b[<8;1;1M".to_vec());
    assert_eq!(report(held(false, true, false, false)), b"\x1b[<16;1;1M".to_vec());
    assert_eq!(report(held(true, true, true, true)), b"\x1b[<28;1;1M".to_vec());
}

#[test]
fn releases_outside_sgr_do_not_say_of_which_button() {
    let none = held(false, false, false, false);
    let point = Point::new(0, 0);
    assert_eq!(
        process_mouse_report(
            TerminalMode { bits: 0 },
            MouseButton::RightButton,
            none,
            point,
            false
        ),
        Some(vec![0x1b, b'[', b'M', 35, 33, 33])
    );
    assert_eq!(
        process_mouse_report(
            TerminalMode { bits: UTF8_MOUSE },
            MouseButton::ScrollDown,
            none,
            point,
            true
        ),
        Some(vec![0x1b, b'[', b'M', 97, 33, 33])
    );
    assert_eq!(
        process_mouse_report(
            TerminalMode { bits: SGR_MOUSE },
            MouseButton::RightButton,
            none,
            point,
            false
        ),
        Some(b"\x1b[<2;1;1m".to_vec())
    );
}

#[test]
fn buttons_have_the_numbers_of_the_protocol() {
    let numbers: Vec<u8> = [
        MouseButton::LeftButton,
        MouseButton::MiddleButton,
        MouseButton::RightButton,
        MouseButton::LeftMove,
        MouseButton::MiddleMove,
        MouseButton::RightMove,
        MouseButton::NoneMove,
        MouseButton::ScrollUp,
        MouseButton::ScrollDown,
        MouseButton::Other,
    ]
    .iter()
    .map(|button| button.code())
    .collect();
    assert_eq!(numbers, vec![0, 1, 2, 32, 33, 34, 35, 64, 65, 99]);
}

#[test]
fn lines_of_the_scrollback_may_not_fit_a_byte() {
    let normal = TerminalMode { bits: 0 };
    assert!(can_report(normal, Point::new(0, 0)));
    assert!(!can_report(normal, Point::new(-1, 0)));
    assert!(can_report(normal, Point::new(-34, 0)));
    assert!(can_report(normal, Point::new(-1, 500)));
    assert_eq!(
        normal_mouse_report(Point::new(-34, 0), 0, false),
        Some(vec![0x1b, b'[', b'M', 32, 33, 255])
    );
    let sgr = TerminalMode { bits: SGR_MOUSE };
    assert!(can_report(sgr, Point::new(-1, 0)));
    assert!(!can_report(sgr, Point::new(i32::MAX, 0)));
}
