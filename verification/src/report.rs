//! How mouse events are reported to the program in the terminal.

use vstd::prelude::*;

use crate::geometry::Point;
use crate::input::{Modifiers, MouseButton};
use crate::mode::{mouse_mode_of, MouseMode, TerminalMode};

verus! {

/// The decimal digits of a number, in ASCII.
pub open spec fn digits(n: nat) -> Seq<u8>
    decreases n,
{
    if n < 10 {
        seq![(48 + n) as u8]
    } else {
        digits(n / 10).push((48 + n % 10) as u8)
    }
}

/// A number in decimal, in ASCII, with a minus sign where it is negative.
pub open spec fn decimal(n: int) -> Seq<u8> {
    if n < 0 {
        seq![45u8] + digits((-n) as nat)
    } else {
        digits(n as nat)
    }
}

fn push_digits(out: &mut Vec<u8>, n: u128)
    ensures
        final(out)@ == old(out)@ + digits(n as nat),
    decreases n,
{
    if n >= 10 {
        push_digits(out, n / 10);
    }
    out.push(48 + (n % 10) as u8);
    assert(out@ == old(out)@ + digits(n as nat));
}

fn push_decimal(out: &mut Vec<u8>, n: i128)
    requires
        n > i128::MIN,
    ensures
        final(out)@ == old(out)@ + decimal(n as int),
{
    if n < 0 {
        out.push(45);
        push_digits(out, (-n) as u128);
        assert(out@ == old(out)@ + decimal(n as int));
    } else {
        push_digits(out, n as u128);
    }
}

/// What the held modifiers add to the number of a button.
pub open spec fn modifier_bits(modifiers: Modifiers) -> int {
    (if modifiers.holds(Modifiers::query(false, true, false)) {
        4int
    } else {
        0
    }) + (if modifiers.holds(Modifiers::query(true, false, false)) {
        8int
    } else {
        0
    }) + (if modifiers.holds(Modifiers::query(false, false, true)) {
        16int
    } else {
        0
    })
}

/// The SGR report: the button, the column and the line counted from one, and a
/// final letter that tells a press from a release.
pub open spec fn sgr_report(point: Point, button: u8, pressed: bool) -> Seq<u8> {
    seq![0x1bu8, 0x5b, 0x3c] + decimal(button as int) + seq![0x3bu8] + decimal(
        point.column + 1,
    ) + seq![0x3bu8] + decimal(point.line + 1) + seq![
        if pressed {
            0x4du8
        } else {
            0x6d
        },
    ]
}

/// The point can be counted from one.
pub open spec fn sgr_fits(point: Point) -> bool {
    point.line < i32::MAX && point.column < usize::MAX
}

/// Builds the SGR report.
pub fn sgr_mouse_report(point: Point, button: u8, pressed: bool) -> (report: Vec<u8>)
    requires
        sgr_fits(point),
    ensures
        report@ == sgr_report(point, button, pressed),
{
    let mut report: Vec<u8> = Vec::new();
    report.push(0x1b);
    report.push(0x5b);
    report.push(0x3c);
    push_decimal(&mut report, button as i128);
    report.push(0x3b);
    push_decimal(&mut report, point.column as i128 + 1);
    report.push(0x3b);
    push_decimal(&mut report, point.line as i128 + 1);
    report.push(
        if pressed {
            0x4d
        } else {
            0x6d
        },
    );
    assert(report@ == sgr_report(point, button, pressed));
    report
}

/// The first coordinate that the encoding has no room for.
pub open spec fn coordinate_limit(is_utf8: bool) -> int {
    if is_utf8 {
        2015
    } else {
        223
    }
}

/// A coordinate, counted from one and shifted past the control characters: one
/// byte, or from 95 on and with UTF-8 the two bytes of that code point. One
/// byte keeps the coordinate modulo 256.
pub open spec fn coordinate(position: int, is_utf8: bool) -> Seq<u8> {
    if is_utf8 && position >= 95 {
        let code = 33 + position;
        seq![(0xc0 + code / 64) as u8, (0x80 + code % 64) as u8]
    } else {
        seq![(33 + position % 256) as u8]
    }
}

/// Whether a report can give this point.
pub open spec fn normal_reports(point: Point, is_utf8: bool) -> bool {
    point.line < coordinate_limit(is_utf8) && point.column < coordinate_limit(is_utf8)
}

/// The line, where it is reported, fits its byte: a line of the scrollback may
/// not.
pub open spec fn normal_fits(point: Point, is_utf8: bool) -> bool {
    normal_reports(point, is_utf8) && point.line < 0 ==> 33 + point.line % 256 <= 255
}

/// The report in the encoding that has no final letter.
pub open spec fn normal_report(point: Point, button: u8, is_utf8: bool) -> Seq<u8> {
    seq![0x1bu8, 0x5b, 0x4d, (32 + button) as u8] + coordinate(point.column as int, is_utf8)
        + coordinate(point.line as int, is_utf8)
}

fn push_coordinate(out: &mut Vec<u8>, position: i64, is_utf8: bool)
    requires
        i32::MIN <= position < coordinate_limit(is_utf8),
        position < 0 ==> 33 + position % 256 <= 255,
    ensures
        final(out)@ == old(out)@ + coordinate(position as int, is_utf8),
{
    if is_utf8 && position >= 95 {
        let code: i64 = 33 + position;
        out.push((0xc0 + code / 64) as u8);
        out.push((0x80 + code % 64) as u8);
    } else {
        let low: i64 = (position + 0x1_0000_0000) % 256;
        assert(low == position % 256);
        out.push((33 + low) as u8);
    }
    assert(out@ == old(out)@ + coordinate(position as int, is_utf8));
}

/// Builds the report without a final letter; there is none for a point that the
/// encoding has no room for.
pub fn normal_mouse_report(point: Point, button: u8, is_utf8: bool) -> (report: Option<Vec<u8>>)
    requires
        button <= 223,
        normal_fits(point, is_utf8),
    ensures
        report is Some <==> normal_reports(point, is_utf8),
        report matches Some(bytes) ==> bytes@ == normal_report(point, button, is_utf8),
{
    let limit: i32 = if is_utf8 {
        2015
    } else {
        223
    };
    if point.line >= limit || point.column >= limit as usize {
        return None;
    }
    let mut report: Vec<u8> = Vec::new();
    report.push(0x1b);
    report.push(0x5b);
    report.push(0x4d);
    report.push(32 + button);
    push_coordinate(&mut report, point.column as i64, is_utf8);
    push_coordinate(&mut report, point.line as i64, is_utf8);
    assert(report@ == normal_report(point, button, is_utf8));
    Some(report)
}

/// The number that a report gives for a button: outside SGR a release does not
/// say of which.
pub open spec fn reported_button(
    mode: MouseMode,
    button: MouseButton,
    modifiers: Modifiers,
    pressed: bool,
) -> u8 {
    (modifier_bits(modifiers) + (if mode is Sgr || pressed {
        button.number()
    } else {
        3
    })) as u8
}

/// A report can be built for this point, or there is none to build.
pub open spec fn report_fits(mode: TerminalMode, point: Point) -> bool {
    match mouse_mode_of(mode) {
        MouseMode::Sgr => sgr_fits(point),
        MouseMode::Normal(is_utf8) => normal_fits(point, is_utf8),
    }
}

/// Decides [`report_fits`].
pub fn can_report(mode: TerminalMode, point: Point) -> (b: bool)
    ensures
        b == report_fits(mode, point),
{
    match MouseMode::from(mode) {
        MouseMode::Sgr => point.line < i32::MAX && point.column < usize::MAX,
        MouseMode::Normal(is_utf8) => {
            let limit: usize = if is_utf8 {
                2015
            } else {
                223
            };
            let low: i64 = (point.line as i64 + 0x1_0000_0000) % 256;
            assert(low == point.line % 256);
            point.line >= 0 || point.column >= limit || low <= 222
        },
    }
}

/// The report of a mouse event, in the encoding that the terminal's mode asks
/// for.
pub open spec fn report_of(
    mode: TerminalMode,
    button: MouseButton,
    modifiers: Modifiers,
    point: Point,
    pressed: bool,
) -> Option<Seq<u8>> {
    let mouse = mouse_mode_of(mode);
    let number = reported_button(mouse, button, modifiers, pressed);
    match mouse {
        MouseMode::Sgr => Some(sgr_report(point, number, pressed)),
        MouseMode::Normal(is_utf8) => if normal_reports(point, is_utf8) {
            Some(normal_report(point, number, is_utf8))
        } else {
            None
        },
    }
}

/// Builds the report of a mouse event.
pub fn process_mouse_report(
    mode: TerminalMode,
    button: MouseButton,
    modifiers: Modifiers,
    point: Point,
    pressed: bool,
) -> (report: Option<Vec<u8>>)
    requires
        report_fits(mode, point),
    ensures
        report is Some <==> report_of(mode, button, modifiers, point, pressed) is Some,
        report matches Some(bytes) ==> Some(bytes@) == report_of(
            mode,
            button,
            modifiers,
            point,
            pressed,
        ),
{
    let mut mods: u8 = 0;
    if modifiers.contains(Modifiers::shortcut(false, true, false)) {
        mods = mods + 4;
    }
    if modifiers.contains(Modifiers::shortcut(true, false, false)) {
        mods = mods + 8;
    }
    if modifiers.contains(Modifiers::shortcut(false, false, true)) {
        mods = mods + 16;
    }
    match MouseMode::from(mode) {
        MouseMode::Sgr => Some(sgr_mouse_report(point, button.code() + mods, pressed)),
        MouseMode::Normal(is_utf8) => {
            if pressed {
                normal_mouse_report(point, button.code() + mods, is_utf8)
            } else {
                normal_mouse_report(point, 3 + mods, is_utf8)
            }
        },
    }
}

} // verus!
