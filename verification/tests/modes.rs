use alacritty_terminal::term::cell::Flags;
use alacritty_terminal::term::TermMode;
use egui_term::mode::{
    MouseMode, TerminalMode, ALTERNATE_SCROLL, ALTERNATE_SCROLLING, ALT_SCREEN, APP_CURSOR,
    INITIAL_MODES, MOUSE_DRAG, MOUSE_MODE, MOUSE_MOTION, MOUSE_REPORT_CLICK, SGR_MOUSE,
    UTF8_MOUSE, VI,
};
use egui_term::paint::{DIMMED, INVERSE};
use egui_term::size::{Size, TerminalSize, WindowSize};
use egui_term::terminal::{
    CellText, LEADING_WIDE_CHAR_SPACER, WIDE_CHAR, WIDE_CHAR_SPACER, WRAPLINE,
};

#[test]
fn mode_bits_are_those_of_the_emulator() {
    assert_eq!(APP_CURSOR, TermMode::APP_CURSOR.bits());
    assert_eq!(MOUSE_REPORT_CLICK, TermMode::MOUSE_REPORT_CLICK.bits());
    assert_eq!(SGR_MOUSE, TermMode::SGR_MOUSE.bits());
    assert_eq!(MOUSE_MOTION, TermMode::MOUSE_MOTION.bits());
    assert_eq!(ALT_SCREEN, TermMode::ALT_SCREEN.bits());
    assert_eq!(MOUSE_DRAG, TermMode::MOUSE_DRAG.bits());
    assert_eq!(UTF8_MOUSE, TermMode::UTF8_MOUSE.bits());
    assert_eq!(ALTERNATE_SCROLL, TermMode::ALTERNATE_SCROLL.bits());
    assert_eq!(VI, TermMode::VI.bits());
    assert_eq!(INITIAL_MODES, TermMode::default().bits());
    assert_eq!(MOUSE_MODE, TermMode::MOUSE_MODE.bits());
    assert_eq!(
        ALTERNATE_SCROLLING,
        (TermMode::ALTERNATE_SCROLL | TermMode::ALT_SCREEN).bits()
    );
}

#[test]
fn cell_bits_are_those_of_the_emulator() {
    assert_eq!(WRAPLINE, Flags::WRAPLINE.bits());
    assert_eq!(INVERSE, Flags::INVERSE.bits());
    assert_eq!(WIDE_CHAR, Flags::WIDE_CHAR.bits());
    assert_eq!(WIDE_CHAR_SPACER, Flags::WIDE_CHAR_SPACER.bits());
    assert_eq!(LEADING_WIDE_CHAR_SPACER, Flags::LEADING_WIDE_CHAR_SPACER.bits());
    assert_eq!(DIMMED, (Flags::DIM | Flags::DIM_BOLD).bits());
}

#[test]
fn flags_are_contained_or_intersect() {
    let mode = TerminalMode { bits: MOUSE_MOTION | ALT_SCREEN };
    assert!(mode.contains(MOUSE_MOTION));
    assert!(!mode.contains(MOUSE_MODE));
    assert!(mode.intersects(MOUSE_MODE));
    assert!(!mode.intersects(SGR_MOUSE));
    assert!(!mode.contains(ALTERNATE_SCROLLING));
    assert_eq!(TerminalMode::empty().bits, 0);
    let cell = CellText { c: 'x', flags: 0x2 };
    assert!(!cell.contains(DIMMED));
    assert!(cell.intersects(DIMMED));
}

#[test]
fn mouse_mode_prefers_sgr() {
    assert_eq!(MouseMode::from(TerminalMode { bits: SGR_MOUSE | UTF8_MOUSE }), MouseMode::Sgr);
    assert_eq!(MouseMode::from(TerminalMode { bits: UTF8_MOUSE }), MouseMode::Normal(true));
    assert_eq!(MouseMode::from(TerminalMode { bits: APP_CURSOR }), MouseMode::Normal(false));
}

#[test]
fn default_size_is_eighty_by_fifty() {
    let size = TerminalSize::default();
    assert_eq!((size.cell_width, size.cell_height), (1, 1));
    assert_eq!(size.columns(), 80);
    assert_eq!(size.screen_lines(), 50);
    assert_eq!(size.total_lines(), 50);
    assert_eq!(size.last_column(), 79);
    assert_eq!(size.bottommost_line(), 49);
    assert_eq!(size.layout_size, Size { width: 0, height: 0 });
    assert!(size.is_divisible());
    assert!(!TerminalSize { cell_width: 0, ..size }.is_divisible());
}

#[test]
fn window_size_keeps_cells_and_grid() {
    let size = TerminalSize {
        cell_width: 9,
        cell_height: 18,
        num_cols: 100,
        num_lines: 40,
        layout_size: Size { width: 1, height: 2 },
    };
    assert_eq!(
        WindowSize::from(size),
        WindowSize { num_lines: 40, num_cols: 100, cell_width: 9, cell_height: 18 }
    );
}
