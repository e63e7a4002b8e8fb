use egui_term::clock::{now_ms, stamp, throttled_repaint};
use std::time::Instant;

#[test]
fn repaint_waits_a_second() {
    let mut last = 0u64;
    assert!(!throttled_repaint(999, &mut last));
    assert_eq!(last, 0);
    assert!(throttled_repaint(1000, &mut last));
    assert_eq!(last, 1000);
    assert!(!throttled_repaint(1999, &mut last));
    assert_eq!(last, 1000);
    assert!(throttled_repaint(2500, &mut last));
    assert_eq!(last, 2500);
}

#[test]
fn repaint_survives_a_clock_that_reads_less() {
    let mut last = 5000u64;
    assert!(!throttled_repaint(0, &mut last));
    assert_eq!(last, 5000);
}

#[test]
fn stamp_keeps_the_low_bits() {
    assert_eq!(stamp(1234), 1234);
    assert_eq!(stamp(u64::MAX as u128), u64::MAX);
    assert_eq!(stamp(u64::MAX as u128 + 8), 7);
}

#[test]
fn now_counts_up() {
    let epoch = Instant::now();
    let first = now_ms(&epoch);
    let mut later = now_ms(&epoch);
    while later < first + 2 {
        later = now_ms(&epoch);
    }
    assert!(later >= first + 2);
    assert!(later < 20_000);
}
