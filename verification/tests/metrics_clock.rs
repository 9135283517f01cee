use rust_pose_1_rust_only::clock::{epoch_millis, millis_to_u64, now_ms};
use rust_pose_1_rust_only::metrics::FpsWindow;

#[test]
fn window_of_three_closes_every_third_tick() {
    let mut w = FpsWindow::new(3);
    let mut closed = Vec::new();
    for _ in 0..9 {
        closed.push(w.tick().map(|(frames, _)| frames));
    }
    assert_eq!(
        closed,
        vec![None, None, Some(3), None, None, Some(3), None, None, Some(3)]
    );
}

#[test]
fn window_size_zero_is_raised_to_one() {
    let mut w = FpsWindow::new(0);
    assert_eq!(w.tick().map(|(frames, _)| frames), Some(1));
    assert_eq!(w.tick().map(|(frames, _)| frames), Some(1));
}

#[test]
fn window_of_one_closes_every_tick() {
    let mut w = FpsWindow::new(1);
    for _ in 0..4 {
        assert_eq!(w.tick().map(|(frames, _)| frames), Some(1));
    }
}

#[test]
fn closed_window_reports_a_time_span() {
    let before = std::time::Instant::now();
    let mut w = FpsWindow::new(2);
    assert!(w.tick().is_none());
    let (frames, elapsed) = w.tick().unwrap();
    assert_eq!(frames, 2);
    assert!(elapsed <= before.elapsed());
}

#[test]
fn millis_keep_their_low_64_bits() {
    assert_eq!(millis_to_u64(1_725_029_869_000), 1_725_029_869_000);
    assert_eq!(millis_to_u64((1u128 << 64) + 42), 42);
    assert_eq!(millis_to_u64(u128::MAX), u64::MAX);
}

#[test]
fn now_is_after_2020() {
    let t = now_ms();
    assert!(t > 1_577_836_800_000);
    assert!(now_ms() >= t);
}

#[test]
fn stamp_of_a_reading() {
    assert_eq!(epoch_millis(Some(1_725_029_869_000)), 1_725_029_869_000);
    assert_eq!(epoch_millis(Some((1u128 << 64) + 7)), 7);
    assert_eq!(epoch_millis(None), 0);
}

#[test]
fn closing_a_window_reports_the_span_given() {
    let start = std::time::Instant::now();
    let mut w = FpsWindow::new_at(1, start);
    let span = std::time::Duration::from_millis(40);
    assert_eq!(w.close_window(span, start), (1, span));
    assert_eq!(w.tick().map(|(frames, _)| frames), Some(1));
}

#[test]
fn window_started_at_a_reading() {
    let start = std::time::Instant::now();
    let mut w = FpsWindow::new_at(2, start);
    assert!(w.tick().is_none());
    let (frames, elapsed) = w.tick().unwrap();
    assert_eq!(frames, 2);
    assert!(elapsed <= start.elapsed());
}
