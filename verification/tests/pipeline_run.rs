use rust_pose_1_rust_only::camera::{capture_frame, CaptureError, CaptureFrame};
use rust_pose_1_rust_only::pipeline::{build_frame, build_frame_at, mock_keypoint_order, mock_person_id};
use rust_pose_1_rust_only::run::{is_last_frame, is_report_frame, run_settings, RunSettings};

#[test]
fn frame_tags_and_people() {
    let frame = build_frame(7, vec!["a", "b"]);
    assert_eq!(frame.event, "pose_frame");
    assert_eq!(frame.source, "rust-only-mock");
    assert_eq!(frame.frame_id, 7);
    assert_eq!(frame.people, vec!["a", "b"]);
    assert!(frame.ts_ms > 1_577_836_800_000);
}

#[test]
fn mock_ids_cycle_through_four() {
    assert_eq!(mock_person_id(0), 0);
    assert_eq!(mock_person_id(10), 2);
    assert_eq!(mock_person_id(u64::MAX), 3);
}

#[test]
fn mock_order_puts_right_arm_first() {
    assert_eq!(
        mock_keypoint_order(),
        vec![6, 8, 10, 0, 1, 2, 3, 4, 5, 7, 9, 11, 12, 13, 14, 15, 16]
    );
}

#[test]
fn empty_capture_is_an_error() {
    assert_eq!(capture_frame(true, 640, 480, 5), Err(CaptureError::EmptyFrame));
}

#[test]
fn capture_sizes() {
    assert_eq!(
        capture_frame(false, 640, 480, 5),
        Ok(CaptureFrame { width: 640, height: 480, ts_ms: 5 })
    );
    assert_eq!(
        capture_frame(false, -3, 480, 9),
        Ok(CaptureFrame { width: 0, height: 480, ts_ms: 9 })
    );
}

#[test]
fn settings_lower_bounds() {
    assert_eq!(
        run_settings(0, 0, 5),
        RunSettings { fps_target: 1, report_every: 1, max_frames: 5 }
    );
    assert_eq!(
        run_settings(30, 60, 0),
        RunSettings { fps_target: 30, report_every: 60, max_frames: 0 }
    );
}

#[test]
fn report_every_sixty_frames() {
    let s = run_settings(30, 60, 0);
    assert!(is_report_frame(&s, 0));
    assert!(!is_report_frame(&s, 59));
    assert!(is_report_frame(&s, 120));
}

#[test]
fn run_of_three_frames() {
    let s = run_settings(30, 60, 3);
    assert!(!is_last_frame(&s, 0));
    assert!(!is_last_frame(&s, 1));
    assert!(is_last_frame(&s, 2));
}

#[test]
fn unlimited_run_never_stops() {
    let s = run_settings(30, 60, 0);
    assert!(!is_last_frame(&s, 0));
    assert!(!is_last_frame(&s, u64::MAX - 1));
}

#[test]
fn frame_stamped_at_given_time() {
    let frame = build_frame_at(3, vec![1u32, 2, 3], 1_725_029_869_000);
    assert_eq!(frame.event, "pose_frame");
    assert_eq!(frame.source, "rust-only-mock");
    assert_eq!(frame.frame_id, 3);
    assert_eq!(frame.ts_ms, 1_725_029_869_000);
    assert_eq!(frame.people, vec![1, 2, 3]);
}
