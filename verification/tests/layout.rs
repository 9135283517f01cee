use rust_pose_1_rust_only::layout::{
    at, best_prediction, cell_index, detect_layout, has_pose_channels, keypoint_channels, letterbox_padding,
    LayoutError, Padding,
};

#[test]
fn layout_channel_first_on_second_axis() {
    assert_eq!(detect_layout(3, 56, 8400, 1, 1), Ok((56, 8400, true)));
}

#[test]
fn layout_channel_last_on_third_axis() {
    assert_eq!(detect_layout(3, 8400, 56, 1, 1), Ok((56, 8400, false)));
}

#[test]
fn layout_from_rows_and_columns() {
    assert_eq!(detect_layout(2, 0, 0, 56, 100), Ok((56, 100, true)));
    assert_eq!(detect_layout(2, 0, 0, 100, 56), Ok((56, 100, false)));
    assert_eq!(detect_layout(2, 0, 0, 56, -4), Ok((56, 0, true)));
    assert_eq!(detect_layout(3, 1, 2, 56, 7), Ok((56, 7, true)));
}

#[test]
fn layout_ignores_axes_of_a_flat_output() {
    assert_eq!(detect_layout(2, 56, 9, 3, 4), Err(LayoutError::UnsupportedShape));
}

#[test]
fn layout_unsupported() {
    assert_eq!(detect_layout(3, 57, 8400, 1, 1), Err(LayoutError::UnsupportedShape));
    assert_eq!(detect_layout(4, 1, 1, -56, 1), Err(LayoutError::UnsupportedShape));
}

#[test]
fn layout_negative_size_wraps() {
    assert_eq!(detect_layout(3, 56, -1, 0, 0), Ok((56, usize::MAX, true)));
}

#[test]
fn pose_channels_needed() {
    assert!(has_pose_channels(56, 1));
    assert!(!has_pose_channels(55, 10));
    assert!(!has_pose_channels(56, 0));
}

#[test]
fn values_by_layout() {
    // 3 predictions of 2 channels.
    let channel_first: Vec<f32> = vec![0.0, 0.1, 0.2, 1.0, 1.1, 1.2];
    let channel_last: Vec<f32> = vec![0.0, 1.0, 0.1, 1.1, 0.2, 1.2];
    for p in 0..3 {
        for c in 0..2 {
            assert_eq!(
                at(&channel_first, 2, 3, p, c, true),
                at(&channel_last, 2, 3, p, c, false)
            );
        }
    }
    assert_eq!(at(&channel_first, 2, 3, 2, 1, true), 1.2);
    assert_eq!(at(&channel_last, 2, 3, 1, 0, false), 0.1);
}

#[test]
fn keypoint_channel_numbers() {
    assert_eq!(keypoint_channels(0), (5, 6, 7));
    assert_eq!(keypoint_channels(8), (29, 30, 31));
    assert_eq!(keypoint_channels(16), (53, 54, 55));
}

#[test]
fn best_prediction_is_first_maximum_above_threshold() {
    assert_eq!(best_prediction(&[0, 5, 9, 9, 3], 4), Some(2));
    assert_eq!(best_prediction(&[7, 1, 2], 0), Some(0));
}

#[test]
fn no_prediction_above_threshold() {
    assert_eq!(best_prediction(&[0, 5, 9, 9, 3], 9), None);
    assert_eq!(best_prediction(&[0, 0], 0), None);
    assert_eq!(best_prediction(&[], 0), None);
}

#[test]
fn padding_of_a_wide_frame() {
    assert_eq!(
        letterbox_padding(640, 640, 480),
        Padding { top: 80, bottom: 80, left: 0, right: 0 }
    );
}

#[test]
fn padding_of_an_odd_gap() {
    assert_eq!(
        letterbox_padding(640, 640, 481),
        Padding { top: 79, bottom: 80, left: 0, right: 0 }
    );
}

#[test]
fn padding_of_a_negative_gap() {
    assert_eq!(
        letterbox_padding(10, 13, 10),
        Padding { top: 0, bottom: 0, left: -1, right: -2 }
    );
}

#[test]
fn cell_positions_inside_and_outside() {
    assert_eq!(cell_index(2, 3, 2, 1, true, 6), Some(5));
    assert_eq!(cell_index(2, 3, 1, 0, false, 6), Some(2));
    assert_eq!(cell_index(2, 3, 2, 2, true, 6), None);
    assert_eq!(cell_index(56, usize::MAX, 1, 55, true, usize::MAX), None);
}
