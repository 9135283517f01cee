use rust_pose_1_rust_only::joints::{find_joint, find_visible_joint, right_arm_joints, JointRef};
use rust_pose_1_rust_only::skeleton::{is_quit_key, skeleton_edges, skeleton_plan};

fn j(idx: u8, visible: bool) -> JointRef {
    JointRef { idx, visible }
}

#[test]
fn finds_first_joint_by_index() {
    let joints = vec![j(3, false), j(6, false), j(6, true)];
    assert_eq!(find_joint(&joints, 6), Some(1));
    assert_eq!(find_joint(&joints, 3), Some(0));
    assert_eq!(find_joint(&joints, 9), None);
    assert_eq!(find_joint(&[], 6), None);
}

#[test]
fn finds_first_visible_joint_by_index() {
    let joints = vec![j(3, false), j(6, false), j(6, true)];
    assert_eq!(find_visible_joint(&joints, 6), Some(2));
    assert_eq!(find_visible_joint(&joints, 3), None);
}

#[test]
fn right_arm_of_visible_joints() {
    let joints = vec![j(6, true), j(8, true), j(10, true), j(0, false)];
    assert_eq!(right_arm_joints(&joints), Some((0, 1, 2)));
    let shuffled = vec![j(0, false), j(10, true), j(8, true), j(6, true)];
    assert_eq!(right_arm_joints(&shuffled), Some((3, 2, 1)));
}

#[test]
fn right_arm_missing_a_joint() {
    let joints = vec![j(6, true), j(10, true)];
    assert_eq!(right_arm_joints(&joints), None);
}

#[test]
fn right_arm_uses_first_joint_even_if_hidden() {
    let joints = vec![j(6, true), j(8, false), j(10, true), j(8, true)];
    assert_eq!(right_arm_joints(&joints), None);
}

#[test]
fn coco_has_sixteen_bones() {
    let edges = skeleton_edges();
    assert_eq!(edges.len(), 16);
    assert_eq!(edges[0], (0, 1));
    assert_eq!(edges[8], (8, 10));
    assert_eq!(edges[15], (14, 16));
}

#[test]
fn plan_of_a_full_skeleton() {
    let joints: Vec<JointRef> = (0..17u8).map(|i| j(i, true)).collect();
    let plan = skeleton_plan(&joints);
    let expected: Vec<(usize, usize)> = skeleton_edges()
        .iter()
        .map(|&(a, b)| (a as usize, b as usize))
        .collect();
    assert_eq!(plan.lines, expected);
    assert_eq!(plan.points, (0..17usize).collect::<Vec<_>>());
}

#[test]
fn plan_of_the_right_arm_only() {
    let mut joints = vec![j(6, true), j(8, true), j(10, true)];
    for i in 0..17u8 {
        if i != 6 && i != 8 && i != 10 {
            joints.push(j(i, false));
        }
    }
    let plan = skeleton_plan(&joints);
    assert_eq!(plan.lines, vec![(0, 1), (1, 2)]);
    assert_eq!(plan.points, vec![0, 1, 2]);
}

#[test]
fn plan_of_nobody() {
    let plan = skeleton_plan(&[]);
    assert!(plan.lines.is_empty());
    assert!(plan.points.is_empty());
}

#[test]
fn quit_keys() {
    assert!(is_quit_key(113));
    assert!(is_quit_key(81));
    assert!(!is_quit_key(27));
    assert!(!is_quit_key(-1));
}

#[test]
fn right_arm_ignores_appended_joints() {
    let joints = vec![j(6, true), j(8, true), j(10, true)];
    let mut longer = joints.clone();
    longer.extend([j(6, false), j(8, false), j(10, false), j(3, true)]);
    assert_eq!(right_arm_joints(&longer), right_arm_joints(&joints));
}

#[test]
fn right_arm_ignores_other_indices_inserted() {
    let plain = vec![j(6, true), j(8, true), j(10, true)];
    let padded = vec![j(6, true), j(0, true), j(1, false), j(8, true), j(10, true)];
    assert_eq!(right_arm_joints(&plain), Some((0, 1, 2)));
    assert_eq!(right_arm_joints(&padded), Some((0, 3, 4)));
}
