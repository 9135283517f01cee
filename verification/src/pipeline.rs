//! Frames of the pose pipeline and the fixed parts of the mock estimator.

use crate::clock::now_ms;
use crate::joints::{is_right_arm_idx, RIGHT_ELBOW, RIGHT_SHOULDER, RIGHT_WRIST};
use vstd::prelude::*;

verus! {

/// One frame of the pipeline: its tags, its number, when it was built, and
/// the people found in it.
pub struct PoseFrame<P> {
    pub event: &'static str,
    pub source: &'static str,
    pub frame_id: u64,
    pub ts_ms: u64,
    pub people: Vec<P>,
}

/// Builds frame `frame_id` of the mock pipeline from the people found in it,
/// stamped with the time `ts_ms`.
pub fn build_frame_at<P>(frame_id: u64, people: Vec<P>, ts_ms: u64) -> (r: PoseFrame<P>)
    ensures
        r.event@ == "pose_frame"@,
        r.source@ == "rust-only-mock"@,
        r.frame_id == frame_id,
        r.ts_ms == ts_ms,
        r.people == people,
{
    PoseFrame { event: "pose_frame", source: "rust-only-mock", frame_id, ts_ms, people }
}

/// Builds frame `frame_id` of the mock pipeline from the people found in it,
/// stamped with the current wall-clock time in milliseconds (see `now_ms`).
pub fn build_frame<P>(frame_id: u64, people: Vec<P>) -> (r: PoseFrame<P>)
    ensures
        r.event@ == "pose_frame"@,
        r.source@ == "rust-only-mock"@,
        r.frame_id == frame_id,
        r.people == people,
{
    build_frame_at(frame_id, people, now_ms())
}

/// The id the mock estimator gives the person of frame `frame_id`.
pub fn mock_person_id(frame_id: u64) -> (r: u32)
    ensures
        r == frame_id % 4,
{
    (frame_id % 4) as u32
}

/// The keypoint indices of the mock estimator once the indices below `n`
/// have been gone through: the right arm, then every other index below `n`
/// in increasing order.
pub open spec fn mock_order_upto(n: nat) -> Seq<u8>
    decreases n,
{
    if n == 0 {
        seq![RIGHT_SHOULDER, RIGHT_ELBOW, RIGHT_WRIST]
    } else {
        let before = mock_order_upto((n - 1) as nat);
        if is_right_arm_idx((n - 1) as u8) {
            before
        } else {
            before.push((n - 1) as u8)
        }
    }
}

/// The keypoint indices of a mock person, in the order in which its
/// keypoints are listed.
pub open spec fn mock_order() -> Seq<u8> {
    seq![6u8, 8u8, 10u8, 0u8, 1u8, 2u8, 3u8, 4u8, 5u8, 7u8, 9u8, 11u8, 12u8, 13u8, 14u8, 15u8, 16u8]
}

proof fn lemma_mock_order_upto_17()
    ensures
        mock_order_upto(17) == mock_order(),
{
    reveal_with_fuel(mock_order_upto, 18);
    assert(mock_order_upto(17) =~= mock_order());
}

/// The keypoint indices of a mock person, in order: the right shoulder,
/// elbow and wrist, then every other COCO index in increasing order.
pub fn mock_keypoint_order() -> (r: Vec<u8>)
    ensures
        r@ == mock_order(),
{
    let mut order: Vec<u8> = vec![RIGHT_SHOULDER, RIGHT_ELBOW, RIGHT_WRIST];
    let mut idx: u8 = 0;
    assert(order@ =~= mock_order_upto(0));
    while idx < 17
        invariant
            idx <= 17,
            order@ == mock_order_upto(idx as nat),
        decreases 17 - idx,
    {
        if !(idx == RIGHT_SHOULDER || idx == RIGHT_ELBOW || idx == RIGHT_WRIST) {
            order.push(idx);
        }
        idx = idx + 1;
    }
    proof {
        lemma_mock_order_upto_17();
    }
    order
}

/// A mock person lists each of the 17 COCO keypoints exactly once, the right
/// arm first.
pub proof fn lemma_mock_order_is_permutation()
    ensures
        mock_order().len() == 17,
        mock_order().take(3) == seq![RIGHT_SHOULDER, RIGHT_ELBOW, RIGHT_WRIST],
        forall|i: int| 0 <= i < 17 ==> #[trigger] mock_order()[i] < 17,
        forall|i: int, j: int| 0 <= i < j < 17 ==> #[trigger] mock_order()[i] != #[trigger] mock_order()[j],
{
    assert(mock_order().take(3) =~= seq![RIGHT_SHOULDER, RIGHT_ELBOW, RIGHT_WRIST]);
}

} // verus!
