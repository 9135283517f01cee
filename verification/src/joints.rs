//! Keypoint lookup on the COCO body layout: the right arm, and the skeleton
//! segments and points that an overlay draws.
//!
//! A joint is seen here through what the logic reads of a keypoint: its
//! COCO index and whether its score is positive.

use vstd::prelude::*;

verus! {

/// The number of keypoints of the COCO body layout.
pub const KEYPOINT_COUNT: usize = 17;

/// COCO index of the right shoulder.
pub const RIGHT_SHOULDER: u8 = 6;

/// COCO index of the right elbow.
pub const RIGHT_ELBOW: u8 = 8;

/// COCO index of the right wrist.
pub const RIGHT_WRIST: u8 = 10;

/// What the selection logic reads of a keypoint: its COCO index, and
/// whether its score is positive.
#[derive(Clone, Copy, Debug, PartialEq, Eq, Structural)]
pub struct JointRef {
    pub idx: u8,
    pub visible: bool,
}

/// Joints with COCO index `idx`.
pub open spec fn with_idx(idx: u8) -> spec_fn(JointRef) -> bool {
    |j: JointRef| j.idx == idx
}

/// Visible joints with COCO index `idx`.
pub open spec fn visible_with_idx(idx: u8) -> spec_fn(JointRef) -> bool {
    |j: JointRef| j.idx == idx && j.visible
}

/// `p` is the first position of `joints` whose joint satisfies `pred`.
pub open spec fn is_first_where(joints: Seq<JointRef>, pred: spec_fn(JointRef) -> bool, p: int) -> bool {
    &&& 0 <= p < joints.len()
    &&& pred(joints[p])
    &&& forall|k: int| 0 <= k < p ==> !pred(#[trigger] joints[k])
}

/// The first position of `joints` whose joint satisfies `pred`, if any.
pub open spec fn first_where(joints: Seq<JointRef>, pred: spec_fn(JointRef) -> bool) -> Option<int> {
    if exists|p: int| is_first_where(joints, pred, p) {
        Some(choose|p: int| is_first_where(joints, pred, p))
    } else {
        None
    }
}

/// The positions of the right shoulder, elbow and wrist (the first joint with
/// each index), when all three are present and visible.
pub open spec fn right_arm(joints: Seq<JointRef>) -> Option<(int, int, int)> {
    match (
        first_where(joints, with_idx(RIGHT_SHOULDER)),
        first_where(joints, with_idx(RIGHT_ELBOW)),
        first_where(joints, with_idx(RIGHT_WRIST)),
    ) {
        (Some(s), Some(e), Some(w)) => if joints[s].visible && joints[e].visible
            && joints[w].visible {
            Some((s, e, w))
        } else {
            None
        },
        _ => None,
    }
}

/// The first position satisfying `pred` is unique.
pub proof fn lemma_first_where_is(joints: Seq<JointRef>, pred: spec_fn(JointRef) -> bool, p: int)
    requires
        is_first_where(joints, pred, p),
    ensures
        first_where(joints, pred) == Some(p),
{
    let q = choose|q: int| is_first_where(joints, pred, q);
    assert(is_first_where(joints, pred, q));
    if q < p {
        assert(!pred(joints[q]));
    } else if p < q {
        assert(!pred(joints[p]));
    }
}

/// Where no joint satisfies `pred`, there is no first one.
pub proof fn lemma_first_where_none(joints: Seq<JointRef>, pred: spec_fn(JointRef) -> bool)
    requires
        forall|k: int| 0 <= k < joints.len() ==> !pred(#[trigger] joints[k]),
    ensures
        first_where(joints, pred) is None,
{
    if exists|p: int| is_first_where(joints, pred, p) {
        let p = choose|p: int| is_first_where(joints, pred, p);
        assert(pred(joints[p]));
    }
}

/// A first match stays first when more joints are appended.
pub proof fn lemma_first_where_appended(
    joints: Seq<JointRef>,
    extra: Seq<JointRef>,
    pred: spec_fn(JointRef) -> bool,
)
    requires
        first_where(joints, pred) is Some,
    ensures
        first_where(joints + extra, pred) == first_where(joints, pred),
{
    let x = choose|x: int| is_first_where(joints, pred, x);
    let all = joints + extra;
    assert(all[x] == joints[x]);
    assert forall|k: int| 0 <= k < x implies !pred(#[trigger] all[k]) by {
        assert(all[k] == joints[k]);
    }
    lemma_first_where_is(all, pred, x);
}

/// Where the position of a joint of `front + back` lands once `mid` is
/// inserted between `front` and `back`.
pub open spec fn shifted(front_len: int, mid_len: int, x: int) -> int {
    if x < front_len { x } else { x + mid_len }
}

/// Inserting joints that never match leaves the first match the same joint:
/// its position only moves past the inserted joints.
pub proof fn lemma_first_where_inserted(
    front: Seq<JointRef>,
    mid: Seq<JointRef>,
    back: Seq<JointRef>,
    pred: spec_fn(JointRef) -> bool,
)
    requires
        forall|k: int| 0 <= k < mid.len() ==> !pred(#[trigger] mid[k]),
    ensures
        match first_where(front + back, pred) {
            Some(x) => first_where(front + mid + back, pred) == Some(
                shifted(front.len() as int, mid.len() as int, x),
            ) && (front + mid + back)[shifted(front.len() as int, mid.len() as int, x)] == (front
                + back)[x],
            None => first_where(front + mid + back, pred) is None,
        },
{
    let small = front + back;
    let big = front + mid + back;
    let f = front.len() as int;
    let m = mid.len() as int;
    assert forall|k: int| 0 <= k < big.len() implies #[trigger] big[k] == (if k < f {
        small[k]
    } else if k < f + m {
        mid[k - f]
    } else {
        small[k - m]
    }) by {
        if k < f {
            assert(big[k] == (front + mid)[k]);
        } else if k < f + m {
            assert(big[k] == (front + mid)[k]);
        } else {
            assert(big[k] == back[k - f - m]);
            assert(small[k - m] == back[k - m - f]);
        }
    }
    match first_where(small, pred) {
        Some(x) => {
            let x = choose|x: int| is_first_where(small, pred, x);
            let y = shifted(f, m, x);
            assert(big[y] == small[x]);
            assert forall|k: int| 0 <= k < y implies !pred(#[trigger] big[k]) by {
                if k < f {
                    assert(!pred(small[k]));
                } else if k < f + m {
                    assert(!pred(mid[k - f]));
                } else {
                    assert(!pred(small[k - m]));
                }
            }
            lemma_first_where_is(big, pred, y);
        },
        None => {
            if exists|y: int| is_first_where(big, pred, y) {
                let y = choose|y: int| is_first_where(big, pred, y);
                if f <= y < f + m {
                    assert(!pred(mid[y - f]));
                }
                let x = if y < f { y } else { y - m };
                assert(small[x] == big[y]);
                assert forall|k: int| 0 <= k < x implies !pred(#[trigger] small[k]) by {
                    if k < f {
                        assert(!pred(big[k]));
                    } else {
                        assert(!pred(big[k + m]));
                    }
                }
                lemma_first_where_is(small, pred, x);
            }
        },
    }
}

/// Only the first joint with each right-arm index counts: appending joints
/// to a list that already has all three changes nothing.
pub proof fn lemma_right_arm_ignores_appended(joints: Seq<JointRef>, extra: Seq<JointRef>)
    requires
        first_where(joints, with_idx(RIGHT_SHOULDER)) is Some,
        first_where(joints, with_idx(RIGHT_ELBOW)) is Some,
        first_where(joints, with_idx(RIGHT_WRIST)) is Some,
    ensures
        right_arm(joints + extra) == right_arm(joints),
{
    lemma_first_where_appended(joints, extra, with_idx(RIGHT_SHOULDER));
    lemma_first_where_appended(joints, extra, with_idx(RIGHT_ELBOW));
    lemma_first_where_appended(joints, extra, with_idx(RIGHT_WRIST));
    let (s, e, w) = (
        first_where(joints, with_idx(RIGHT_SHOULDER)).unwrap(),
        first_where(joints, with_idx(RIGHT_ELBOW)).unwrap(),
        first_where(joints, with_idx(RIGHT_WRIST)).unwrap(),
    );
    let cs = choose|x: int| is_first_where(joints, with_idx(RIGHT_SHOULDER), x);
    let ce = choose|x: int| is_first_where(joints, with_idx(RIGHT_ELBOW), x);
    let cw = choose|x: int| is_first_where(joints, with_idx(RIGHT_WRIST), x);
    assert(s == cs && e == ce && w == cw);
    assert((joints + extra)[s] == joints[s]);
    assert((joints + extra)[e] == joints[e]);
    assert((joints + extra)[w] == joints[w]);
}

/// Joints of other indices do not change the right arm: inserting them
/// anywhere selects the same three joints, at positions moved past them.
pub proof fn lemma_right_arm_ignores_other_indices(
    front: Seq<JointRef>,
    mid: Seq<JointRef>,
    back: Seq<JointRef>,
)
    requires
        forall|k: int|
            0 <= k < mid.len() ==> !is_right_arm_idx(#[trigger] mid[k].idx),
    ensures
        match right_arm(front + back) {
            Some((s, e, w)) => right_arm(front + mid + back) == Some(
                (
                    shifted(front.len() as int, mid.len() as int, s),
                    shifted(front.len() as int, mid.len() as int, e),
                    shifted(front.len() as int, mid.len() as int, w),
                ),
            ),
            None => right_arm(front + mid + back) is None,
        },
{
    assert forall|k: int| 0 <= k < mid.len() implies !with_idx(RIGHT_SHOULDER)(#[trigger] mid[k]) by {
        assert(!is_right_arm_idx(mid[k].idx));
    }
    assert forall|k: int| 0 <= k < mid.len() implies !with_idx(RIGHT_ELBOW)(#[trigger] mid[k]) by {
        assert(!is_right_arm_idx(mid[k].idx));
    }
    assert forall|k: int| 0 <= k < mid.len() implies !with_idx(RIGHT_WRIST)(#[trigger] mid[k]) by {
        assert(!is_right_arm_idx(mid[k].idx));
    }
    lemma_first_where_inserted(front, mid, back, with_idx(RIGHT_SHOULDER));
    lemma_first_where_inserted(front, mid, back, with_idx(RIGHT_ELBOW));
    lemma_first_where_inserted(front, mid, back, with_idx(RIGHT_WRIST));
}

/// `idx` is the COCO index of the right shoulder, elbow or wrist.
pub open spec fn is_right_arm_idx(idx: u8) -> bool {
    idx == RIGHT_SHOULDER || idx == RIGHT_ELBOW || idx == RIGHT_WRIST
}

/// The right arm is made of the first shoulder, the first elbow and the
/// first wrist, and is found exactly when those three joints are all visible:
/// an unseen shoulder, elbow or wrist means no arm.
pub proof fn lemma_right_arm_is_first_visible_triple(joints: Seq<JointRef>)
    ensures
        right_arm(joints) matches Some((s, e, w)) ==> {
            &&& is_first_where(joints, with_idx(RIGHT_SHOULDER), s)
            &&& is_first_where(joints, with_idx(RIGHT_ELBOW), e)
            &&& is_first_where(joints, with_idx(RIGHT_WRIST), w)
            &&& joints[s].visible && joints[e].visible && joints[w].visible
        },
        forall|s: int, e: int, w: int|
            #![trigger is_first_where(joints, with_idx(RIGHT_SHOULDER), s), is_first_where(joints, with_idx(RIGHT_ELBOW), e), is_first_where(joints, with_idx(RIGHT_WRIST), w)]
            is_first_where(joints, with_idx(RIGHT_SHOULDER), s) && is_first_where(
                joints,
                with_idx(RIGHT_ELBOW),
                e,
            ) && is_first_where(joints, with_idx(RIGHT_WRIST), w) ==> (right_arm(joints) == Some(
                (s, e, w),
            ) <==> (joints[s].visible && joints[e].visible && joints[w].visible)),
{
    if let Some((s, e, w)) = right_arm(joints) {
        let cs = choose|x: int| is_first_where(joints, with_idx(RIGHT_SHOULDER), x);
        let ce = choose|x: int| is_first_where(joints, with_idx(RIGHT_ELBOW), x);
        let cw = choose|x: int| is_first_where(joints, with_idx(RIGHT_WRIST), x);
        assert(s == cs && e == ce && w == cw);
    }
    assert forall|s: int, e: int, w: int|
        #![trigger is_first_where(joints, with_idx(RIGHT_SHOULDER), s), is_first_where(joints, with_idx(RIGHT_ELBOW), e), is_first_where(joints, with_idx(RIGHT_WRIST), w)]
        is_first_where(joints, with_idx(RIGHT_SHOULDER), s) && is_first_where(
            joints,
            with_idx(RIGHT_ELBOW),
            e,
        ) && is_first_where(joints, with_idx(RIGHT_WRIST), w) implies (right_arm(joints) == Some(
        (s, e, w),
    ) <==> (joints[s].visible && joints[e].visible && joints[w].visible)) by {
        lemma_first_where_is(joints, with_idx(RIGHT_SHOULDER), s);
        lemma_first_where_is(joints, with_idx(RIGHT_ELBOW), e);
        lemma_first_where_is(joints, with_idx(RIGHT_WRIST), w);
    }
}

/// The position of the first joint with COCO index `idx`.
pub fn find_joint(joints: &[JointRef], idx: u8) -> (r: Option<usize>)
    ensures
        match r {
            Some(p) => first_where(joints@, with_idx(idx)) == Some(p as int),
            None => first_where(joints@, with_idx(idx)) is None,
        },
{
    let ghost pred = with_idx(idx);
    let mut i: usize = 0;
    while i < joints.len()
        invariant
            i <= joints@.len(),
            pred == with_idx(idx),
            forall|k: int| 0 <= k < i ==> !pred(#[trigger] joints@[k]),
        decreases joints@.len() - i,
    {
        if joints[i].idx == idx {
            proof {
                lemma_first_where_is(joints@, pred, i as int);
            }
            return Some(i);
        }
        i = i + 1;
    }
    proof {
        lemma_first_where_none(joints@, pred);
    }
    None
}

/// The position of the first visible joint with COCO index `idx`.
pub fn find_visible_joint(joints: &[JointRef], idx: u8) -> (r: Option<usize>)
    ensures
        match r {
            Some(p) => first_where(joints@, visible_with_idx(idx)) == Some(p as int),
            None => first_where(joints@, visible_with_idx(idx)) is None,
        },
{
    let ghost pred = visible_with_idx(idx);
    let mut i: usize = 0;
    while i < joints.len()
        invariant
            i <= joints@.len(),
            pred == visible_with_idx(idx),
            forall|k: int| 0 <= k < i ==> !pred(#[trigger] joints@[k]),
        decreases joints@.len() - i,
    {
        if joints[i].idx == idx && joints[i].visible {
            proof {
                lemma_first_where_is(joints@, pred, i as int);
            }
            return Some(i);
        }
        i = i + 1;
    }
    proof {
        lemma_first_where_none(joints@, pred);
    }
    None
}

/// The positions of the right shoulder, elbow and wrist, taking for each the
/// first joint with its index; `None` when one of them is missing or one of
/// those three joints is not visible.
pub fn right_arm_joints(joints: &[JointRef]) -> (r: Option<(usize, usize, usize)>)
    ensures
        match r {
            Some((s, e, w)) => right_arm(joints@) == Some((s as int, e as int, w as int)),
            None => right_arm(joints@) is None,
        },
        r matches Some((s, e, w)) ==> {
            &&& s < joints@.len() && e < joints@.len() && w < joints@.len()
            &&& joints@[s as int].idx == RIGHT_SHOULDER && joints@[s as int].visible
            &&& joints@[e as int].idx == RIGHT_ELBOW && joints@[e as int].visible
            &&& joints@[w as int].idx == RIGHT_WRIST && joints@[w as int].visible
        },
        forall|s: int, e: int, w: int|
            #![trigger is_first_where(joints@, with_idx(RIGHT_SHOULDER), s), is_first_where(joints@, with_idx(RIGHT_ELBOW), e), is_first_where(joints@, with_idx(RIGHT_WRIST), w)]
            is_first_where(joints@, with_idx(RIGHT_SHOULDER), s) && is_first_where(
                joints@,
                with_idx(RIGHT_ELBOW),
                e,
            ) && is_first_where(joints@, with_idx(RIGHT_WRIST), w) ==> (r == Some(
                (s as usize, e as usize, w as usize),
            ) <==> (joints@[s].visible && joints@[e].visible && joints@[w].visible)),
{
    proof {
        lemma_right_arm_is_first_visible_triple(joints@);
    }
    let s = match find_joint(joints, RIGHT_SHOULDER) {
        Some(p) => p,
        None => return None,
    };
    let e = match find_joint(joints, RIGHT_ELBOW) {
        Some(p) => p,
        None => return None,
    };
    let w = match find_joint(joints, RIGHT_WRIST) {
        Some(p) => p,
        None => return None,
    };
    if !joints[s].visible || !joints[e].visible || !joints[w].visible {
        return None;
    }
    Some((s, e, w))
}

} // verus!
