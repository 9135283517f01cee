//! What the overlay draws for one person: a line for each COCO bone whose
//! two joints are visible, and a point for each visible joint.

use crate::joints::{
    find_visible_joint, first_where, is_first_where, lemma_first_where_is, visible_with_idx, JointRef,
};
use vstd::prelude::*;

verus! {

/// The bones of the COCO body layout, as pairs of keypoint indices, in the
/// order in which they are drawn.
pub open spec fn coco_edges() -> Seq<(u8, u8)> {
    seq![
        (0u8, 1u8),
        (0u8, 2u8),
        (1u8, 3u8),
        (2u8, 4u8),
        (5u8, 6u8),
        (5u8, 7u8),
        (7u8, 9u8),
        (6u8, 8u8),
        (8u8, 10u8),
        (5u8, 11u8),
        (6u8, 12u8),
        (11u8, 12u8),
        (11u8, 13u8),
        (13u8, 15u8),
        (12u8, 14u8),
        (14u8, 16u8),
    ]
}

/// COCO numbers the keypoints in left–right pairs: each odd index is a
/// left keypoint and the next even index is the same keypoint on the right;
/// 0 is the nose. `mirror` swaps a keypoint with its other-side twin.
pub open spec fn mirror(i: int) -> int {
    if i == 0 {
        0
    } else if i % 2 == 1 {
        i + 1
    } else {
        i - 1
    }
}

/// The side of the body of a keypoint: 0 for the nose, 1 for the left, 2 for the right.
pub open spec fn body_side(i: int) -> int {
    if i == 0 {
        0
    } else if i % 2 == 1 {
        1
    } else {
        2
    }
}

/// The bone joining the other-side twins of the ends of `bone`, lower index first.
pub open spec fn mirror_bone(bone: (u8, u8)) -> (u8, u8) {
    let a = mirror(bone.0 as int);
    let b = mirror(bone.1 as int);
    if a <= b {
        (a as u8, b as u8)
    } else {
        (b as u8, a as u8)
    }
}

/// The ends of the body: the ears (3, 4), the wrists (9, 10) and the ankles (15, 16).
pub open spec fn is_extremity(i: int) -> bool {
    i == 3 || i == 4 || i == 9 || i == 10 || i == 15 || i == 16
}

/// `x` is one of the two ends of `bone`.
pub open spec fn is_end_of(x: int, bone: (u8, u8)) -> bool {
    bone.0 == x || bone.1 == x
}

/// The bones of the COCO layout, one by one.
proof fn lemma_coco_edge_values()
    ensures
        coco_edges().len() == 16,
        coco_edges()[0] == (0u8, 1u8),
        coco_edges()[1] == (0u8, 2u8),
        coco_edges()[2] == (1u8, 3u8),
        coco_edges()[3] == (2u8, 4u8),
        coco_edges()[4] == (5u8, 6u8),
        coco_edges()[5] == (5u8, 7u8),
        coco_edges()[6] == (7u8, 9u8),
        coco_edges()[7] == (6u8, 8u8),
        coco_edges()[8] == (8u8, 10u8),
        coco_edges()[9] == (5u8, 11u8),
        coco_edges()[10] == (6u8, 12u8),
        coco_edges()[11] == (11u8, 12u8),
        coco_edges()[12] == (11u8, 13u8),
        coco_edges()[13] == (13u8, 15u8),
        coco_edges()[14] == (12u8, 14u8),
        coco_edges()[15] == (14u8, 16u8),
{
}

/// The place of `bone` in the COCO list (16 when it is not there).
spec fn coco_position(bone: (u8, u8)) -> int {
    if bone == (0u8, 1u8) {
        0
    } else if bone == (0u8, 2u8) {
        1
    } else if bone == (1u8, 3u8) {
        2
    } else if bone == (2u8, 4u8) {
        3
    } else if bone == (5u8, 6u8) {
        4
    } else if bone == (5u8, 7u8) {
        5
    } else if bone == (7u8, 9u8) {
        6
    } else if bone == (6u8, 8u8) {
        7
    } else if bone == (8u8, 10u8) {
        8
    } else if bone == (5u8, 11u8) {
        9
    } else if bone == (6u8, 12u8) {
        10
    } else if bone == (11u8, 12u8) {
        11
    } else if bone == (11u8, 13u8) {
        12
    } else if bone == (13u8, 15u8) {
        13
    } else if bone == (12u8, 14u8) {
        14
    } else if bone == (14u8, 16u8) {
        15
    } else {
        16
    }
}

/// The COCO skeleton has 16 bones, each between two of the 17 keypoints
/// (lower index first), and no bone twice.
pub proof fn lemma_coco_bones_distinct()
    ensures
        coco_edges().len() == 16,
        forall|k: int|
            0 <= k < 16 ==> (#[trigger] coco_edges()[k]).0 < coco_edges()[k].1 < 17,
        forall|k1: int, k2: int|
            0 <= k1 < 16 && 0 <= k2 < 16 && #[trigger] coco_edges()[k1] == #[trigger] coco_edges()[k2]
                ==> k1 == k2,
{
    lemma_coco_edge_values();
    let e = coco_edges();
    assert forall|k: int| 0 <= k < 16 implies coco_position(#[trigger] e[k]) == k && e[k].0 < e[k].1 < 17 by {
        if k == 0 {
            assert(coco_position(e[k]) == k);
        } else if k == 1 {
            assert(coco_position(e[k]) == k);
        } else if k == 2 {
            assert(coco_position(e[k]) == k);
        } else if k == 3 {
            assert(coco_position(e[k]) == k);
        } else if k == 4 {
            assert(coco_position(e[k]) == k);
        } else if k == 5 {
            assert(coco_position(e[k]) == k);
        } else if k == 6 {
            assert(coco_position(e[k]) == k);
        } else if k == 7 {
            assert(coco_position(e[k]) == k);
        } else if k == 8 {
            assert(coco_position(e[k]) == k);
        } else if k == 9 {
            assert(coco_position(e[k]) == k);
        } else if k == 10 {
            assert(coco_position(e[k]) == k);
        } else if k == 11 {
            assert(coco_position(e[k]) == k);
        } else if k == 12 {
            assert(coco_position(e[k]) == k);
        } else if k == 13 {
            assert(coco_position(e[k]) == k);
        } else if k == 14 {
            assert(coco_position(e[k]) == k);
        } else if k == 15 {
            assert(coco_position(e[k]) == k);
        }
    }
    assert forall|k1: int, k2: int| 0 <= k1 < 16 && 0 <= k2 < 16 && #[trigger] e[k1] == #[trigger] e[k2] implies k1 == k2 by {
        assert(coco_position(e[k1]) == k1);
        assert(coco_position(e[k2]) == k2);
    }
}

/// Each bone of the COCO skeleton joins two keypoints of one side, or the
/// nose to an eye, or a keypoint to its twin on the other side (the
/// shoulders, the hips); and the skeleton is the same on both sides: the
/// mirror image of each bone is a bone.
pub proof fn lemma_coco_bones_symmetric()
    ensures
        forall|k: int|
            0 <= k < 16 ==> {
                let (a, b) = #[trigger] coco_edges()[k];
                ||| body_side(a as int) == body_side(b as int)
                ||| a == 0 && (b == 1 || b == 2)
                ||| b == mirror(a as int)
            },
        forall|k: int|
            0 <= k < 16 ==> coco_edges().contains(mirror_bone(#[trigger] coco_edges()[k])),
{
    lemma_coco_edge_values();
    let e = coco_edges();
    assert forall|k: int| 0 <= k < 16 implies {
        let (a, b) = #[trigger] e[k];
        ||| body_side(a as int) == body_side(b as int)
        ||| a == 0 && (b == 1 || b == 2)
        ||| b == mirror(a as int)
    } by {
        if k == 0 {
            assert(e[k] == (0u8, 1u8));
        } else if k == 1 {
            assert(e[k] == (0u8, 2u8));
        } else if k == 2 {
            assert(e[k] == (1u8, 3u8));
        } else if k == 3 {
            assert(e[k] == (2u8, 4u8));
        } else if k == 4 {
            assert(e[k] == (5u8, 6u8));
        } else if k == 5 {
            assert(e[k] == (5u8, 7u8));
        } else if k == 6 {
            assert(e[k] == (7u8, 9u8));
        } else if k == 7 {
            assert(e[k] == (6u8, 8u8));
        } else if k == 8 {
            assert(e[k] == (8u8, 10u8));
        } else if k == 9 {
            assert(e[k] == (5u8, 11u8));
        } else if k == 10 {
            assert(e[k] == (6u8, 12u8));
        } else if k == 11 {
            assert(e[k] == (11u8, 12u8));
        } else if k == 12 {
            assert(e[k] == (11u8, 13u8));
        } else if k == 13 {
            assert(e[k] == (13u8, 15u8));
        } else if k == 14 {
            assert(e[k] == (12u8, 14u8));
        } else if k == 15 {
            assert(e[k] == (14u8, 16u8));
        }
    }
    assert forall|k: int| 0 <= k < 16 implies e.contains(mirror_bone(#[trigger] e[k])) by {
        if k == 0 {
            assert(mirror_bone(e[k]) == e[1]);
        } else if k == 1 {
            assert(mirror_bone(e[k]) == e[0]);
        } else if k == 2 {
            assert(mirror_bone(e[k]) == e[3]);
        } else if k == 3 {
            assert(mirror_bone(e[k]) == e[2]);
        } else if k == 4 {
            assert(mirror_bone(e[k]) == e[4]);
        } else if k == 5 {
            assert(mirror_bone(e[k]) == e[7]);
        } else if k == 6 {
            assert(mirror_bone(e[k]) == e[8]);
        } else if k == 7 {
            assert(mirror_bone(e[k]) == e[5]);
        } else if k == 8 {
            assert(mirror_bone(e[k]) == e[6]);
        } else if k == 9 {
            assert(mirror_bone(e[k]) == e[10]);
        } else if k == 10 {
            assert(mirror_bone(e[k]) == e[9]);
        } else if k == 11 {
            assert(mirror_bone(e[k]) == e[11]);
        } else if k == 12 {
            assert(mirror_bone(e[k]) == e[14]);
        } else if k == 13 {
            assert(mirror_bone(e[k]) == e[15]);
        } else if k == 14 {
            assert(mirror_bone(e[k]) == e[12]);
        } else if k == 15 {
            assert(mirror_bone(e[k]) == e[13]);
        }
    }
}

/// Each ear, wrist and ankle ends exactly one bone of the COCO skeleton.
pub proof fn lemma_coco_extremities_end_one_bone()
    ensures
        forall|x: int|
            is_extremity(x) ==> exists|k: int| 0 <= k < 16 && is_end_of(x, #[trigger] coco_edges()[k]),
        forall|x: int, k1: int, k2: int|
            #![trigger is_end_of(x, coco_edges()[k1]), is_end_of(x, coco_edges()[k2])]
            is_extremity(x) && 0 <= k1 < 16 && 0 <= k2 < 16 && is_end_of(x, coco_edges()[k1])
                && is_end_of(x, coco_edges()[k2]) ==> k1 == k2,
{
    lemma_coco_edge_values();
    let e = coco_edges();
    assert forall|x: int| is_extremity(x) implies exists|k: int| 0 <= k < 16 && is_end_of(x, #[trigger] e[k]) by {
        if x == 0 {

        } else if x == 1 {

        } else if x == 2 {

        } else if x == 3 {
            assert(is_end_of(x, e[2]));
        } else if x == 4 {
            assert(is_end_of(x, e[3]));
        } else if x == 5 {

        } else if x == 6 {

        } else if x == 7 {

        } else if x == 8 {

        } else if x == 9 {
            assert(is_end_of(x, e[6]));
        } else if x == 10 {
            assert(is_end_of(x, e[8]));
        } else if x == 11 {

        } else if x == 12 {

        } else if x == 13 {

        } else if x == 14 {

        } else if x == 15 {
            assert(is_end_of(x, e[13]));
        } else if x == 16 {
            assert(is_end_of(x, e[15]));
        }
    }
    assert forall|x: int, k: int| is_extremity(x) && 0 <= k < 16 && #[trigger] is_end_of(x, e[k]) implies k == (if x == 3 { 2int } else if x == 4 { 3 } else if x == 9 { 6 } else if x == 10 { 8 } else if x == 15 { 13 } else { 15 }) by {
        if k == 0 {
            assert(e[k] == (0u8, 1u8));
        } else if k == 1 {
            assert(e[k] == (0u8, 2u8));
        } else if k == 2 {
            assert(e[k] == (1u8, 3u8));
        } else if k == 3 {
            assert(e[k] == (2u8, 4u8));
        } else if k == 4 {
            assert(e[k] == (5u8, 6u8));
        } else if k == 5 {
            assert(e[k] == (5u8, 7u8));
        } else if k == 6 {
            assert(e[k] == (7u8, 9u8));
        } else if k == 7 {
            assert(e[k] == (6u8, 8u8));
        } else if k == 8 {
            assert(e[k] == (8u8, 10u8));
        } else if k == 9 {
            assert(e[k] == (5u8, 11u8));
        } else if k == 10 {
            assert(e[k] == (6u8, 12u8));
        } else if k == 11 {
            assert(e[k] == (11u8, 12u8));
        } else if k == 12 {
            assert(e[k] == (11u8, 13u8));
        } else if k == 13 {
            assert(e[k] == (13u8, 15u8));
        } else if k == 14 {
            assert(e[k] == (12u8, 14u8));
        } else if k == 15 {
            assert(e[k] == (14u8, 16u8));
        }
    }
}

/// For each bone of `edges` in turn whose two ends have a visible joint,
/// the positions of the first visible joint of each end.
pub open spec fn skeleton_lines(joints: Seq<JointRef>, edges: Seq<(u8, u8)>) -> Seq<(int, int)>
    decreases edges.len(),
{
    if edges.len() == 0 {
        seq![]
    } else {
        let before = skeleton_lines(joints, edges.drop_last());
        let (a, b) = edges.last();
        match (first_where(joints, visible_with_idx(a)), first_where(joints, visible_with_idx(b))) {
            (Some(pa), Some(pb)) => before.push((pa, pb)),
            _ => before,
        }
    }
}

/// The positions of the visible joints, in order.
pub open spec fn visible_points(joints: Seq<JointRef>) -> Seq<int>
    decreases joints.len(),
{
    if joints.len() == 0 {
        seq![]
    } else {
        let before = visible_points(joints.drop_last());
        if joints.last().visible {
            before.push(joints.len() - 1)
        } else {
            before
        }
    }
}

/// Every line of the overlay joins two visible joints whose COCO indices are
/// the two ends of one of the bones.
pub proof fn lemma_lines_join_bone_ends(joints: Seq<JointRef>, edges: Seq<(u8, u8)>)
    ensures
        forall|i: int|
            #![trigger skeleton_lines(joints, edges)[i]]
            0 <= i < skeleton_lines(joints, edges).len() ==> {
                let (p, q) = skeleton_lines(joints, edges)[i];
                &&& 0 <= p < joints.len()
                &&& 0 <= q < joints.len()
                &&& joints[p].visible
                &&& joints[q].visible
                &&& exists|e: int|
                    0 <= e < edges.len() && #[trigger] edges[e] == (joints[p].idx, joints[q].idx)
            },
    decreases edges.len(),
{
    if edges.len() > 0 {
        let rest = edges.drop_last();
        lemma_lines_join_bone_ends(joints, rest);
        let (a, b) = edges.last();
        let lines = skeleton_lines(joints, edges);
        let before = skeleton_lines(joints, rest);
        assert forall|i: int| #![trigger lines[i]] 0 <= i < lines.len() implies {
            let (p, q) = lines[i];
            &&& 0 <= p < joints.len()
            &&& 0 <= q < joints.len()
            &&& joints[p].visible
            &&& joints[q].visible
            &&& exists|e: int| 0 <= e < edges.len() && #[trigger] edges[e] == (joints[p].idx, joints[q].idx)
        } by {
            if i < before.len() {
                assert(lines[i] == before[i]);
                let (p, q) = before[i];
                let e = choose|e: int| 0 <= e < rest.len() && #[trigger] rest[e] == (joints[p].idx, joints[q].idx);
                assert(edges[e] == rest[e]);
            } else {
                let pa = first_where(joints, visible_with_idx(a)).unwrap();
                let pb = first_where(joints, visible_with_idx(b)).unwrap();
                assert(lines[i] == (pa, pb));
                assert(edges[edges.len() - 1] == (joints[pa].idx, joints[pb].idx));
            }
        }
    }
}

/// Every bone whose two ends have a visible joint is drawn: its line joins
/// the first visible joint of each end.
pub proof fn lemma_lines_cover_visible_bones(joints: Seq<JointRef>, edges: Seq<(u8, u8)>)
    ensures
        forall|k: int, pa: int, pb: int|
            #![trigger edges[k], is_first_where(joints, visible_with_idx(edges[k].0), pa), is_first_where(joints, visible_with_idx(edges[k].1), pb)]
            0 <= k < edges.len() && is_first_where(joints, visible_with_idx(edges[k].0), pa)
                && is_first_where(joints, visible_with_idx(edges[k].1), pb) ==> skeleton_lines(
                joints,
                edges,
            ).contains((pa, pb)),
    decreases edges.len(),
{
    if edges.len() > 0 {
        let rest = edges.drop_last();
        lemma_lines_cover_visible_bones(joints, rest);
        let lines = skeleton_lines(joints, edges);
        let before = skeleton_lines(joints, rest);
        assert forall|i: int| 0 <= i < before.len() implies #[trigger] lines[i] == before[i] by {}
        assert forall|k: int, pa: int, pb: int|
            #![trigger edges[k], is_first_where(joints, visible_with_idx(edges[k].0), pa), is_first_where(joints, visible_with_idx(edges[k].1), pb)]
            0 <= k < edges.len() && is_first_where(joints, visible_with_idx(edges[k].0), pa)
                && is_first_where(joints, visible_with_idx(edges[k].1), pb) implies lines.contains((pa, pb)) by {
            if k < edges.len() - 1 {
                assert(rest[k] == edges[k]);
                assert(before.contains((pa, pb)));
                let t = choose|t: int| 0 <= t < before.len() && before[t] == (pa, pb);
                assert(lines[t] == (pa, pb));
            } else {
                lemma_first_where_is(joints, visible_with_idx(edges[k].0), pa);
                lemma_first_where_is(joints, visible_with_idx(edges[k].1), pb);
                assert(lines[lines.len() - 1] == (pa, pb));
            }
        }
    }
}

/// The overlay draws at most one line per bone.
pub proof fn lemma_lines_at_most_one_per_bone(joints: Seq<JointRef>, edges: Seq<(u8, u8)>)
    ensures
        skeleton_lines(joints, edges).len() <= edges.len(),
    decreases edges.len(),
{
    if edges.len() > 0 {
        lemma_lines_at_most_one_per_bone(joints, edges.drop_last());
    }
}

/// A skeleton plan of the COCO layout has at most 16 lines.
pub proof fn lemma_plan_has_at_most_sixteen_lines(joints: Seq<JointRef>)
    ensures
        skeleton_lines(joints, coco_edges()).len() <= 16,
{
    lemma_lines_at_most_one_per_bone(joints, coco_edges());
}

/// The points of the overlay are exactly the visible joints, each once, in order.
pub proof fn lemma_points_are_visible_joints(joints: Seq<JointRef>)
    ensures
        forall|i: int|
            0 <= i < visible_points(joints).len() ==> 0 <= #[trigger] visible_points(joints)[i]
                < joints.len() && joints[visible_points(joints)[i]].visible,
        forall|i: int, j: int|
            0 <= i < j < visible_points(joints).len() ==> #[trigger] visible_points(joints)[i]
                < #[trigger] visible_points(joints)[j],
        forall|k: int|
            0 <= k < joints.len() && #[trigger] joints[k].visible ==> visible_points(
                joints,
            ).contains(k),
    decreases joints.len(),
{
    if joints.len() > 0 {
        let rest = joints.drop_last();
        lemma_points_are_visible_joints(rest);
        let pts = visible_points(joints);
        let before = visible_points(rest);
        assert forall|k: int| 0 <= k < joints.len() && #[trigger] joints[k].visible implies pts.contains(k) by {
            if k < rest.len() {
                assert(rest[k] == joints[k]);
                let t = choose|t: int| 0 <= t < before.len() && before[t] == k;
                assert(pts[t] == k);
            } else {
                assert(pts[pts.len() - 1] == k);
            }
        }
    }
}

/// The view of a list of position pairs as pairs of integers.
pub open spec fn pair_view(v: Seq<(usize, usize)>) -> Seq<(int, int)> {
    v.map_values(|e: (usize, usize)| (e.0 as int, e.1 as int))
}

/// The view of a list of positions as integers.
pub open spec fn index_view(v: Seq<usize>) -> Seq<int> {
    v.map_values(|p: usize| p as int)
}

/// The bones of the COCO body layout, in drawing order.
pub fn skeleton_edges() -> (r: Vec<(u8, u8)>)
    ensures
        r@ == coco_edges(),
{
    let r = vec![
        (0u8, 1u8),
        (0u8, 2u8),
        (1u8, 3u8),
        (2u8, 4u8),
        (5u8, 6u8),
        (5u8, 7u8),
        (7u8, 9u8),
        (6u8, 8u8),
        (8u8, 10u8),
        (5u8, 11u8),
        (6u8, 12u8),
        (11u8, 12u8),
        (11u8, 13u8),
        (13u8, 15u8),
        (12u8, 14u8),
        (14u8, 16u8),
    ];
    assert(r@ =~= coco_edges());
    r
}

/// What to draw for one person: the lines, each as the positions of its two
/// joints, and the points, as the positions of the joints.
pub struct SkeletonPlan {
    pub lines: Vec<(usize, usize)>,
    pub points: Vec<usize>,
}

/// Plans the overlay of one person: for each COCO bone in turn, a line
/// between the first visible joint of each end when both ends have one; and
/// a point at every visible joint.
pub fn skeleton_plan(joints: &[JointRef]) -> (r: SkeletonPlan)
    ensures
        pair_view(r.lines@) == skeleton_lines(joints@, coco_edges()),
        index_view(r.points@) == visible_points(joints@),
        forall|k: int, pa: int, pb: int|
            #![trigger coco_edges()[k], is_first_where(joints@, visible_with_idx(coco_edges()[k].0), pa), is_first_where(joints@, visible_with_idx(coco_edges()[k].1), pb)]
            0 <= k < coco_edges().len() && is_first_where(
                joints@,
                visible_with_idx(coco_edges()[k].0),
                pa,
            ) && is_first_where(joints@, visible_with_idx(coco_edges()[k].1), pb) ==> pair_view(
                r.lines@,
            ).contains((pa, pb)),
        forall|i: int|
            #![trigger r.lines@[i]]
            0 <= i < r.lines@.len() ==> {
                let (p, q) = r.lines@[i];
                &&& p < joints@.len() && q < joints@.len()
                &&& joints@[p as int].visible && joints@[q as int].visible
                &&& coco_edges().contains((joints@[p as int].idx, joints@[q as int].idx))
            },
        forall|i: int| 0 <= i < r.points@.len() ==> #[trigger] r.points@[i] < joints@.len() && joints@[r.points@[i] as int].visible,
        forall|k: int| 0 <= k < joints@.len() && #[trigger] joints@[k].visible ==> index_view(r.points@).contains(k),
{
    let edges = skeleton_edges();
    let mut lines: Vec<(usize, usize)> = Vec::new();
    let mut i: usize = 0;
    while i < edges.len()
        invariant
            i <= edges@.len(),
            edges@ == coco_edges(),
            pair_view(lines@) == skeleton_lines(joints@, edges@.take(i as int)),
        decreases edges@.len() - i,
    {
        let (a, b) = edges[i];
        let pa = find_visible_joint(joints, a);
        let pb = find_visible_joint(joints, b);
        proof {
            assert(edges@.take(i + 1).drop_last() =~= edges@.take(i as int));
        }
        match (pa, pb) {
            (Some(x), Some(y)) => {
                lines.push((x, y));
            },
            _ => {},
        }
        proof {
            assert(pair_view(lines@) =~= skeleton_lines(joints@, edges@.take(i + 1)));
        }
        i = i + 1;
    }
    assert(edges@.take(edges@.len() as int) =~= edges@);

    let mut points: Vec<usize> = Vec::new();
    let mut k: usize = 0;
    while k < joints.len()
        invariant
            k <= joints@.len(),
            index_view(points@) == visible_points(joints@.take(k as int)),
        decreases joints@.len() - k,
    {
        proof {
            assert(joints@.take(k + 1).drop_last() =~= joints@.take(k as int));
        }
        if joints[k].visible {
            points.push(k);
        }
        proof {
            assert(index_view(points@) =~= visible_points(joints@.take(k + 1)));
        }
        k = k + 1;
    }
    assert(joints@.take(joints@.len() as int) =~= joints@);
    proof {
        lemma_lines_cover_visible_bones(joints@, coco_edges());
        lemma_lines_join_bone_ends(joints@, coco_edges());
        lemma_points_are_visible_joints(joints@);
        let lv = skeleton_lines(joints@, coco_edges());
        assert forall|i: int| #![trigger lines@[i]] 0 <= i < lines@.len() implies {
            let (p, q) = lines@[i];
            &&& p < joints@.len() && q < joints@.len()
            &&& joints@[p as int].visible && joints@[q as int].visible
            &&& coco_edges().contains((joints@[p as int].idx, joints@[q as int].idx))
        } by {
            assert(pair_view(lines@)[i] == (lines@[i].0 as int, lines@[i].1 as int));
            assert(lv[i] == pair_view(lines@)[i]);
            let (p, q) = lv[i];
            let e = choose|e: int| 0 <= e < coco_edges().len() && #[trigger] coco_edges()[e] == (joints@[p].idx, joints@[q].idx);
            assert(coco_edges()[e] == (joints@[p].idx, joints@[q].idx));
        }
        let pv = visible_points(joints@);
        assert forall|i: int| 0 <= i < points@.len() implies #[trigger] points@[i] < joints@.len() && joints@[points@[i] as int].visible by {
            assert(index_view(points@)[i] == points@[i] as int);
            assert(pv[i] == index_view(points@)[i]);
        }
    }
    SkeletonPlan { lines, points }
}

/// The overlay window closes on `q` or `Q`.
pub fn is_quit_key(key: i32) -> (r: bool)
    ensures
        r == (key == 113 || key == 81),
{
    key == 113 || key == 81
}

} // verus!
