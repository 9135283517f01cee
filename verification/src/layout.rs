//! Reading the output of a YOLO pose network: its layout, where each value
//! sits, which prediction is kept, and how a frame is padded to the input size.

use vstd::prelude::*;

verus! {

/// The number of channels of a YOLO pose prediction: a box (4), a
/// confidence (1) and 17 keypoints of 3 values each.
pub const POSE_CHANNELS: usize = 56;

/// The channel that holds a prediction's confidence.
pub const CONFIDENCE_CHANNEL: usize = 4;

/// The network output has a shape from which no pose layout can be read.
#[derive(Clone, Copy, Debug, PartialEq, Eq, Structural)]
pub enum LayoutError {
    UnsupportedShape,
}

/// `x` raised to 0 when it is negative.
pub open spec fn non_negative(x: i32) -> int {
    if x < 0 { 0 } else { x as int }
}

/// The layout read from the output's shape: `(channels, predictions,
/// channel_first)`. The sizes of the second and third axes are looked at
/// first when the output has at least three axes, then the rows and columns.
pub open spec fn layout_of(dims: i32, d1: i32, d2: i32, rows: i32, cols: i32) -> Option<(usize, usize, bool)> {
    if dims >= 3 && d1 == 56 {
        Some((56, d2 as usize, true))
    } else if dims >= 3 && d2 == 56 {
        Some((56, d1 as usize, false))
    } else if non_negative(rows) == 56 {
        Some((56, non_negative(cols) as usize, true))
    } else if non_negative(cols) == 56 {
        Some((56, non_negative(rows) as usize, false))
    } else {
        None
    }
}

/// Reads the layout of a network output: `dims` is its number of axes,
/// `d1` and `d2` the sizes of its second and third axes (looked at only
/// when `dims >= 3`), `rows` and `cols` its rows and columns. Returns the
/// number of channels, the number of predictions, and whether the channels
/// run along the outer axis.
pub fn detect_layout(dims: i32, d1: i32, d2: i32, rows: i32, cols: i32) -> (r: Result<
    (usize, usize, bool),
    LayoutError,
>)
    ensures
        match r {
            Ok(layout) => layout_of(dims, d1, d2, rows, cols) == Some(layout),
            Err(e) => layout_of(dims, d1, d2, rows, cols) is None && e == LayoutError::UnsupportedShape,
        },
{
    if dims >= 3 {
        if d1 == 56 {
            return Ok((POSE_CHANNELS, d2 as usize, true));
        }
        if d2 == 56 {
            return Ok((POSE_CHANNELS, d1 as usize, false));
        }
    }
    let rows = if rows < 0 { 0 } else { rows };
    let cols = if cols < 0 { 0 } else { cols };
    if rows == 56 {
        return Ok((POSE_CHANNELS, cols as usize, true));
    }
    if cols == 56 {
        return Ok((POSE_CHANNELS, rows as usize, false));
    }
    Err(LayoutError::UnsupportedShape)
}

/// Whatever the shape, a layout that is read has the 56 channels of a pose prediction.
pub proof fn lemma_layout_has_pose_channels(dims: i32, d1: i32, d2: i32, rows: i32, cols: i32)
    ensures
        layout_of(dims, d1, d2, rows, cols) matches Some(layout) ==> layout.0 == POSE_CHANNELS,
{
}

/// An output with fewer than 56 channels or no prediction yields no pose.
pub fn has_pose_channels(channels: usize, preds: usize) -> (r: bool)
    ensures
        r == (channels >= POSE_CHANNELS && preds > 0),
{
    !(channels < POSE_CHANNELS || preds == 0)
}

/// Where the value of channel `ch_idx` of prediction `pred_idx` sits in the
/// flat output buffer.
pub open spec fn flat_index(channels: int, preds: int, pred_idx: int, ch_idx: int, channel_first: bool) -> int {
    if channel_first {
        ch_idx * preds + pred_idx
    } else {
        pred_idx * channels + ch_idx
    }
}

/// Inside a buffer of `channels × preds` values, each (prediction, channel)
/// cell has a place of its own, in either layout.
pub proof fn lemma_flat_index_places(
    channels: int,
    preds: int,
    channel_first: bool,
    p1: int,
    c1: int,
    p2: int,
    c2: int,
)
    requires
        0 <= p1 < preds,
        0 <= p2 < preds,
        0 <= c1 < channels,
        0 <= c2 < channels,
    ensures
        0 <= flat_index(channels, preds, p1, c1, channel_first) < channels * preds,
        flat_index(channels, preds, p1, c1, channel_first) == flat_index(
            channels,
            preds,
            p2,
            c2,
            channel_first,
        ) ==> p1 == p2 && c1 == c2,
{
    if channel_first {
        assert(0 <= c1 * preds + p1 < channels * preds) by (nonlinear_arith)
            requires
                0 <= p1 < preds,
                0 <= c1 < channels,
        ;
        assert(c1 * preds + p1 == c2 * preds + p2 ==> p1 == p2 && c1 == c2) by (nonlinear_arith)
            requires
                0 <= p1 < preds,
                0 <= p2 < preds,
                0 <= c1,
                0 <= c2,
        ;
    } else {
        assert(0 <= p1 * channels + c1 < channels * preds) by (nonlinear_arith)
            requires
                0 <= p1 < preds,
                0 <= c1 < channels,
        ;
        assert(p1 * channels + c1 == p2 * channels + c2 ==> p1 == p2 && c1 == c2) by (nonlinear_arith)
            requires
                0 <= c1 < channels,
                0 <= c2 < channels,
                0 <= p1,
                0 <= p2,
        ;
    }
}

/// Where the value of channel `ch_idx` of prediction `pred_idx` sits in a
/// flat buffer of `len` values; `None` when that place lies outside the
/// buffer or cannot be computed in `usize`, where reading it would panic.
pub fn cell_index(
    channels: usize,
    preds: usize,
    pred_idx: usize,
    ch_idx: usize,
    channel_first: bool,
    len: usize,
) -> (r: Option<usize>)
    ensures
        match r {
            Some(i) => i == flat_index(channels as int, preds as int, pred_idx as int, ch_idx as int, channel_first)
                && i < len,
            None => flat_index(channels as int, preds as int, pred_idx as int, ch_idx as int, channel_first)
                >= len,
        },
{
    proof {
        assert(0 <= ch_idx * preds && 0 <= pred_idx * channels) by (nonlinear_arith);
    }
    let (outer, stride, inner) = if channel_first {
        (ch_idx, preds, pred_idx)
    } else {
        (pred_idx, channels, ch_idx)
    };
    let i = match outer.checked_mul(stride) {
        Some(m) => match m.checked_add(inner) {
            Some(i) => i,
            None => return None,
        },
        None => return None,
    };
    if i < len {
        Some(i)
    } else {
        None
    }
}

/// The value of channel `ch_idx` of prediction `pred_idx` in the flat
/// output buffer `data`.
pub fn at<T: Copy>(
    data: &[T],
    channels: usize,
    preds: usize,
    pred_idx: usize,
    ch_idx: usize,
    channel_first: bool,
) -> (r: T)
    requires
        flat_index(channels as int, preds as int, pred_idx as int, ch_idx as int, channel_first)
            < data@.len(),
    ensures
        r == data@[flat_index(channels as int, preds as int, pred_idx as int, ch_idx as int, channel_first)],
{
    let len = data.len();
    proof {
        assert(0 <= ch_idx * preds && 0 <= pred_idx * channels) by (nonlinear_arith);
        assert(len == data@.len());
    }
    if channel_first {
        data[ch_idx * preds + pred_idx]
    } else {
        data[pred_idx * channels + ch_idx]
    }
}

/// The channels of keypoint `k`: its x, its y and its score.
pub fn keypoint_channels(k: usize) -> (r: (usize, usize, usize))
    requires
        k < 17,
    ensures
        r == ((5 + 3 * k) as usize, (6 + 3 * k) as usize, (7 + 3 * k) as usize),
{
    let base = 5 + k * 3;
    (base, base + 1, base + 2)
}

/// `i` is the prediction kept among those whose confidence keys are `keys`:
/// its key is above the threshold key and above 0, it is the highest key,
/// and no earlier prediction has that key.
pub open spec fn is_best_prediction(keys: Seq<u32>, thres_key: u32, i: int) -> bool {
    &&& 0 <= i < keys.len()
    &&& keys[i] > thres_key
    &&& keys[i] > 0
    &&& forall|j: int| 0 <= j < keys.len() ==> #[trigger] keys[j] <= keys[i]
    &&& forall|j: int| 0 <= j < i ==> #[trigger] keys[j] < keys[i]
}

/// Picks the prediction to keep: the first one with the highest confidence,
/// among those whose confidence is above the threshold and above 0.
/// Confidences and threshold come as keys that order as the confidences do.
pub fn best_prediction(keys: &[u32], thres_key: u32) -> (r: Option<usize>)
    ensures
        match r {
            Some(i) => is_best_prediction(keys@, thres_key, i as int),
            None => forall|j: int|
                0 <= j < keys@.len() ==> #[trigger] keys@[j] <= thres_key || keys@[j] == 0,
        },
{
    let mut best_i: Option<usize> = None;
    let mut best_key: u32 = 0;
    let mut i: usize = 0;
    while i < keys.len()
        invariant
            i <= keys@.len(),
            match best_i {
                None => best_key == 0 && forall|j: int|
                    0 <= j < i ==> #[trigger] keys@[j] <= thres_key || keys@[j] == 0,
                Some(b) => {
                    &&& b < i
                    &&& best_key == keys@[b as int]
                    &&& best_key > thres_key
                    &&& best_key > 0
                    &&& forall|j: int| 0 <= j < i ==> #[trigger] keys@[j] <= best_key
                    &&& forall|j: int| 0 <= j < b ==> #[trigger] keys@[j] < best_key
                },
            },
        decreases keys@.len() - i,
    {
        let key = keys[i];
        if key > thres_key && key > best_key {
            best_key = key;
            best_i = Some(i);
        }
        i = i + 1;
    }
    best_i
}

/// Rust's `x / 2` on a signed integer: rounded toward zero.
pub open spec fn half_toward_zero(x: int) -> int {
    if x >= 0 { x / 2 } else { -((-x) / 2) }
}

/// The border splits each gap exactly: the two sides add up to the gap and
/// differ by at most one pixel, the larger share going after the frame when
/// the frame is smaller than the input, and before it when it is larger.
pub proof fn lemma_padding_splits_gap(gap: int)
    ensures
        half_toward_zero(gap) + (gap - half_toward_zero(gap)) == gap,
        gap >= 0 ==> 0 <= (gap - half_toward_zero(gap)) - half_toward_zero(gap) <= 1,
        gap < 0 ==> -1 <= (gap - half_toward_zero(gap)) - half_toward_zero(gap) <= 0,
{
}

/// The border added around a resized frame to reach the network's square input.
#[derive(Clone, Copy, Debug, PartialEq, Eq, Structural)]
pub struct Padding {
    pub top: i32,
    pub bottom: i32,
    pub left: i32,
    pub right: i32,
}

/// Splits the space left around a `new_w × new_h` frame inside a square of
/// side `input_size`: half of each gap, rounded toward zero, before the
/// frame, and the rest after it.
pub fn letterbox_padding(input_size: i32, new_w: i32, new_h: i32) -> (r: Padding)
    requires
        i32::MIN <= input_size - new_w <= i32::MAX,
        i32::MIN <= input_size - new_h <= i32::MAX,
    ensures
        r.left == half_toward_zero(input_size - new_w),
        r.right == (input_size - new_w) - half_toward_zero(input_size - new_w),
        r.top == half_toward_zero(input_size - new_h),
        r.bottom == (input_size - new_h) - half_toward_zero(input_size - new_h),
{
    let dw = input_size - new_w;
    let dh = input_size - new_h;
    let left = dw / 2;
    let right = dw - left;
    let top = dh / 2;
    let bottom = dh - top;
    Padding { top, bottom, left, right }
}

} // verus!
