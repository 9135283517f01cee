//! Frames read from a camera: their size and when they were taken.

use vstd::prelude::*;

verus! {

/// The size of a captured frame, and when it was taken (milliseconds since
/// the Unix epoch).
#[derive(Clone, Copy, Debug, PartialEq, Eq, Structural)]
pub struct CaptureFrame {
    pub width: u32,
    pub height: u32,
    pub ts_ms: u64,
}

/// Reading a frame from the camera failed.
#[derive(Clone, Copy, Debug, PartialEq, Eq, Structural)]
pub enum CaptureError {
    /// The camera handed back an empty image.
    EmptyFrame,
}

/// Describes the image the camera handed back: an error when it is empty,
/// else its column and row counts (negative counts read as 0) and the time
/// `ts_ms` at which it was taken.
pub fn capture_frame(empty: bool, cols: i32, rows: i32, ts_ms: u64) -> (r: Result<CaptureFrame, CaptureError>)
    ensures
        empty ==> r == Err::<CaptureFrame, CaptureError>(CaptureError::EmptyFrame),
        !empty ==> r == Ok::<CaptureFrame, CaptureError>(
            CaptureFrame {
                width: (if cols < 0 { 0 } else { cols }) as u32,
                height: (if rows < 0 { 0 } else { rows }) as u32,
                ts_ms,
            },
        ),
{
    if empty {
        return Err(CaptureError::EmptyFrame);
    }
    let width = if cols < 0 { 0 } else { cols as u32 };
    let height = if rows < 0 { 0 } else { rows as u32 };
    Ok(CaptureFrame { width, height, ts_ms })
}

} // verus!
