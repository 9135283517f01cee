//! The pacing rules of the mock pipeline's main loop: how often it reports
//! and when it stops.

use vstd::prelude::*;

verus! {

/// The settings of a run, with each lower bound applied.
#[derive(Clone, Copy, Debug, PartialEq, Eq, Structural)]
pub struct RunSettings {
    /// Frames per second aimed at; at least 1.
    pub fps_target: u32,
    /// A report every this many frames; at least 1.
    pub report_every: u64,
    /// The number of frames after which the run stops; 0 runs forever.
    pub max_frames: u64,
}

/// The settings of a run from the command-line values: a target of at least
/// one frame per second and a report every at least one frame.
pub fn run_settings(fps_target: u32, report_every: u32, max_frames: u64) -> (r: RunSettings)
    ensures
        r.fps_target == (if fps_target < 1 { 1 } else { fps_target }),
        r.report_every == (if report_every < 1 { 1 } else { report_every }),
        r.max_frames == max_frames,
{
    let fps_target = if fps_target < 1 { 1 } else { fps_target };
    let report_every = if report_every < 1 { 1u64 } else { report_every as u64 };
    RunSettings { fps_target, report_every, max_frames }
}

/// Frame `frame_id` is reported when its number is a multiple of the
/// report interval.
pub fn is_report_frame(settings: &RunSettings, frame_id: u64) -> (r: bool)
    requires
        settings.report_every >= 1,
    ensures
        r == (frame_id % settings.report_every == 0),
{
    frame_id % settings.report_every == 0
}

/// The run stops after frame `frame_id` when a frame limit is set and
/// `frame_id + 1` frames have been done.
pub open spec fn stops_after(max_frames: u64, frame_id: int) -> bool {
    max_frames > 0 && frame_id + 1 >= max_frames
}

/// Whether the run stops once frame `frame_id` is done.
pub fn is_last_frame(settings: &RunSettings, frame_id: u64) -> (r: bool)
    requires
        frame_id < u64::MAX,
    ensures
        r == stops_after(settings.max_frames, frame_id as int),
{
    let done = frame_id + 1;
    settings.max_frames > 0 && done >= settings.max_frames
}

/// A run with a frame limit `max_frames` does exactly `max_frames` frames:
/// it goes on after every frame before the last, and stops after frame
/// `max_frames - 1`. A run without a limit never stops.
pub proof fn lemma_run_length(max_frames: u64)
    ensures
        max_frames > 0 ==> stops_after(max_frames, max_frames - 1),
        max_frames > 0 ==> forall|f: int| 0 <= f < max_frames - 1 ==> !#[trigger] stops_after(max_frames, f),
        max_frames == 0 ==> forall|f: int| !#[trigger] stops_after(max_frames, f),
{
}

} // verus!
