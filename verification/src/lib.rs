//! Verified core of a pose-estimation pipeline: frame pacing, output-layout
//! decoding, keypoint selection and skeleton planning.

pub mod camera;
pub mod clock;
pub mod joints;
pub mod layout;
pub mod metrics;
pub mod pipeline;
pub mod run;
pub mod skeleton;
