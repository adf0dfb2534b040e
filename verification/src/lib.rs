//! Motion detection for camera streams.
//!
//! The detector of a stream takes the stream's frames one by one, scores each
//! against the frame before it, and turns the scores into motion events with
//! a lead-in frame, a buffered tail and a verdict. Around it stand the kernel
//! that scores a pair of frames, the policies that keep the preview of an
//! event within the size an alert can carry, and what is decided about
//! alerts, clips, the decoder and the web pages.
//!
//! Nothing here computes with floating point. Scores, thresholds and frame
//! rates are whole numbers of thousandths, and divisions and square roots
//! round down.
//!
//! The detector is stated twice: as a state machine over mathematical values
//! in `model`, whose laws are proved in `laws`, and as the executable
//! detector in `modect`, which is proved to follow the state machine step by
//! step.

pub mod codec;
pub mod config;
pub mod event;
pub mod ffmpeg;
pub mod fixed;
pub mod frame;
pub mod kernel;
pub mod laws;
pub mod model;
pub mod modect;
pub mod modect_mp4;
pub mod observable_buf;
pub mod preview;
pub mod pushover;
pub mod text;
pub mod web;
pub mod worker;
