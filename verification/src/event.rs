//! What is written down about an event beside its clip.

use vstd::prelude::*;
use vstd::string::StringExecFns;
use crate::modect::{MotionDetectionEvent, WallClock};

verus! {

/// The record that accompanies the clip of an event.
#[derive(Debug)]
pub struct EventMetadata {
    pub camera: String,
    pub when: WallClock,
    /// In thousandths.
    pub total_score: u128,
    pub start_stream_frame_number: u64,
    pub end_stream_frame_number: u64,
}

impl EventMetadata {
    /// The record of `event`, seen by `camera` at `when`.
    pub fn describe(camera: &str, when: WallClock, event: &MotionDetectionEvent) -> (record: Self)
        ensures
            record.camera@ == camera@,
            record.when == when,
            record.total_score == event@.total_score,
            record.start_stream_frame_number == event@.start,
            record.end_stream_frame_number == event@.end,
    {
        EventMetadata {
            camera: String::from_str(camera),
            when,
            total_score: event.total_score,
            start_stream_frame_number: event.start_stream_frame_number,
            end_stream_frame_number: event.end_stream_frame_number,
        }
    }

    /// Number of frames from the first to the last; zero for a record whose
    /// end lies before its start.
    pub fn frame_span(&self) -> (n: u64)
        ensures
            n == if self.end_stream_frame_number >= self.start_stream_frame_number {
                self.end_stream_frame_number - self.start_stream_frame_number
            } else {
                0
            },
    {
        if self.end_stream_frame_number >= self.start_stream_frame_number {
            self.end_stream_frame_number - self.start_stream_frame_number
        } else {
            0
        }
    }
}

} // verus!
