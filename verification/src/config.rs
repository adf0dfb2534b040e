//! Settings that the detector's surroundings are built from, and the values
//! that stand in where a setting is left out.

use vstd::prelude::*;
use vstd::string::StringExecFns;
use crate::model::RunningMotionDetectorConfig;

verus! {

/// The program that decodes and encodes video, where none is named.
pub fn default_ffmpeg_bin() -> (name: String)
    ensures
        name@ == "ffmpeg"@,
{
    String::from_str("ffmpeg")
}

/// The path under which the web pages are served, where none is named.
pub fn default_web_base() -> (base: String)
    ensures
        base@ == "/"@,
{
    String::from_str("/")
}

/// The frame rate of a stream, in thousandths of frames per second, where
/// none is named: 25 frames per second.
pub fn default_frame_rate() -> (rate: u32)
    ensures
        rate == 25_000,
{
    25_000
}

/// The address that alerts are posted to, where none is named.
pub fn default_pushover() -> (url: String)
    ensures
        url@ == "https://api.pushover.net/1/messages.json"@,
{
    String::from_str("https://api.pushover.net/1/messages.json")
}

/// How urgent an alert is.
#[derive(Clone, Copy, Debug, PartialEq, Eq, Structural)]
pub enum PushoverPriority {
    /// No alert is sent at all.
    Ignore,
    Lowest,
    Low,
    Normal,
    High,
    Emergency,
}

impl PushoverPriority {
    /// The number that stands for the priority in an alert.
    pub open spec fn spec_value(self) -> i32 {
        match self {
            PushoverPriority::Ignore => -3i32,
            PushoverPriority::Lowest => -2i32,
            PushoverPriority::Low => -1i32,
            PushoverPriority::Normal => 0i32,
            PushoverPriority::High => 1i32,
            PushoverPriority::Emergency => 2i32,
        }
    }

    /// The number that stands for the priority in an alert.
    #[verifier::when_used_as_spec(spec_value)]
    pub fn value(self) -> (n: i32)
        ensures
            n == self.spec_value(),
    {
        match self {
            PushoverPriority::Ignore => -3,
            PushoverPriority::Lowest => -2,
            PushoverPriority::Low => -1,
            PushoverPriority::Normal => 0,
            PushoverPriority::High => 1,
            PushoverPriority::Emergency => 2,
        }
    }

    /// The priority that a number stands for, if it stands for one.
    pub fn from_value(n: i32) -> (p: Option<PushoverPriority>)
        ensures
            p matches Some(priority) ==> priority.value() == n,
            p is None <==> !(-3 <= n <= 2),
    {
        if n == -3 {
            Some(PushoverPriority::Ignore)
        } else if n == -2 {
            Some(PushoverPriority::Lowest)
        } else if n == -1 {
            Some(PushoverPriority::Low)
        } else if n == 0 {
            Some(PushoverPriority::Normal)
        } else if n == 1 {
            Some(PushoverPriority::High)
        } else if n == 2 {
            Some(PushoverPriority::Emergency)
        } else {
            None
        }
    }
}

impl Default for PushoverPriority {
    fn default() -> (p: Self)
        ensures
            p == PushoverPriority::Normal,
    {
        PushoverPriority::Normal
    }
}

/// Which preview of an event goes out with its alert.
#[derive(Clone, Copy, Debug, PartialEq, Eq, Structural)]
pub enum PreviewFormat {
    /// No preview.
    Off,
    /// The one frame that scored highest, as a still.
    Jpeg,
    /// Every frame, as an animation that is cut where it grows too large.
    Gif,
    /// An even sample of the frames, as an animation.
    Webp,
}

impl Default for PreviewFormat {
    fn default() -> (f: Self)
        ensures
            f == PreviewFormat::Webp,
    {
        PreviewFormat::Webp
    }
}

/// What is done with a camera's stream.
#[derive(Clone, Copy, Debug, PartialEq, Eq, Structural)]
pub enum CameraMode {
    Disable,
    Record,
    MotionDetect,
    MotionDetectRecord,
}

/// Where alerts go and how they look.
#[derive(Debug)]
pub struct PushoverConfig {
    pub url: String,
    pub user_key: String,
    pub token: String,
    pub preview_format: PreviewFormat,
    pub priority: PushoverPriority,
}

/// The motion detection settings of one camera: the frame shape that the
/// decoder is asked for, the detector's thresholds, and a priority that
/// overrides the general one for this camera's alerts.
#[derive(Debug)]
pub struct MotionDetectionConfig {
    pub width: u32,
    pub height: u32,
    pub config: RunningMotionDetectorConfig,
    pub alert_priority: Option<PushoverPriority>,
}

} // verus!
