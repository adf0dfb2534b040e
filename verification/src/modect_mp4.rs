//! Writing the clip of an event: what the video encoder is started with, and
//! what its exit means.

use vstd::prelude::*;
use vstd::string::StringExecFns;
use crate::modect::MotionDetectionEvent;
use crate::text::{decimal, push_decimal};

verus! {

/// Why an event has no clip.
#[derive(Clone, Copy, Debug, PartialEq, Eq, Structural)]
pub enum ClipError {
    /// The event holds no frame.
    EmptyEvent,
    /// The encoder did not exit cleanly.
    EncoderFailed,
}

/// The words of a command line, as contracts see them.
pub open spec fn words(arguments: Seq<String>) -> Seq<Seq<char>> {
    arguments.map_values(|word: String| word@)
}

/// A frame shape as the encoder wants it: width, an `x`, height.
pub open spec fn video_size(width: nat, height: nat) -> Seq<char> {
    decimal(width) + "x"@ + decimal(height)
}

/// A frame rate as the encoder wants it: the thousandths of frames per
/// second over a thousand, as a fraction, so that nothing of the rate is
/// lost.
pub open spec fn video_rate(frame_rate: u32) -> Seq<char> {
    decimal(frame_rate as nat) + "/1000"@
}

/// The arguments that the encoder is started with for frames of the given
/// shape at `frame_rate` thousandths of frames per second: raw RGB frames
/// come in on standard input at that rate, and H.264 with closed groups of
/// pictures goes out to `destination`.
pub open spec fn clip_arguments(
    width: nat,
    height: nat,
    frame_rate: u32,
    destination: Seq<char>,
) -> Seq<Seq<char>> {
    seq![
        "-f"@,
        "rawvideo"@,
        "-pixel_format"@,
        "rgb24"@,
        "-video_size"@,
        video_size(width, height),
        "-framerate"@,
        video_rate(frame_rate),
        "-i"@,
        "-"@,
        "-c:v"@,
        "h264"@,
        "-flags"@,
        "+cgop"@,
        destination,
    ]
}

/// Appends the shape `width` by `height` to `out`.
pub fn push_video_size(out: &mut String, width: u32, height: u32)
    ensures
        final(out)@ == old(out)@ + video_size(width as nat, height as nat),
{
    push_decimal(out, width as u128);
    out.append("x");
    push_decimal(out, height as u128);
}

/// The arguments to start the encoder with for the clip of `event`. The
/// frames have the shape of the event's first frame; an event without frames
/// has no clip.
pub fn encoder_arguments(event: &MotionDetectionEvent, frame_rate: u32, destination: &str) -> (planned:
    Result<Vec<String>, ClipError>)
    ensures
        event@.frames.len() == 0 <==> planned == Err::<Vec<String>, ClipError>(
            ClipError::EmptyEvent,
        ),
        event@.frames.len() > 0 ==> planned is Ok && words(planned->Ok_0@) == clip_arguments(
            event@.frames[0].image.width,
            event@.frames[0].image.height,
            frame_rate,
            destination@,
        ),
{
    if event.frames.len() == 0 {
        return Err(ClipError::EmptyEvent);
    }
    let first = &event.frames[0];
    let mut dimension = String::new();
    push_video_size(&mut dimension, first.image.width(), first.image.height());
    let mut rate = String::new();
    push_decimal(&mut rate, frame_rate as u128);
    rate.append("/1000");
    let mut arguments: Vec<String> = Vec::new();
    arguments.push(String::from_str("-f"));
    arguments.push(String::from_str("rawvideo"));
    arguments.push(String::from_str("-pixel_format"));
    arguments.push(String::from_str("rgb24"));
    arguments.push(String::from_str("-video_size"));
    arguments.push(dimension);
    arguments.push(String::from_str("-framerate"));
    arguments.push(rate);
    arguments.push(String::from_str("-i"));
    arguments.push(String::from_str("-"));
    arguments.push(String::from_str("-c:v"));
    arguments.push(String::from_str("h264"));
    arguments.push(String::from_str("-flags"));
    arguments.push(String::from_str("+cgop"));
    arguments.push(String::from_str(destination));
    Ok(arguments)
}

/// What the exit of the encoder means for the clip.
pub fn encoder_outcome(exited_cleanly: bool) -> (outcome: Result<(), ClipError>)
    ensures
        outcome == if exited_cleanly {
            Ok::<(), ClipError>(())
        } else {
            Err::<(), ClipError>(ClipError::EncoderFailed)
        },
{
    if exited_cleanly {
        Ok(())
    } else {
        Err(ClipError::EncoderFailed)
    }
}

} // verus!
