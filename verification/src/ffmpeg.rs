//! Starting the decoder of a camera stream: which of the probed streams it
//! reads, which frames it is asked for, and what it is started with.

use vstd::prelude::*;
use vstd::string::StringExecFns;
use vstd::string::StrSliceExecFns;
use crate::modect_mp4::{words, video_size, push_video_size};
use crate::text::{decimal, push_decimal};

verus! {

/// What the decoder is to do with one camera stream.
#[derive(Debug)]
pub struct FFmpegConfig {
    /// The decoder program.
    pub binary: String,
    /// Where the stream comes from.
    pub rtsp_input: String,
    /// Write one still instead of a recording.
    pub record_single_jpeg: bool,
    /// The directory that recordings go to, if the stream is recorded.
    pub recording_mp4_dir: Option<String>,
    /// Whether decoded frames are wanted on standard output.
    pub send_images: bool,
    pub image_width: Option<u32>,
    pub image_height: Option<u32>,
    /// Fetch the stream over TCP.
    pub force_tcp: bool,
}

/// One stream that the probe found: its codec and, for a video stream, the
/// shape of its pictures.
#[derive(Debug)]
pub struct ProbedStream {
    pub codec_name: String,
    pub video: Option<(u32, u32)>,
}

/// Why a stream is not decoded.
#[derive(Debug)]
pub enum FFMpegError {
    /// The probe found no video stream.
    NoVideoStream,
    /// The video stream has a codec other than H.264 and HEVC.
    UnsupportedVideoCodec(String),
    /// The decoder exited with this code.
    ExitedWithError(i32),
}

/// `i` is the position of the first video stream.
pub open spec fn is_first_video(streams: Seq<ProbedStream>, i: int) -> bool {
    &&& 0 <= i < streams.len()
    &&& streams[i].video is Some
    &&& forall|j: int| 0 <= j < i ==> (#[trigger] streams[j]).video is None
}

/// The first video stream among `streams`.
pub fn find_video_stream(streams: &Vec<ProbedStream>) -> (found: Option<usize>)
    ensures
        found matches Some(i) ==> is_first_video(streams@, i as int),
        found is None ==> forall|j: int| 0 <= j < streams@.len() ==> (#[trigger] streams@[j]).video
            is None,
{
    let mut i: usize = 0;
    while i < streams.len()
        invariant
            i <= streams.len(),
            forall|j: int| 0 <= j < i ==> (#[trigger] streams@[j]).video is None,
        decreases streams.len() - i,
    {
        if streams[i].video.is_some() {
            return Some(i);
        }
        i = i + 1;
    }
    None
}

/// The codecs that the decoder is started for.
pub open spec fn codec_supported(codec: Seq<char>) -> bool {
    codec == "h264"@ || codec == "hevc"@
}

/// Whether the decoder is started for a video stream of this codec.
pub fn is_supported_codec(codec: &String) -> (supported: bool)
    ensures
        supported == codec_supported(codec@),
{
    *codec == String::from_str("h264") || *codec == String::from_str("hevc")
}

/// The file name that a recording goes by inside its directory: one fixed
/// name for a still, a pattern of date and time for the segments of a
/// recording.
pub open spec fn recording_name(single_jpeg: bool) -> Seq<char> {
    if single_jpeg {
        "screenshot.jpg"@
    } else {
        "%Y%m%d-%H%M%S%z.mp4"@
    }
}

/// A file name appended to a directory, with one slash between them unless
/// the directory is empty or ends in one.
pub open spec fn joined(directory: Seq<char>, name: Seq<char>) -> Seq<char> {
    if directory.len() == 0 || directory.last() == '/' {
        directory + name
    } else {
        directory + "/"@ + name
    }
}

/// The path of `name` inside `directory`.
pub fn join_path(directory: &str, name: &str) -> (path: String)
    ensures
        path@ == joined(directory@, name@),
{
    let mut path = String::from_str(directory);
    let length = directory.unicode_len();
    if length > 0 && directory.get_char(length - 1) != '/' {
        path.append("/");
    }
    path.append(name);
    path
}

/// What the decoder is started with, after the program's name, the input
/// option and the stream's address: the transport if TCP is forced; then,
/// for a recorded stream, either one still of the wanted shape or segments
/// of a minute each with the stream's own video and AAC audio; then, if
/// frames are wanted, raw RGB frames of the wanted shape on standard output.
pub open spec fn decoder_arguments(config: FFmpegConfig, width: u32, height: u32) -> Seq<Seq<char>> {
    let dimension = video_size(width as nat, height as nat);
    let transport = if config.force_tcp {
        seq!["-rtsp_transport"@, "tcp"@]
    } else {
        Seq::empty()
    };
    let recording = match config.recording_mp4_dir {
        Some(directory) => {
            let target = joined(directory@, recording_name(config.record_single_jpeg));
            if config.record_single_jpeg {
                seq!["-s"@, dimension, "-frames:v"@, "1"@, "-y"@, target]
            } else {
                seq![
                    "-c:v"@,
                    "copy"@,
                    "-segment_time"@,
                    "00:1:00"@,
                    "-f"@,
                    "segment"@,
                    "-reset_timestamps"@,
                    "1"@,
                    "-segment_atclocktime"@,
                    "1"@,
                    "-strftime"@,
                    "1"@,
                    "-codec:a"@,
                    "aac"@,
                    "-y"@,
                    target,
                ]
            }
        },
        None => Seq::empty(),
    };
    let images = if config.send_images {
        seq!["-f"@, "rawvideo"@, "-pix_fmt"@, "rgb24"@, "-s"@, dimension, "-"@]
    } else {
        Seq::empty()
    };
    transport + recording + images
}

/// How a stream is decoded.
#[derive(Debug)]
pub struct DecoderPlan {
    /// The shape of the frames asked for.
    pub width: u32,
    pub height: u32,
    /// What the decoder is started with.
    pub arguments: Vec<String>,
}

/// The shape that the decoder is asked for: the configured one, and where
/// none is configured, that of the stream.
pub open spec fn wanted_shape(config: FFmpegConfig, stream: (u32, u32)) -> (u32, u32) {
    (
        match config.image_width {
            Some(w) => w,
            None => stream.0,
        },
        match config.image_height {
            Some(h) => h,
            None => stream.1,
        },
    )
}

fn push_word(arguments: &mut Vec<String>, word: &str)
    ensures
        words(final(arguments)@) == words(old(arguments)@).push(word@),
{
    arguments.push(String::from_str(word));
}

fn push_owned(arguments: &mut Vec<String>, word: String)
    ensures
        words(final(arguments)@) == words(old(arguments)@).push(word@),
{
    arguments.push(word);
}

/// Plans the decoding of a stream from what the probe found. The first video
/// stream decides: without one there is nothing to decode, and a codec other
/// than H.264 and HEVC is turned down by name.
pub fn plan_decoder(config: &FFmpegConfig, streams: &Vec<ProbedStream>) -> (planned: Result<
    DecoderPlan,
    FFMpegError,
>)
    ensures
        match planned {
            Ok(plan) => exists|i: int|
                {
                    &&& #[trigger] is_first_video(streams@, i)
                    &&& codec_supported(streams@[i].codec_name@)
                    &&& (plan.width, plan.height) == wanted_shape(*config, streams@[i].video->0)
                    &&& words(plan.arguments@) == decoder_arguments(
                        *config,
                        plan.width,
                        plan.height,
                    )
                },
            Err(FFMpegError::NoVideoStream) => forall|j: int|
                0 <= j < streams@.len() ==> (#[trigger] streams@[j]).video is None,
            Err(FFMpegError::UnsupportedVideoCodec(codec)) => exists|i: int|
                #[trigger] is_first_video(streams@, i) && !codec_supported(streams@[i].codec_name@)
                    && codec@ == streams@[i].codec_name@,
            Err(FFMpegError::ExitedWithError(_)) => false,
        },
{
    let index = match find_video_stream(streams) {
        Some(index) => index,
        None => {
            return Err(FFMpegError::NoVideoStream);
        },
    };
    let stream = &streams[index];
    if !is_supported_codec(&stream.codec_name) {
        return Err(FFMpegError::UnsupportedVideoCodec(stream.codec_name.clone()));
    }
    let shape = match stream.video {
        Some(shape) => shape,
        None => (0, 0),
    };
    let width = match config.image_width {
        Some(w) => w,
        None => shape.0,
    };
    let height = match config.image_height {
        Some(h) => h,
        None => shape.1,
    };
    let mut arguments: Vec<String> = Vec::new();
    if config.force_tcp {
        push_word(&mut arguments, "-rtsp_transport");
        push_word(&mut arguments, "tcp");
    }
    match &config.recording_mp4_dir {
        Some(directory) => {
            if config.record_single_jpeg {
                let target = join_path(directory.as_str(), "screenshot.jpg");
                let mut dimension = String::new();
                push_video_size(&mut dimension, width, height);
                push_word(&mut arguments, "-s");
                push_owned(&mut arguments, dimension);
                push_word(&mut arguments, "-frames:v");
                push_word(&mut arguments, "1");
                push_word(&mut arguments, "-y");
                push_owned(&mut arguments, target);
            } else {
                let target = join_path(directory.as_str(), "%Y%m%d-%H%M%S%z.mp4");
                push_word(&mut arguments, "-c:v");
                push_word(&mut arguments, "copy");
                push_word(&mut arguments, "-segment_time");
                push_word(&mut arguments, "00:1:00");
                push_word(&mut arguments, "-f");
                push_word(&mut arguments, "segment");
                push_word(&mut arguments, "-reset_timestamps");
                push_word(&mut arguments, "1");
                push_word(&mut arguments, "-segment_atclocktime");
                push_word(&mut arguments, "1");
                push_word(&mut arguments, "-strftime");
                push_word(&mut arguments, "1");
                push_word(&mut arguments, "-codec:a");
                push_word(&mut arguments, "aac");
                push_word(&mut arguments, "-y");
                push_owned(&mut arguments, target);
            }
        },
        None => {},
    }
    if config.send_images {
        let mut dimension = String::new();
        push_video_size(&mut dimension, width, height);
        push_word(&mut arguments, "-f");
        push_word(&mut arguments, "rawvideo");
        push_word(&mut arguments, "-pix_fmt");
        push_word(&mut arguments, "rgb24");
        push_word(&mut arguments, "-s");
        push_owned(&mut arguments, dimension);
        push_word(&mut arguments, "-");
    }
    Ok(DecoderPlan { width, height, arguments })
}

/// What the decoder is started with to stream a camera live as fragmented
/// MP4 on standard output.
pub open spec fn live_mp4_arguments(force_tcp: bool, rtsp: Seq<char>) -> Seq<Seq<char>> {
    (if force_tcp {
        seq!["-rtsp_transport"@, "tcp"@]
    } else {
        Seq::empty()
    }) + seq![
        "-i"@,
        rtsp,
        "-flags"@,
        "+cgop"@,
        "-f"@,
        "mp4"@,
        "-movflags"@,
        "frag_keyframe+empty_moov"@,
        "-c:v"@,
        "copy"@,
        "-"@,
    ]
}

/// The arguments to stream the camera at `rtsp` live as fragmented MP4.
pub fn plan_live_mp4(force_tcp: bool, rtsp: &str) -> (arguments: Vec<String>)
    ensures
        words(arguments@) == live_mp4_arguments(force_tcp, rtsp@),
{
    let mut arguments: Vec<String> = Vec::new();
    if force_tcp {
        push_word(&mut arguments, "-rtsp_transport");
        push_word(&mut arguments, "tcp");
    }
    push_word(&mut arguments, "-i");
    push_word(&mut arguments, rtsp);
    push_word(&mut arguments, "-flags");
    push_word(&mut arguments, "+cgop");
    push_word(&mut arguments, "-f");
    push_word(&mut arguments, "mp4");
    push_word(&mut arguments, "-movflags");
    push_word(&mut arguments, "frag_keyframe+empty_moov");
    push_word(&mut arguments, "-c:v");
    push_word(&mut arguments, "copy");
    push_word(&mut arguments, "-");
    arguments
}

/// What the decoder is started with to stream a camera live as HLS segments
/// of a second each, with a key frame every second of the stream, listed in
/// `playlist`.
pub open spec fn hls_arguments(
    force_tcp: bool,
    rtsp: Seq<char>,
    frame_rate: u32,
    playlist: Seq<char>,
) -> Seq<Seq<char>> {
    (if force_tcp {
        seq!["-rtsp_transport"@, "tcp"@]
    } else {
        Seq::empty()
    }) + seq![
        "-i"@,
        rtsp,
        "-flags"@,
        "+cgop"@,
        "-g"@,
        decimal((frame_rate / 1000) as nat),
        "-c:v"@,
        "copy"@,
        "-hls_time"@,
        "1"@,
        playlist,
    ]
}

/// The arguments to stream the camera at `rtsp`, which runs at `frame_rate`
/// thousandths of frames per second, live as HLS.
pub fn plan_hls(force_tcp: bool, rtsp: &str, frame_rate: u32, playlist: &str) -> (arguments: Vec<
    String,
>)
    ensures
        words(arguments@) == hls_arguments(force_tcp, rtsp@, frame_rate, playlist@),
{
    let mut arguments: Vec<String> = Vec::new();
    if force_tcp {
        push_word(&mut arguments, "-rtsp_transport");
        push_word(&mut arguments, "tcp");
    }
    let mut group = String::new();
    push_decimal(&mut group, (frame_rate / 1000) as u128);
    push_word(&mut arguments, "-i");
    push_word(&mut arguments, rtsp);
    push_word(&mut arguments, "-flags");
    push_word(&mut arguments, "+cgop");
    push_word(&mut arguments, "-g");
    push_owned(&mut arguments, group);
    push_word(&mut arguments, "-c:v");
    push_word(&mut arguments, "copy");
    push_word(&mut arguments, "-hls_time");
    push_word(&mut arguments, "1");
    push_word(&mut arguments, playlist);
    arguments
}

/// Number of bytes of one decoded frame, three for each pixel; `None` where
/// that many bytes cannot be addressed.
pub fn frame_size(width: u32, height: u32) -> (size: Option<usize>)
    ensures
        size is Some <==> 3 * (width as nat * height as nat) <= usize::MAX,
        size matches Some(n) ==> n == 3 * (width as nat * height as nat),
{
    let w: u128 = width as u128;
    let h: u128 = height as u128;
    assert(w * h <= 0xffff_ffff * 0xffff_ffff) by (nonlinear_arith)
        requires
            w <= 0xffff_ffff,
            h <= 0xffff_ffff,
    ;
    let bytes: u128 = 3 * (w * h);
    if bytes <= usize::MAX as u128 {
        Some(bytes as usize)
    } else {
        None
    }
}

/// What the exit of the decoder means: a clean exit is no error, and any
/// other exit is an error with the exit code, or with zero where the
/// decoder left no code.
pub fn decoder_outcome(exited_cleanly: bool, code: Option<i32>) -> (outcome: Result<
    (),
    FFMpegError,
>)
    ensures
        exited_cleanly ==> outcome is Ok,
        !exited_cleanly ==> (outcome matches Err(FFMpegError::ExitedWithError(c)) && c == match code {
            Some(code) => code,
            None => 0,
        }),
{
    if exited_cleanly {
        Ok(())
    } else {
        Err(
            FFMpegError::ExitedWithError(
                match code {
                    Some(code) => code,
                    None => 0,
                },
            ),
        )
    }
}

} // verus!
