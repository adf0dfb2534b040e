//! Previews of an event for an alert: which frames go into one, and how a
//! preview is kept within the size that an alert can carry.

use vstd::prelude::*;
use vstd::string::StringExecFns;
use crate::codec::{
    jpeg_encoding, encode_jpeg, webp_added, webp_setup, webp_opens, webp_takes, webp_closes,
    webp_encoding, open_webp, add_webp_frame, finish_webp, gif_frames, gif_repeat,
    gif_encoding, open_gif, encode_gif_frame, gif_written, close_gif, raster, last_time,
    GifRepeat, TimedFrame, WebpSettings, MAX_ENCODED_SIDE, MAX_WEBP_CANVAS_WIDTH,
};
use crate::config::PreviewFormat;
use crate::frame::RasterView;
use crate::model::{ScoredFrame, EventView};
use crate::modect::{MotionDetectionFrame, MotionDetectionEvent, frames_view};
use crate::pushover::{PushoverAlert, MAX_ALERT_ATTACHMENT_SIZE};

verus! {

/// Bytes that one frame of an animation may take on average.
pub const MAX_WEBP_BYTES_PER_FRAME: usize = 8192;

/// Twice the size, in bytes, that the encoder is asked to aim at for each
/// frame of an animation.
pub const TARGET_WEBP_BYTES_PER_FRAME: usize = 7000;

/// The most frames that a sampled animation holds.
pub const MAX_WEBP_FRAMES: usize = MAX_ALERT_ATTACHMENT_SIZE / MAX_WEBP_BYTES_PER_FRAME;

/// `i` is the frame for a still: no frame scores higher, and none before it
/// scores as high.
pub open spec fn is_best_frame(frames: Seq<ScoredFrame>, i: int) -> bool {
    &&& 0 <= i < frames.len()
    &&& forall|j: int| 0 <= j < frames.len() ==> (#[trigger] frames[j]).change <= frames[i].change
    &&& forall|j: int| 0 <= j < i ==> (#[trigger] frames[j]).change < frames[i].change
}

/// At most one frame is the best one.
pub proof fn lemma_best_frame_unique(frames: Seq<ScoredFrame>, i: int, j: int)
    requires
        is_best_frame(frames, i),
        is_best_frame(frames, j),
    ensures
        i == j,
{
    if i < j {
        assert(frames[i].change < frames[j].change);
        assert(frames[j].change <= frames[i].change);
    } else if j < i {
        assert(frames[j].change < frames[i].change);
        assert(frames[i].change <= frames[j].change);
    }
}

/// The frame that scores highest, and of several that do, the earliest;
/// `None` when there is no frame.
pub fn best_frame_index(frames: &Vec<MotionDetectionFrame>) -> (best: Option<usize>)
    ensures
        best is None <==> frames@.len() == 0,
        best matches Some(i) ==> is_best_frame(frames_view(frames@), i as int),
{
    if frames.len() == 0 {
        return None;
    }
    let mut best: usize = 0;
    let mut i: usize = 1;
    while i < frames.len()
        invariant
            1 <= i <= frames.len(),
            best < i,
            forall|j: int| 0 <= j < i ==> frames@[j].change <= frames@[best as int].change,
            forall|j: int| 0 <= j < best ==> frames@[j].change < frames@[best as int].change,
        decreases frames.len() - i,
    {
        if frames[i].change > frames[best].change {
            best = i;
        }
        i = i + 1;
    }
    assert(is_best_frame(frames_view(frames@), best as int));
    Some(best)
}

/// Where the `k`-th sample of `n` frames aims: `k * n / MAX_WEBP_FRAMES`,
/// rounded to the nearest frame, and up from half way.
pub open spec fn sample_target(k: nat, n: nat) -> nat {
    (2 * (k * n) + MAX_WEBP_FRAMES as nat) / (2 * MAX_WEBP_FRAMES as nat)
}

/// The first `k` samples of `n` frames, or as many of them as there are
/// frames for. Each sample is the frame it aims at, or the frame after the
/// sample before it where the aim falls no later than that one; sampling
/// stops at the first sample that falls behind the last frame.
pub open spec fn sample_plan(n: nat, k: nat) -> Seq<nat>
    decreases k,
{
    if k == 0 {
        Seq::empty()
    } else {
        let before = sample_plan(n, (k - 1) as nat);
        if before.len() < k - 1 {
            before
        } else {
            let aim = sample_target((k - 1) as nat, n);
            let index = if k > 1 && aim <= before.last() {
                before.last() + 1
            } else {
                aim
            };
            if index < n {
                before.push(index)
            } else {
                before
            }
        }
    }
}

/// The frames that a sampled animation of `n` frames holds.
pub open spec fn samples(n: nat) -> Seq<nat> {
    sample_plan(n, MAX_WEBP_FRAMES as nat)
}

/// The first sample aims at the first frame: half a frame's share rounds
/// down to none.
pub proof fn lemma_first_sample_target(n: nat)
    ensures
        sample_target(0, n) == 0,
{
    let product = 0nat * n;
    assert(product == 0) by (nonlinear_arith)
        requires
            product == 0nat * n,
    ;
    let top = 2 * product + MAX_WEBP_FRAMES as nat;
    let bottom = 2 * MAX_WEBP_FRAMES as nat;
    assert(top == 320 && bottom == 640);
    assert(top / bottom == 0) by (nonlinear_arith)
        requires
            top == 320,
            bottom == 640,
    ;
}

/// A plan holds no more samples than were asked for, every sample is a frame,
/// and the samples go strictly forward.
pub proof fn lemma_sample_plan_shape(n: nat, k: nat)
    ensures
        sample_plan(n, k).len() <= k,
        forall|i: int| 0 <= i < sample_plan(n, k).len() ==> #[trigger] sample_plan(n, k)[i] < n,
        forall|i: int, j: int|
            0 <= i < j < sample_plan(n, k).len() ==> #[trigger] sample_plan(n, k)[i]
                < #[trigger] sample_plan(n, k)[j],
        n > 0 && k > 0 ==> sample_plan(n, k).len() >= 1 && sample_plan(n, k)[0] == 0,
    decreases k,
{
    if k > 0 {
        lemma_sample_plan_shape(n, (k - 1) as nat);
        if k == 1 {
            lemma_first_sample_target(n);
        }
    }
}

/// Every sampled animation of at least one frame holds at least one frame,
/// and never more than `MAX_WEBP_FRAMES`; its frames are frames of the event,
/// each later than the one before.
pub proof fn law_samples_in_order(n: nat)
    ensures
        samples(n).len() <= MAX_WEBP_FRAMES,
        n > 0 ==> samples(n).len() >= 1,
        forall|i: int| 0 <= i < samples(n).len() ==> #[trigger] samples(n)[i] < n,
        forall|i: int, j: int|
            0 <= i < j < samples(n).len() ==> #[trigger] samples(n)[i] < #[trigger] samples(n)[j],
{
    lemma_sample_plan_shape(n, MAX_WEBP_FRAMES as nat);
}

/// The frames that a sampled animation of `n` frames holds, in order.
pub fn sample_indices(n: usize) -> (plan: Vec<usize>)
    ensures
        plan@.len() == samples(n as nat).len(),
        forall|i: int| 0 <= i < plan@.len() ==> plan@[i] == samples(n as nat)[i],
{
    let mut plan: Vec<usize> = Vec::new();
    let mut k: usize = 0;
    let mut stopped = false;
    while k < MAX_WEBP_FRAMES && !stopped
        invariant
            k <= MAX_WEBP_FRAMES,
            MAX_WEBP_FRAMES == 320,
            plan@.len() == sample_plan(n as nat, k as nat).len(),
            forall|i: int| 0 <= i < plan@.len() ==> plan@[i] == sample_plan(n as nat, k as nat)[i],
            !stopped ==> plan@.len() == k,
            stopped ==> plan@.len() < k,
            forall|i: int| 0 <= i < plan@.len() ==> plan@[i] < n,
            stopped ==> sample_plan(n as nat, MAX_WEBP_FRAMES as nat) == sample_plan(
                n as nat,
                k as nat,
            ),
        decreases MAX_WEBP_FRAMES - k, if stopped { 0int } else { 1int },
    {
        let doubled: u128 = 2 * (k as u128);
        assert(doubled * (n as u128) <= 640 * 0xffff_ffff_ffff_ffff) by (nonlinear_arith)
            requires
                doubled <= 640,
                n <= 0xffff_ffff_ffff_ffff,
        ;
        let scaled: u128 = doubled * (n as u128) + 320;
        let aim: u128 = scaled / 640;
        assert(aim == sample_target(k as nat, n as nat)) by {
            assert(2 * ((k as nat) * (n as nat)) == doubled * (n as u128)) by (nonlinear_arith)
                requires
                    doubled == 2 * k,
            ;
        }
        let index: u128 = if k > 0 && aim <= plan[k - 1] as u128 {
            plan[k - 1] as u128 + 1
        } else {
            aim
        };
        let ghost before = sample_plan(n as nat, k as nat);
        assert(sample_plan(n as nat, (k + 1) as nat) == if index < n {
            before.push(index as nat)
        } else {
            before
        });
        if index < n as u128 {
            plan.push(index as usize);
        } else {
            stopped = true;
            proof {
                lemma_sample_plan_stops(n as nat, (k + 1) as nat, MAX_WEBP_FRAMES as nat);
            }
        }
        k = k + 1;
    }
    plan
}

/// Once a plan has stopped short, asking for more samples adds none.
pub proof fn lemma_sample_plan_stops(n: nat, k: nat, more: nat)
    requires
        sample_plan(n, k).len() < k,
        k <= more,
    ensures
        sample_plan(n, more) == sample_plan(n, k),
    decreases more,
{
    if more > k {
        lemma_sample_plan_stops(n, k, (more - 1) as nat);
    }
}

/// Why an event got no preview.
#[derive(Clone, Copy, Debug, PartialEq, Eq, Structural)]
pub enum PreviewError {
    /// The encoder refused the frames or could not finish the file.
    EncoderFailed,
    /// The file is larger than an alert can carry.
    TooLarge,
}

/// Neither side of the image is longer than the encoders of stills and GIFs
/// take.
pub open spec fn is_narrow(image: RasterView) -> bool {
    image.width <= MAX_ENCODED_SIDE && image.height <= MAX_ENCODED_SIDE
}

/// Two alerts say the same, whatever they carry.
pub open spec fn same_text(a: PushoverAlert, b: PushoverAlert) -> bool {
    &&& a.user == b.user
    &&& a.token == b.token
    &&& a.message == b.message
    &&& a.priority == b.priority
    &&& a.timestamp == b.timestamp
    &&& a.title == b.title
}

/// The alert carries `bytes` as a file named `name` of media type `media`.
pub open spec fn carries(
    alert: PushoverAlert,
    bytes: Seq<u8>,
    media: Seq<char>,
    name: Seq<char>,
) -> bool {
    &&& alert.attachment@ == bytes
    &&& alert.attachment_type matches Some(t) && t@ == media
    &&& alert.filename matches Some(f) && f@ == name
}

/// Puts a file on the alert in place of whatever it carried.
pub fn attach_file(alert: &mut PushoverAlert, bytes: Vec<u8>, media: &str, name: &str)
    ensures
        same_text(*old(alert), *final(alert)),
        carries(*final(alert), bytes@, media@, name@),
{
    alert.attachment = bytes;
    alert.attachment_type = Some(String::from_str(media));
    alert.filename = Some(String::from_str(name));
}

/// Puts a file on the alert if an alert can carry it, and leaves the alert
/// as it was if the file is too large.
pub fn attach_file_within_limit(
    alert: &mut PushoverAlert,
    bytes: Vec<u8>,
    media: &str,
    name: &str,
) -> (attached: Result<(), PreviewError>)
    ensures
        attached is Ok <==> bytes@.len() <= MAX_ALERT_ATTACHMENT_SIZE,
        attached is Ok ==> same_text(*old(alert), *final(alert)) && carries(
            *final(alert),
            bytes@,
            media@,
            name@,
        ),
        attached is Err ==> attached == Err::<(), PreviewError>(PreviewError::TooLarge)
            && *final(alert) == *old(alert),
{
    if bytes.len() > MAX_ALERT_ATTACHMENT_SIZE {
        Err(PreviewError::TooLarge)
    } else {
        attach_file(alert, bytes, media, name);
        Ok(())
    }
}

/// The frame that a still of the event shows.
pub open spec fn best_frame(frames: Seq<ScoredFrame>) -> int {
    choose|i: int| is_best_frame(frames, i)
}

/// Whether an event gets its still: it has none to get without frames, and
/// gets it if its best frame is narrow enough for the encoder.
pub open spec fn jpeg_succeeds(event: EventView) -> bool {
    event.frames.len() == 0 || is_narrow(event.frames[best_frame(event.frames)].image)
}

/// Attaches the event's highest-scoring frame as a JPEG still. An event
/// without frames leaves the alert as it was. The still is attached exactly
/// if neither side of the frame is longer than 65535 pixels; else the alert
/// stays as it was.
pub fn attach_jpeg(alert: &mut PushoverAlert, event: &MotionDetectionEvent) -> (attached: Result<
    (),
    PreviewError,
>)
    ensures
        attached is Ok <==> jpeg_succeeds(event@),
        event@.frames.len() == 0 ==> *final(alert) == *old(alert),
        event@.frames.len() > 0 ==> is_best_frame(event@.frames, best_frame(event@.frames)),
        event@.frames.len() > 0 && attached is Ok ==> same_text(*old(alert), *final(alert))
            && carries(
            *final(alert),
            jpeg_encoding(event@.frames[best_frame(event@.frames)].image),
            "image/jpeg"@,
            "event.jpeg"@,
        ),
        attached is Err ==> attached == Err::<(), PreviewError>(PreviewError::EncoderFailed)
            && *final(alert) == *old(alert),
{
    match best_frame_index(&event.frames) {
        None => Ok(()),
        Some(best) => {
            proof {
                lemma_best_frame_unique(event@.frames, best as int, best_frame(event@.frames));
            }
            let frame = &event.frames[best];
            assert(event@.frames[best as int] == frame@);
            let width = frame.image.width();
            let height = frame.image.height();
            assert(frame@.image =~= raster(width, height, frame.image@.data));
            match encode_jpeg(width, height, frame.image.as_raw()) {
                Ok(bytes) => {
                    attach_file(alert, bytes, "image/jpeg", "event.jpeg");
                    Ok(())
                },
                Err(_) => Err(PreviewError::EncoderFailed),
            }
        },
    }
}

/// Quality of a sampled animation, from 0 to 100.
pub const WEBP_QUALITY: u8 = 25;

/// How hard the encoder of a sampled animation works, from 0 to 6.
pub const WEBP_METHOD: usize = 3;

/// How the sampled animation of an event is set up: on a canvas of the shape
/// of the event's first frame, lossy at quality 25 and method 3, for the
/// smallest file, aiming at half of `TARGET_WEBP_BYTES_PER_FRAME` a frame.
pub open spec fn webp_settings(event: EventView) -> WebpSettings {
    WebpSettings {
        width: event.frames[0].image.width as u32,
        height: event.frames[0].image.height as u32,
        target_size: TARGET_WEBP_BYTES_PER_FRAME / 2,
        quality: WEBP_QUALITY,
        method: WEBP_METHOD,
        minimize_size: true,
    }
}

/// Milliseconds between two frames of a sampled animation at `frame_rate`
/// thousandths of frames per second: a thousand over the frames per second,
/// rounded down to a whole millisecond.
pub open spec fn sample_millis(frame_rate: u32) -> int {
    1_000_000int / frame_rate as int
}

/// What the animation encoder is given for an event: each sampled frame, at
/// its rank times the milliseconds between frames.
pub open spec fn webp_input(frames: Seq<ScoredFrame>, millis: int) -> Seq<TimedFrame> {
    Seq::new(
        samples(frames.len()).len(),
        |k: int| (frames[samples(frames.len())[k] as int].image, k * millis),
    )
}

/// The time at which the sampled animation of an event is closed: one step
/// after its last sample.
pub open spec fn webp_end(event: EventView, frame_rate: u32) -> int {
    samples(event.frames.len()).len() * sample_millis(frame_rate)
}

/// The encoder takes sample `k` of the event after the samples before it.
pub open spec fn webp_takes_sample(event: EventView, frame_rate: u32, k: int) -> bool {
    let input = webp_input(event.frames, sample_millis(frame_rate));
    webp_takes(webp_settings(event), input.subrange(0, k), input[k])
}

/// The encoder makes the sampled animation of the event: the canvas is no
/// wider than the encoder is given frames for, and the encoder starts, takes
/// every sample in turn, and assembles the file.
pub open spec fn webp_succeeds(event: EventView, frame_rate: u32) -> bool {
    let input = webp_input(event.frames, sample_millis(frame_rate));
    &&& event.frames[0].image.width <= MAX_WEBP_CANVAS_WIDTH
    &&& webp_opens(webp_settings(event))
    &&& forall|k: int| 0 <= k < input.len() ==> #[trigger] webp_takes_sample(event, frame_rate, k)
    &&& webp_closes(webp_settings(event), input, webp_end(event, frame_rate))
}

/// The sampled animation of an event as a WebP file.
pub open spec fn webp_preview(event: EventView, frame_rate: u32) -> Seq<u8> {
    webp_encoding(
        webp_settings(event),
        webp_input(event.frames, sample_millis(frame_rate)),
        webp_end(event, frame_rate),
    )
}

/// Attaches an even sample of the event's frames as a WebP animation. The
/// animation is attached exactly if the encoder makes it and it fits an
/// alert; else the alert stays as it was, and the error tells which of the
/// two failed. The encoder is known to refuse a first frame without pixels,
/// and a second sample where no whole millisecond lies between two frames,
/// which is above a thousand frames per second.
pub fn attach_webp(alert: &mut PushoverAlert, event: &MotionDetectionEvent, frame_rate: u32) -> (attached:
    Result<(), PreviewError>)
    requires
        event@.frames.len() > 0,
        frame_rate > 0,
    ensures
        attached is Ok <==> webp_succeeds(event@, frame_rate) && webp_preview(
            event@,
            frame_rate,
        ).len() <= MAX_ALERT_ATTACHMENT_SIZE,
        attached == Err::<(), PreviewError>(PreviewError::TooLarge) <==> webp_succeeds(
            event@,
            frame_rate,
        ) && webp_preview(event@, frame_rate).len() > MAX_ALERT_ATTACHMENT_SIZE,
        attached is Ok ==> same_text(*old(alert), *final(alert)) && carries(
            *final(alert),
            webp_preview(event@, frame_rate),
            "image/webp"@,
            "event.webp"@,
        ),
        attached is Err ==> *final(alert) == *old(alert),
        event@.frames[0].image.width == 0 || event@.frames[0].image.height == 0
            ==> !webp_succeeds(event@, frame_rate),
        sample_millis(frame_rate) == 0 && samples(event@.frames.len()).len() >= 2
            ==> !webp_succeeds(event@, frame_rate),
{
    let first = &event.frames[0];
    assert(event@.frames[0] == first@);
    let setup = WebpSettings {
        width: first.image.width(),
        height: first.image.height(),
        target_size: TARGET_WEBP_BYTES_PER_FRAME / 2,
        quality: WEBP_QUALITY,
        method: WEBP_METHOD,
        minimize_size: true,
    };
    assert(setup == webp_settings(event@));
    if setup.width > MAX_WEBP_CANVAS_WIDTH {
        return Err(PreviewError::EncoderFailed);
    }
    let millis: i32 = (1_000_000 / frame_rate) as i32;
    let plan = sample_indices(event.frames.len());
    proof {
        law_samples_in_order(event@.frames.len());
    }
    let ghost input = webp_input(event@.frames, millis as int);
    let mut encoder = match open_webp(setup) {
        Ok(encoder) => encoder,
        Err(_) => {
            return Err(PreviewError::EncoderFailed);
        },
    };
    let mut k: usize = 0;
    while k < plan.len()
        invariant
            k <= plan@.len(),
            plan@.len() == samples(event@.frames.len()).len(),
            plan@.len() <= MAX_WEBP_FRAMES,
            MAX_WEBP_FRAMES == 320,
            0 <= millis <= 1_000_000,
            millis == sample_millis(frame_rate),
            forall|i: int| 0 <= i < plan@.len() ==> plan@[i] == samples(event@.frames.len())[i],
            forall|i: int| 0 <= i < plan@.len() ==> plan@[i] < event@.frames.len(),
            input == webp_input(event@.frames, millis as int),
            webp_added(encoder) == input.subrange(0, k as int),
            webp_setup(encoder) == webp_settings(event@),
            webp_settings(event@).width <= MAX_WEBP_CANVAS_WIDTH,
            event@.frames[0].image.width <= MAX_WEBP_CANVAS_WIDTH,
            webp_opens(webp_settings(event@)),
            forall|j: int| 0 <= j < k ==> #[trigger] webp_takes_sample(event@, frame_rate, j),
            k >= 2 ==> millis > 0,
        decreases plan@.len() - k,
    {
        let frame = &event.frames[plan[k]];
        assert(event@.frames[plan@[k as int] as int] == frame@);
        let width = frame.image.width();
        let height = frame.image.height();
        assert(k * millis <= 320 * 1_000_000) by (nonlinear_arith)
            requires
                0 <= k <= 320,
                0 <= millis <= 1_000_000,
        ;
        let at_ms: i32 = (k as i32) * millis;
        proof {
            assert(frame@.image =~= raster(width, height, frame.image@.data));
            assert(input[k as int] == (frame@.image, k * millis));
            if k >= 1 {
                assert(input.subrange(0, k as int).last() == input[k - 1]);
                assert(input[k - 1].1 == (k - 1) * millis);
                assert((k - 1) * millis + millis == k * millis) by (nonlinear_arith);
                if millis == 0 {
                    assert(k * millis == 0 && (k - 1) * millis == 0) by (nonlinear_arith)
                        requires
                            millis == 0,
                    ;
                }
            }
        }
        match add_webp_frame(&mut encoder, width, height, frame.image.as_raw(), at_ms) {
            Ok(()) => {},
            Err(_) => {
                assert(!webp_takes_sample(event@, frame_rate, k as int));
                return Err(PreviewError::EncoderFailed);
            },
        }
        proof {
            assert(webp_takes_sample(event@, frame_rate, k as int));
            assert(input.subrange(0, k as int).push(input[k as int]) =~= input.subrange(
                0,
                k + 1,
            ));
        }
        k = k + 1;
    }
    assert(input.subrange(0, k as int) =~= input);
    assert(plan@.len() * millis <= 320 * 1_000_000) by (nonlinear_arith)
        requires
            0 <= plan@.len() <= 320,
            0 <= millis <= 1_000_000,
    ;
    let end_ms: i32 = (plan.len() as i32) * millis;
    match finish_webp(encoder, end_ms) {
        Ok(bytes) => attach_file_within_limit(alert, bytes, "image/webp", "event.webp"),
        Err(_) => Err(PreviewError::EncoderFailed),
    }
}

/// Nanoseconds for which one frame of a GIF is shown at `frame_rate`
/// thousandths of frames per second.
pub open spec fn gif_delay(frame_rate: u32) -> int {
    1_000_000_000_000int / frame_rate as int
}

/// What the GIF encoder is given for the first `count` frames of an event.
pub open spec fn gif_input(frames: Seq<ScoredFrame>, delay: int, count: nat) -> Seq<TimedFrame> {
    Seq::new(count, |i: int| (frames[i].image, delay))
}

/// The bytes of the looping GIF of the first `count` frames.
pub open spec fn gif_bytes(frames: Seq<ScoredFrame>, delay: int, count: nat) -> Seq<u8> {
    gif_encoding(GifRepeat::Infinite, gif_input(frames, delay, count))
}

/// The GIF of the first `count` frames is no larger than an alert can carry.
pub open spec fn gif_fits(frames: Seq<ScoredFrame>, delay: int, count: nat) -> bool {
    gif_bytes(frames, delay, count).len() <= MAX_ALERT_ATTACHMENT_SIZE
}

/// How many of the first `upto` frames a GIF keeps: all frames before the
/// first one whose encoding takes the file over the limit.
pub open spec fn gif_kept(frames: Seq<ScoredFrame>, delay: int, upto: nat) -> nat
    decreases upto,
{
    if upto == 0 {
        0
    } else {
        let before = gif_kept(frames, delay, (upto - 1) as nat);
        if before == upto - 1 && gif_fits(frames, delay, upto) {
            upto
        } else {
            before
        }
    }
}

/// The GIF of an event: its frames in order, up to the last one that keeps
/// the file within the limit, playing without end.
pub open spec fn gif_preview(event: EventView, frame_rate: u32) -> Seq<u8> {
    let delay = gif_delay(frame_rate);
    gif_bytes(event.frames, delay, gif_kept(event.frames, delay, event.frames.len()))
}

/// Whether an event gets its GIF: every frame that is handed to the encoder,
/// which are the frames that are kept and the one that is cut, is narrow
/// enough for it.
pub open spec fn gif_succeeds(event: EventView, frame_rate: u32) -> bool {
    forall|i: int|
        0 <= i < event.frames.len() && i <= gif_kept(
            event.frames,
            gif_delay(frame_rate),
            event.frames.len(),
        ) ==> is_narrow((#[trigger] event.frames[i]).image)
}

/// Once a frame has taken the file over the limit, later frames are not kept
/// either.
pub proof fn lemma_gif_kept_stops(frames: Seq<ScoredFrame>, delay: int, at: nat, upto: nat)
    requires
        gif_kept(frames, delay, at) < at,
        at <= upto,
    ensures
        gif_kept(frames, delay, upto) == gif_kept(frames, delay, at),
    decreases upto,
{
    if upto > at {
        lemma_gif_kept_stops(frames, delay, at, (upto - 1) as nat);
    }
}

/// Looking at more frames never keeps fewer, and never keeps more than were
/// looked at.
pub proof fn lemma_gif_kept_grows(frames: Seq<ScoredFrame>, delay: int, at: nat, upto: nat)
    requires
        at <= upto,
    ensures
        gif_kept(frames, delay, at) <= gif_kept(frames, delay, upto) <= upto,
    decreases upto,
{
    if upto > at {
        lemma_gif_kept_grows(frames, delay, at, (upto - 1) as nat);
    } else if upto > 0 {
        lemma_gif_kept_grows(frames, delay, (upto - 1) as nat, (upto - 1) as nat);
    }
}

/// Attaches the event's frames as a GIF that loops forever. The file is
/// measured after every frame and cut back to its size before the first
/// frame that takes it over the limit, so it is never larger than an alert
/// can carry. The GIF is attached exactly if no frame that is handed to the
/// encoder has a side of more than 65535 pixels; else the alert stays as it
/// was.
pub fn attach_gif(alert: &mut PushoverAlert, event: &MotionDetectionEvent, frame_rate: u32) -> (attached:
    Result<(), PreviewError>)
    requires
        frame_rate > 0,
    ensures
        attached is Ok <==> gif_succeeds(event@, frame_rate),
        attached is Ok ==> same_text(*old(alert), *final(alert)) && carries(
            *final(alert),
            gif_preview(event@, frame_rate),
            "image/gif"@,
            "event.gif"@,
        ) && final(alert).attachment@.len() <= MAX_ALERT_ATTACHMENT_SIZE,
        attached is Err ==> attached == Err::<(), PreviewError>(PreviewError::EncoderFailed)
            && *final(alert) == *old(alert),
{
    let delay_nanos: u64 = 1_000_000_000_000 / (frame_rate as u64);
    let ghost delay = gif_delay(frame_rate);
    let ghost frames = event@.frames;
    let mut stream = match open_gif(GifRepeat::Infinite) {
        Ok(stream) => stream,
        Err(_) => {
            return Err(PreviewError::EncoderFailed);
        },
    };
    assert(gif_frames(stream) =~= gif_input(frames, delay, 0));
    let mut acceptable_ending: usize = 0;
    let mut i: usize = 0;
    let mut full = false;
    while i < event.frames.len() && !full
        invariant
            i <= event.frames.len(),
            frames == event@.frames,
            delay == delay_nanos,
            delay == gif_delay(frame_rate),
            delay_nanos <= 1_000_000_000_000,
            gif_repeat(stream) == GifRepeat::Infinite,
            forall|j: int| 0 <= j < i ==> is_narrow((#[trigger] frames[j]).image),
            !full ==> gif_frames(stream) == gif_input(frames, delay, i as nat),
            !full ==> gif_kept(frames, delay, i as nat) == i,
            full ==> i >= 1 && gif_kept(frames, delay, i as nat) == i - 1,
            full ==> gif_bytes(frames, delay, (i - 1) as nat).is_prefix_of(
                gif_encoding(gif_repeat(stream), gif_frames(stream)),
            ),
            acceptable_ending == gif_bytes(
                frames,
                delay,
                gif_kept(frames, delay, i as nat),
            ).len(),
            acceptable_ending <= MAX_ALERT_ATTACHMENT_SIZE,
        decreases event.frames.len() - i, if full { 0int } else { 1int },
    {
        let frame = &event.frames[i];
        assert(frames[i as int] == frame@);
        let width = frame.image.width();
        let height = frame.image.height();
        assert(frame@.image =~= raster(width, height, frame.image@.data));
        match encode_gif_frame(&mut stream, width, height, frame.image.as_raw(), delay_nanos) {
            Ok(()) => {},
            Err(_) => {
                proof {
                    lemma_gif_kept_grows(frames, delay, i as nat, frames.len());
                    assert(!is_narrow(frames[i as int].image));
                }
                return Err(PreviewError::EncoderFailed);
            },
        }
        proof {
            assert(gif_input(frames, delay, i as nat).push((frame@.image, delay)) =~= gif_input(
                frames,
                delay,
                (i + 1) as nat,
            ));
        }
        let len = gif_written(&stream);
        if len > MAX_ALERT_ATTACHMENT_SIZE {
            full = true;
        } else {
            acceptable_ending = len;
        }
        i = i + 1;
    }
    proof {
        if full {
            lemma_gif_kept_stops(frames, delay, i as nat, frames.len());
        }
    }
    let ghost kept = gif_kept(frames, delay, frames.len());
    let ghost wanted = gif_bytes(frames, delay, kept);
    assert(wanted.is_prefix_of(gif_encoding(gif_repeat(stream), gif_frames(stream))));
    let mut bytes = close_gif(stream);
    assert(wanted.is_prefix_of(bytes@));
    bytes.truncate(acceptable_ending);
    assert(bytes@ =~= wanted);
    attach_file(alert, bytes, "image/gif", "event.gif");
    Ok(())
}

/// What an alert carries once the preview of the given format is on it:
/// nothing, the still of the best frame, the GIF, or the WebP where the
/// encoder makes one that fits an alert and the GIF where the WebP is too
/// large. An event without frames has no still.
pub open spec fn preview_attached(
    before: PushoverAlert,
    after: PushoverAlert,
    event: EventView,
    frame_rate: u32,
    format: PreviewFormat,
) -> bool {
    match format {
        PreviewFormat::Off => after == before,
        PreviewFormat::Jpeg => if event.frames.len() == 0 {
            after == before
        } else {
            same_text(before, after) && carries(
                after,
                jpeg_encoding(event.frames[best_frame(event.frames)].image),
                "image/jpeg"@,
                "event.jpeg"@,
            )
        },
        PreviewFormat::Gif => same_text(before, after) && carries(
            after,
            gif_preview(event, frame_rate),
            "image/gif"@,
            "event.gif"@,
        ),
        PreviewFormat::Webp => same_text(before, after) && if webp_preview(event, frame_rate).len()
            <= MAX_ALERT_ATTACHMENT_SIZE {
            carries(after, webp_preview(event, frame_rate), "image/webp"@, "event.webp"@)
        } else {
            carries(after, gif_preview(event, frame_rate), "image/gif"@, "event.gif"@)
        },
    }
}

/// Whether the preview of the given format gets made: none always does; a
/// still and a GIF if their frames are narrow enough; a WebP if the encoder
/// makes it and it either fits an alert or the GIF that takes its place gets
/// made.
pub open spec fn preview_succeeds(event: EventView, frame_rate: u32, format: PreviewFormat) -> bool {
    match format {
        PreviewFormat::Off => true,
        PreviewFormat::Jpeg => jpeg_succeeds(event),
        PreviewFormat::Gif => gif_succeeds(event, frame_rate),
        PreviewFormat::Webp => webp_succeeds(event, frame_rate) && (webp_preview(
            event,
            frame_rate,
        ).len() <= MAX_ALERT_ATTACHMENT_SIZE || gif_succeeds(event, frame_rate)),
    }
}

/// Whether `attach_preview` can be asked for a preview of the given format:
/// animations need a frame rate, and sampled ones a frame to start from.
pub open spec fn preview_possible(event: EventView, frame_rate: u32, format: PreviewFormat) -> bool {
    match format {
        PreviewFormat::Off => true,
        PreviewFormat::Jpeg => true,
        PreviewFormat::Gif => frame_rate > 0,
        PreviewFormat::Webp => frame_rate > 0 && event.frames.len() > 0,
    }
}

/// Whether `attach_preview` can be asked for a preview of this format.
pub fn can_preview(event: &MotionDetectionEvent, frame_rate: u32, format: PreviewFormat) -> (ok:
    bool)
    ensures
        ok == preview_possible(event@, frame_rate, format),
{
    match format {
        PreviewFormat::Off => true,
        PreviewFormat::Jpeg => true,
        PreviewFormat::Gif => frame_rate > 0,
        PreviewFormat::Webp => frame_rate > 0 && event.frames.len() > 0,
    }
}

/// Puts the preview of the given format on the alert: nothing, a still, a
/// GIF, or a WebP that gives way to a GIF when it is too large. Animations
/// are never larger than an alert can carry. The preview is attached exactly
/// if it gets made; else the alert stays as it was.
pub fn attach_preview(
    alert: &mut PushoverAlert,
    event: &MotionDetectionEvent,
    frame_rate: u32,
    format: PreviewFormat,
) -> (attached: Result<(), PreviewError>)
    requires
        preview_possible(event@, frame_rate, format),
    ensures
        attached is Ok <==> preview_succeeds(event@, frame_rate, format),
        attached is Ok ==> preview_attached(*old(alert), *final(alert), event@, frame_rate, format),
        attached is Ok && (format == PreviewFormat::Gif || format == PreviewFormat::Webp)
            ==> final(alert).attachment@.len() <= MAX_ALERT_ATTACHMENT_SIZE,
        attached is Err ==> attached == Err::<(), PreviewError>(PreviewError::EncoderFailed)
            && *final(alert) == *old(alert),
{
    match format {
        PreviewFormat::Off => Ok(()),
        PreviewFormat::Jpeg => attach_jpeg(alert, event),
        PreviewFormat::Gif => attach_gif(alert, event, frame_rate),
        PreviewFormat::Webp => match attach_webp(alert, event, frame_rate) {
            Ok(()) => Ok(()),
            Err(PreviewError::TooLarge) => attach_gif(alert, event, frame_rate),
            Err(PreviewError::EncoderFailed) => Err(PreviewError::EncoderFailed),
        },
    }
}

} // verus!
