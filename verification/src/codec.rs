//! The image encoders that previews are made with. What is said here of an
//! encoder is taken from its source and believed, not proved.

use vstd::prelude::*;
use std::cell::RefCell;
use std::rc::Rc;
use crate::frame::RasterView;

verus! {

/// `image::ImageError`: why an encoder of the `image` crate gave up. Nothing
/// is read from it.
#[verifier::external_type_specification]
#[verifier::external_body]
pub struct ExImageError(image::ImageError);

/// `webp_animation::Encoder`: an animation in the making.
#[verifier::external_type_specification]
#[verifier::external_body]
pub struct ExWebpEncoder(webp_animation::Encoder);

/// `webp_animation::Error`: why the animation encoder gave up. Nothing is
/// read from it.
#[verifier::external_type_specification]
#[verifier::external_body]
pub struct ExWebpError(webp_animation::Error);

/// The RGB image of the given shape and bytes.
pub open spec fn raster(width: u32, height: u32, rgb: Seq<u8>) -> RasterView {
    RasterView { width: width as nat, height: height as nat, data: rgb }
}

/// The longest side, in pixels, that the encoders of the `image` crate take.
pub const MAX_ENCODED_SIDE: u32 = 65535;

/// The longest time, in nanoseconds, for which a frame of a GIF is shown
/// here: a thousand seconds.
pub const MAX_GIF_DELAY_NANOS: u64 = 1_000_000_000_000;

/// The widest canvas, in pixels, that an animation encoder is given frames
/// for: the encoder counts the bytes of a row of four-byte pixels in 32
/// signed bits.
pub const MAX_WEBP_CANVAS_WIDTH: u32 = 536_870_911;

/// The JPEG file that the `image` crate writes for an RGB image.
pub uninterp spec fn jpeg_encoding(image: RasterView) -> Seq<u8>;

/// Encodes an RGB image as a JPEG file, through `ImageBuffer::from_raw` and
/// `ImageBuffer::write_to` with `ImageFormat::Jpeg`. The encoder refuses a
/// side of more than 65535 pixels and nothing else, and its answer depends
/// on the image alone, so the file that comes back is the file of that
/// image.
#[verifier::external_body]
pub(crate) fn encode_jpeg(width: u32, height: u32, rgb: &Vec<u8>) -> (encoded: Result<
    Vec<u8>,
    image::ImageError,
>)
    requires
        rgb@.len() == 3 * (width as nat * height as nat),
    ensures
        (encoded is Ok) == (width <= MAX_ENCODED_SIDE && height <= MAX_ENCODED_SIDE),
        encoded matches Ok(bytes) ==> bytes@ == jpeg_encoding(raster(width, height, rgb@)),
{
    let image = image::RgbImage::from_raw(width, height, rgb.clone()).unwrap();
    let mut bytes = Vec::new();
    image.write_to(&mut std::io::Cursor::new(&mut bytes), image::ImageFormat::Jpeg)?;
    Ok(bytes)
}

/// How a lossy animation is set up.
#[derive(Clone, Copy, Debug, PartialEq, Eq, Structural)]
pub struct WebpSettings {
    /// The width and the height of the canvas.
    pub width: u32,
    pub height: u32,
    /// The size in bytes that the encoder aims at for each frame.
    pub target_size: usize,
    /// From 0, smallest, to 100, best.
    pub quality: u8,
    /// From 0, fastest, to 6, slowest and smallest.
    pub method: usize,
    /// Whether the encoder trades time for a smaller file.
    pub minimize_size: bool,
}

/// A frame together with a time: the milliseconds at which an animation
/// shows it, or the nanoseconds for which it stays.
pub type TimedFrame = (RasterView, int);

/// The time of the last of `frames`, and -1 where there is none.
pub open spec fn last_time(frames: Seq<TimedFrame>) -> int {
    if frames.len() == 0 {
        -1
    } else {
        frames.last().1
    }
}

/// What an animation encoder was started with.
pub uninterp spec fn webp_setup(encoder: webp_animation::Encoder) -> WebpSettings;

/// The frames that an animation encoder has taken so far, each with its
/// time in milliseconds.
pub uninterp spec fn webp_added(encoder: webp_animation::Encoder) -> Seq<TimedFrame>;

/// Whether `webp_animation` starts an encoder with these settings.
pub uninterp spec fn webp_opens(setup: WebpSettings) -> bool;

/// Whether an encoder that was started with `setup` and has taken `frames`
/// takes `frame` next.
pub uninterp spec fn webp_takes(
    setup: WebpSettings,
    frames: Seq<TimedFrame>,
    frame: TimedFrame,
) -> bool;

/// Whether an encoder that was started with `setup` and has taken `frames`
/// assembles a file when it is closed at `end_ms`.
pub uninterp spec fn webp_closes(setup: WebpSettings, frames: Seq<TimedFrame>, end_ms: int) -> bool;

/// The WebP file that an encoder that was started with `setup` assembles
/// from `frames`, closed at `end_ms`.
pub uninterp spec fn webp_encoding(
    setup: WebpSettings,
    frames: Seq<TimedFrame>,
    end_ms: int,
) -> Seq<u8>;

/// Starts a lossy animation through `Encoder::new_with_options`, on the
/// picture preset of `LossyEncodingConfig::new_from_picture_preset`. Whether
/// an encoder comes back depends on the settings alone; a canvas with a side
/// of zero gets none. A new encoder has taken no frame.
#[verifier::external_body]
pub(crate) fn open_webp(setup: WebpSettings) -> (opened: Result<
    webp_animation::Encoder,
    webp_animation::Error,
>)
    ensures
        (opened is Ok) == webp_opens(setup),
        setup.width == 0 || setup.height == 0 ==> opened is Err,
        opened matches Ok(encoder) ==> webp_added(encoder).len() == 0 && webp_setup(encoder)
            == setup,
{
    let lossy = webp_animation::LossyEncodingConfig {
        target_size: setup.target_size,
        ..webp_animation::LossyEncodingConfig::new_from_picture_preset()
    };
    let encoding_type = webp_animation::EncodingType::Lossy(lossy);
    let (quality, method) = (setup.quality.into(), setup.method);
    let encoding_config = Some(webp_animation::EncodingConfig { encoding_type, quality, method });
    let minimize_size = setup.minimize_size;
    webp_animation::Encoder::new_with_options(
        (setup.width, setup.height),
        webp_animation::EncoderOptions { minimize_size, encoding_config, ..Default::default() },
    )
}

/// Gives the encoder one RGB frame at `at_ms`, through `Encoder::add_frame`,
/// which takes RGBA bytes: the frame passes through `DynamicImage::to_rgba8`
/// first. The encoder is only given frames for a canvas of at most
/// `MAX_WEBP_CANVAS_WIDTH` pixels in width: on a wider one its count of the
/// bytes of a row runs over. Whether the frame is taken depends on the encoder's settings, the
/// frames it has taken and the frame; a frame at a time that is not after
/// the last one, or with another number of pixels than the canvas, is not
/// taken. A frame that is taken joins the frames taken before it.
#[verifier::external_body]
pub(crate) fn add_webp_frame(
    encoder: &mut webp_animation::Encoder,
    width: u32,
    height: u32,
    rgb: &Vec<u8>,
    at_ms: i32,
) -> (added: Result<(), webp_animation::Error>)
    requires
        rgb@.len() == 3 * (width as nat * height as nat),
        webp_setup(*old(encoder)).width <= MAX_WEBP_CANVAS_WIDTH,
    ensures
        webp_setup(*final(encoder)) == webp_setup(*old(encoder)),
        (added is Ok) == webp_takes(
            webp_setup(*old(encoder)),
            webp_added(*old(encoder)),
            (raster(width, height, rgb@), at_ms as int),
        ),
        at_ms <= last_time(webp_added(*old(encoder))) ==> added is Err,
        width as nat * height as nat != webp_setup(*old(encoder)).width as nat * webp_setup(
            *old(encoder),
        ).height as nat ==> added is Err,
        added is Ok ==> webp_added(*final(encoder)) == webp_added(*old(encoder)).push(
            (raster(width, height, rgb@), at_ms as int),
        ),
{
    let image = image::RgbImage::from_raw(width, height, rgb.clone()).unwrap();
    let rgba = image::DynamicImage::ImageRgb8(image).to_rgba8();
    encoder.add_frame(rgba.as_raw(), at_ms)
}

/// Closes the animation at `end_ms` through `Encoder::finalize` and copies
/// the file out. Whether a file comes back depends on the encoder's settings,
/// the frames it has taken and the end; an encoder without frames, or an end
/// before the last frame, gives none. A file that comes back is the file of
/// the frames taken.
#[verifier::external_body]
pub(crate) fn finish_webp(encoder: webp_animation::Encoder, end_ms: i32) -> (finished: Result<
    Vec<u8>,
    webp_animation::Error,
>)
    ensures
        (finished is Ok) == webp_closes(webp_setup(encoder), webp_added(encoder), end_ms as int),
        webp_added(encoder).len() == 0 || end_ms < last_time(webp_added(encoder))
            ==> finished is Err,
        finished matches Ok(bytes) ==> bytes@ == webp_encoding(
            webp_setup(encoder),
            webp_added(encoder),
            end_ms as int,
        ),
{
    let data = encoder.finalize(end_ms)?;
    Ok(data.to_vec())
}

/// Where a GIF encoder writes: bytes that stay within reach while the
/// encoder holds the writer, and after it has dropped it. `GifEncoder` never
/// gives its writer back, so a writer that borrows its vector, as
/// `ObservableBuf` does, would leave nothing known of the vector once the
/// encoder is gone; and `GifEncoder<W>` cannot be made known to Verus with
/// a writer of this library for `W`, because its bound is a trait of std
/// that Verus has no account of. So the bytes are shared, in a cell that
/// Verus does not look into.
#[verifier::external_body]
pub struct GifSink {
    bytes: Rc<RefCell<Vec<u8>>>,
}

impl std::io::Write for GifSink {
    /// Appends all of `buf` through `RefCell::borrow_mut` and
    /// `Vec::extend_from_slice`.
    #[verifier::external_body]
    fn write(&mut self, buf: &[u8]) -> (written: std::io::Result<usize>)
    {
        self.bytes.borrow_mut().extend_from_slice(buf);
        Ok(buf.len())
    }

    /// Nothing is held back, so there is nothing to flush.
    fn flush(&mut self) -> (flushed: std::io::Result<()>)
        ensures
            flushed is Ok,
    {
        Ok(())
    }
}

/// How often an animated GIF plays.
#[derive(Clone, Copy, Debug, PartialEq, Eq, Structural)]
pub enum GifRepeat {
    /// This many times after the first.
    Finite(u16),
    /// Without end.
    Infinite,
}

/// An animated GIF in the making: `image::codecs::gif::GifEncoder` together
/// with the bytes it has written.
#[verifier::external_body]
pub struct GifStream {
    encoder: image::codecs::gif::GifEncoder<GifSink>,
    bytes: Rc<RefCell<Vec<u8>>>,
}

/// How often the GIF of a stream plays.
pub uninterp spec fn gif_repeat(stream: GifStream) -> GifRepeat;

/// The frames that a GIF stream has encoded so far, each with the time in
/// nanoseconds for which it is shown.
pub uninterp spec fn gif_frames(stream: GifStream) -> Seq<TimedFrame>;

/// The bytes that a `GifEncoder` set to play `repeat` has written once it has
/// encoded the given frames in order.
pub uninterp spec fn gif_encoding(repeat: GifRepeat, frames: Seq<TimedFrame>) -> Seq<u8>;

/// Starts a GIF through `GifEncoder::new` and sets how often it plays
/// through `GifEncoder::set_repeat`, which before the first frame only takes
/// note. The encoder writes nothing before its first frame.
#[verifier::external_body]
pub(crate) fn open_gif(repeat: GifRepeat) -> (opened: Result<GifStream, image::ImageError>)
    ensures
        opened is Ok,
        opened matches Ok(stream) ==> gif_repeat(stream) == repeat && gif_frames(stream).len()
            == 0 && gif_encoding(repeat, gif_frames(stream)).len() == 0,
{
    let bytes = Rc::new(RefCell::new(Vec::new()));
    let mut encoder = image::codecs::gif::GifEncoder::new(GifSink { bytes: bytes.clone() });
    encoder.set_repeat(
        match repeat {
            GifRepeat::Finite(times) => image::codecs::gif::Repeat::Finite(times),
            GifRepeat::Infinite => image::codecs::gif::Repeat::Infinite,
        },
    )?;
    Ok(GifStream { encoder, bytes })
}

/// Encodes one RGB frame, shown for `delay_nanos`, through
/// `GifEncoder::encode_frame`; the frame passes through
/// `DynamicImage::to_rgba8` and `Delay::from_saturating_duration` first,
/// which is only asked for times up to `MAX_GIF_DELAY_NANOS`: near the
/// longest time that it can hold, its arithmetic runs over. The encoder
/// refuses a side of more than 65535 pixels and nothing else. A frame that
/// is encoded joins the frames before it, and what was written before it
/// stays as it was.
#[verifier::external_body]
pub(crate) fn encode_gif_frame(
    stream: &mut GifStream,
    width: u32,
    height: u32,
    rgb: &Vec<u8>,
    delay_nanos: u64,
) -> (encoded: Result<(), image::ImageError>)
    requires
        rgb@.len() == 3 * (width as nat * height as nat),
        delay_nanos <= MAX_GIF_DELAY_NANOS,
    ensures
        (encoded is Ok) == (width <= MAX_ENCODED_SIDE && height <= MAX_ENCODED_SIDE),
        gif_repeat(*final(stream)) == gif_repeat(*old(stream)),
        encoded is Ok ==> gif_frames(*final(stream)) == gif_frames(*old(stream)).push(
            (raster(width, height, rgb@), delay_nanos as int),
        ),
        encoded is Ok ==> gif_encoding(
            gif_repeat(*old(stream)),
            gif_frames(*old(stream)),
        ).is_prefix_of(gif_encoding(gif_repeat(*final(stream)), gif_frames(*final(stream)))),
{
    let image = image::RgbImage::from_raw(width, height, rgb.clone()).unwrap();
    let rgba = image::DynamicImage::ImageRgb8(image).to_rgba8();
    let delay = image::Delay::from_saturating_duration(std::time::Duration::from_nanos(delay_nanos));
    stream.encoder.encode_frame(image::Frame::from_parts(rgba, 0, 0, delay))
}

/// How many bytes the stream has written, through `Vec::len`.
#[verifier::external_body]
pub(crate) fn gif_written(stream: &GifStream) -> (len: usize)
    ensures
        len == gif_encoding(gif_repeat(*stream), gif_frames(*stream)).len(),
{
    stream.bytes.borrow().len()
}

/// Ends the stream and hands out its bytes through `RefCell::take`. Dropping
/// the encoder may add a trailer behind what was written.
#[verifier::external_body]
pub(crate) fn close_gif(stream: GifStream) -> (bytes: Vec<u8>)
    ensures
        gif_encoding(gif_repeat(stream), gif_frames(stream)).is_prefix_of(bytes@),
{
    let GifStream { encoder, bytes } = stream;
    drop(encoder);
    bytes.take()
}

} // verus!
