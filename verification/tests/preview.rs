use rmr::config::PreviewFormat;
use rmr::frame::RgbFrame;
use rmr::modect::{MotionDetectionEvent, MotionDetectionFrame};
use rmr::preview::{
    attach_file, attach_file_within_limit, attach_gif, attach_jpeg, attach_preview, attach_webp,
    best_frame_index, can_preview, sample_indices, PreviewError, MAX_WEBP_FRAMES, WEBP_METHOD,
    WEBP_QUALITY,
};
use rmr::pushover::{PushoverAlert, MAX_ALERT_ATTACHMENT_SIZE};

fn solid(width: u32, height: u32, color: [u8; 3]) -> RgbFrame {
    let mut data = Vec::new();
    for _ in 0..(width * height) {
        data.extend_from_slice(&color);
    }
    RgbFrame::from_raw(width, height, data).unwrap()
}

/// A frame of 256 shades in an order that does not compress.
fn noise(width: u32, height: u32, seed: u32) -> RgbFrame {
    let mut data = Vec::new();
    let mut state = seed.wrapping_mul(2_654_435_761).wrapping_add(12345);
    for _ in 0..(width * height) {
        state = state.wrapping_mul(1_664_525).wrapping_add(1_013_904_223);
        let shade = (state >> 24) as u8;
        data.extend_from_slice(&[shade, shade, shade]);
    }
    RgbFrame::from_raw(width, height, data).unwrap()
}

fn scored(image: RgbFrame, change: u64) -> MotionDetectionFrame {
    MotionDetectionFrame { image, change, stddev: 0 }
}

fn event(frames: Vec<MotionDetectionFrame>) -> MotionDetectionEvent {
    let total_score = frames.iter().map(|f| f.change as u128).sum();
    MotionDetectionEvent {
        start_stream_frame_number: 10,
        end_stream_frame_number: 10 + frames.len().saturating_sub(1) as u64,
        frames,
        total_score,
    }
}

fn blank() -> PushoverAlert {
    let mut alert = PushoverAlert::new(None);
    alert.message = "seen".to_string();
    alert.priority = Some(1);
    alert
}

fn unchanged(alert: &PushoverAlert) -> bool {
    alert.attachment.is_empty()
        && alert.attachment_type.is_none()
        && alert.filename.is_none()
        && alert.message == "seen"
        && alert.priority == Some(1)
}

#[test]
fn limits_are_as_documented() {
    assert_eq!(MAX_ALERT_ATTACHMENT_SIZE, 2_621_440);
    assert_eq!(MAX_WEBP_FRAMES, 320);
    assert_eq!(WEBP_QUALITY, 25);
    assert_eq!(WEBP_METHOD, 3);
}

#[test]
fn best_frame_is_the_earliest_of_the_highest() {
    let frames = |changes: &[u64]| -> Vec<MotionDetectionFrame> {
        changes.iter().map(|c| scored(solid(1, 1, [0, 0, 0]), *c)).collect()
    };
    assert_eq!(best_frame_index(&frames(&[])), None);
    assert_eq!(best_frame_index(&frames(&[5])), Some(0));
    assert_eq!(best_frame_index(&frames(&[0, 3, 9, 2])), Some(2));
    assert_eq!(best_frame_index(&frames(&[0, 9, 3, 9, 9])), Some(1));
    assert_eq!(best_frame_index(&frames(&[7, 7, 7])), Some(0));
}

#[test]
fn short_events_are_sampled_whole() {
    assert_eq!(sample_indices(0), Vec::<usize>::new());
    assert_eq!(sample_indices(1), vec![0]);
    assert_eq!(sample_indices(5), vec![0, 1, 2, 3, 4]);
    let all: Vec<usize> = (0..320).collect();
    assert_eq!(sample_indices(320), all);
}

#[test]
fn long_events_are_sampled_evenly() {
    let doubled = sample_indices(640);
    assert_eq!(doubled.len(), 320);
    assert_eq!(&doubled[..4], &[0, 2, 4, 6]);
    assert_eq!(doubled[319], 638);
    let plan = sample_indices(480);
    assert_eq!(plan.len(), 320);
    // every sample aims at 1.5 times its rank, rounded up from half way
    assert_eq!(&plan[..6], &[0, 2, 3, 5, 6, 8]);
    assert_eq!(plan[319], 479);
    for pair in plan.windows(2) {
        assert!(pair[0] < pair[1]);
    }
}

#[test]
fn samples_that_would_repeat_move_on() {
    let plan = sample_indices(321);
    assert_eq!(plan.len(), 320);
    assert_eq!(&plan[..3], &[0, 1, 2]);
    for pair in plan.windows(2) {
        assert!(pair[0] < pair[1]);
    }
    assert!(plan[319] < 321);
    let few = sample_indices(3);
    assert_eq!(few, vec![0, 1, 2]);
}

#[test]
fn file_replaces_what_the_alert_carried() {
    let mut alert = blank();
    alert.attachment = vec![9, 9, 9, 9, 9];
    attach_file(&mut alert, vec![1, 2], "image/png", "x.png");
    assert_eq!(alert.attachment, vec![1, 2]);
    assert_eq!(alert.attachment_type.as_deref(), Some("image/png"));
    assert_eq!(alert.filename.as_deref(), Some("x.png"));
    assert_eq!(alert.message, "seen");
}

#[test]
fn file_over_the_limit_is_not_attached() {
    let mut alert = blank();
    let fits = vec![7u8; MAX_ALERT_ATTACHMENT_SIZE];
    assert_eq!(attach_file_within_limit(&mut alert, fits, "image/webp", "event.webp"), Ok(()));
    assert_eq!(alert.attachment.len(), MAX_ALERT_ATTACHMENT_SIZE);
    let mut other = blank();
    let over = vec![7u8; MAX_ALERT_ATTACHMENT_SIZE + 1];
    assert_eq!(
        attach_file_within_limit(&mut other, over, "image/webp", "event.webp"),
        Err(PreviewError::TooLarge)
    );
    assert!(unchanged(&other));
}

#[test]
fn still_shows_the_best_frame() {
    let frames = vec![
        scored(solid(16, 16, [250, 0, 0]), 10),
        scored(solid(16, 16, [0, 0, 250]), 90),
        scored(solid(16, 16, [0, 250, 0]), 90),
    ];
    let mut alert = blank();
    assert_eq!(attach_jpeg(&mut alert, &event(frames)), Ok(()));
    assert_eq!(alert.attachment_type.as_deref(), Some("image/jpeg"));
    assert_eq!(alert.filename.as_deref(), Some("event.jpeg"));
    assert_eq!(&alert.attachment[..2], &[0xff, 0xd8]);
    let decoded = image::load_from_memory(&alert.attachment).unwrap().to_rgb8();
    assert_eq!(decoded.dimensions(), (16, 16));
    let pixel = decoded.get_pixel(8, 8).0;
    assert!(pixel[2] > 200 && pixel[0] < 60 && pixel[1] < 60);
    assert_eq!(alert.message, "seen");
}

#[test]
fn still_of_an_empty_event_changes_nothing() {
    let mut alert = blank();
    assert_eq!(attach_jpeg(&mut alert, &event(vec![])), Ok(()));
    assert!(unchanged(&alert));
}

#[test]
fn still_of_an_oversized_frame_fails() {
    let wide = RgbFrame::from_raw(70_000, 1, vec![0; 210_000]).unwrap();
    let mut alert = blank();
    assert_eq!(
        attach_jpeg(&mut alert, &event(vec![scored(wide, 1)])),
        Err(PreviewError::EncoderFailed)
    );
    assert!(unchanged(&alert));
}

#[test]
fn gif_holds_every_frame_of_a_small_event() {
    let frames = vec![
        scored(solid(8, 8, [250, 0, 0]), 1),
        scored(solid(8, 8, [0, 250, 0]), 2),
        scored(solid(8, 8, [0, 0, 250]), 3),
    ];
    let mut alert = blank();
    assert_eq!(attach_gif(&mut alert, &event(frames), 25_000), Ok(()));
    assert_eq!(alert.attachment_type.as_deref(), Some("image/gif"));
    assert_eq!(alert.filename.as_deref(), Some("event.gif"));
    assert_eq!(&alert.attachment[..6], b"GIF89a");
    assert!(alert.attachment.len() <= MAX_ALERT_ATTACHMENT_SIZE);
    // the looping extension and three image separators
    assert!(alert.attachment.windows(11).any(|w| w == b"NETSCAPE2.0"));
    let mut bytes = alert.attachment.clone();
    bytes.push(0x3b);
    let decoder = image::codecs::gif::GifDecoder::new(std::io::Cursor::new(bytes)).unwrap();
    let decoded = image::AnimationDecoder::into_frames(decoder).collect_frames().unwrap();
    assert_eq!(decoded.len(), 3);
    assert_eq!(decoded[1].delay().numer_denom_ms(), (40, 1));
    assert_eq!(decoded[2].buffer().get_pixel(4, 4).0, [0, 0, 250, 255]);
}

#[test]
fn gif_of_an_empty_event_is_empty() {
    let mut alert = blank();
    assert_eq!(attach_gif(&mut alert, &event(vec![]), 25_000), Ok(()));
    assert!(alert.attachment.is_empty());
    assert_eq!(alert.attachment_type.as_deref(), Some("image/gif"));
}

fn count_gif_frames(bytes: &[u8]) -> usize {
    let mut closed = bytes.to_vec();
    closed.push(0x3b);
    let decoder = image::codecs::gif::GifDecoder::new(std::io::Cursor::new(closed)).unwrap();
    image::AnimationDecoder::into_frames(decoder).collect_frames().unwrap().len()
}

#[test]
fn gif_is_cut_before_the_frame_that_overflows() {
    let frames: Vec<MotionDetectionFrame> =
        (0..12).map(|i| scored(noise(512, 512, i), 1)).collect();
    let mut whole = blank();
    assert_eq!(attach_gif(&mut whole, &event(frames.clone()), 25_000), Ok(()));
    assert!(whole.attachment.len() <= MAX_ALERT_ATTACHMENT_SIZE);
    let kept = count_gif_frames(&whole.attachment);
    assert!(kept >= 1 && kept < frames.len());
    // the frames that were kept fit, and give the same bytes on their own
    let mut fitting = blank();
    assert_eq!(attach_gif(&mut fitting, &event(frames[..kept].to_vec()), 25_000), Ok(()));
    assert_eq!(fitting.attachment, whole.attachment);
    // one frame more is cut off again
    let mut more = blank();
    assert_eq!(attach_gif(&mut more, &event(frames[..kept + 1].to_vec()), 25_000), Ok(()));
    assert_eq!(more.attachment, whole.attachment);
    // and that frame alone takes more room than was left
    let mut single = blank();
    assert_eq!(attach_gif(&mut single, &event(frames[kept..kept + 1].to_vec()), 25_000), Ok(()));
    assert!(single.attachment.len() + whole.attachment.len() > MAX_ALERT_ATTACHMENT_SIZE);
}

#[test]
fn gif_of_an_oversized_frame_fails() {
    let wide = RgbFrame::from_raw(70_000, 1, vec![0; 210_000]).unwrap();
    let mut alert = blank();
    assert_eq!(
        attach_gif(&mut alert, &event(vec![scored(wide, 1)]), 25_000),
        Err(PreviewError::EncoderFailed)
    );
    assert!(unchanged(&alert));
}

#[test]
fn webp_holds_the_sampled_frames() {
    let frames = vec![
        scored(solid(16, 16, [250, 0, 0]), 1),
        scored(solid(16, 16, [0, 250, 0]), 2),
        scored(solid(16, 16, [0, 0, 250]), 3),
        scored(solid(16, 16, [250, 250, 0]), 4),
    ];
    let mut alert = blank();
    assert_eq!(attach_webp(&mut alert, &event(frames), 25_000), Ok(()));
    assert_eq!(alert.attachment_type.as_deref(), Some("image/webp"));
    assert_eq!(alert.filename.as_deref(), Some("event.webp"));
    assert_eq!(&alert.attachment[..4], b"RIFF");
    assert_eq!(&alert.attachment[8..12], b"WEBP");
    assert!(alert.attachment.len() <= MAX_ALERT_ATTACHMENT_SIZE);
    let decoder = webp_animation::Decoder::new(&alert.attachment).unwrap();
    assert_eq!(decoder.dimensions(), (16, 16));
    let stamps: Vec<i32> = decoder.into_iter().map(|frame| frame.timestamp()).collect();
    assert_eq!(stamps, vec![40, 80, 120, 160]);
    assert_eq!(alert.message, "seen");
}

#[test]
fn webp_of_frames_of_mixed_shapes_fails() {
    let frames = vec![
        scored(solid(16, 16, [250, 0, 0]), 1),
        scored(solid(8, 8, [0, 250, 0]), 2),
    ];
    let mut alert = blank();
    assert_eq!(attach_webp(&mut alert, &event(frames), 25_000), Err(PreviewError::EncoderFailed));
    assert!(unchanged(&alert));
}

#[test]
fn webp_needs_time_to_pass_between_frames() {
    // above a thousand frames per second no whole millisecond lies between two frames
    let frames = vec![
        scored(solid(16, 16, [250, 0, 0]), 1),
        scored(solid(16, 16, [0, 250, 0]), 2),
    ];
    let mut alert = blank();
    assert_eq!(
        attach_webp(&mut alert, &event(frames), 1_001_000),
        Err(PreviewError::EncoderFailed)
    );
    assert!(unchanged(&alert));
}

#[test]
fn preview_follows_the_format() {
    let frames = || {
        vec![scored(solid(8, 8, [250, 0, 0]), 1), scored(solid(8, 8, [0, 250, 0]), 2)]
    };
    let mut off = blank();
    assert_eq!(attach_preview(&mut off, &event(frames()), 25_000, PreviewFormat::Off), Ok(()));
    assert!(unchanged(&off));
    let mut still = blank();
    assert_eq!(attach_preview(&mut still, &event(frames()), 25_000, PreviewFormat::Jpeg), Ok(()));
    assert_eq!(still.attachment_type.as_deref(), Some("image/jpeg"));
    let mut gif = blank();
    assert_eq!(attach_preview(&mut gif, &event(frames()), 25_000, PreviewFormat::Gif), Ok(()));
    assert_eq!(gif.attachment_type.as_deref(), Some("image/gif"));
    let mut webp = blank();
    assert_eq!(attach_preview(&mut webp, &event(frames()), 25_000, PreviewFormat::Webp), Ok(()));
    assert_eq!(webp.attachment_type.as_deref(), Some("image/webp"));
    assert_eq!(webp.filename.as_deref(), Some("event.webp"));
}

fn shaped(width: u32, height: u32) -> MotionDetectionFrame {
    scored(solid(width, height, [9, 9, 9]), 1)
}

#[test]
fn still_is_made_of_any_frame_with_sides_up_to_the_limit() {
    for (width, height) in [(0, 0), (0, 5), (5, 0), (1, 1), (65_535, 1), (1, 65_535)] {
        let mut alert = blank();
        assert_eq!(attach_jpeg(&mut alert, &event(vec![shaped(width, height)])), Ok(()));
        assert_eq!(&alert.attachment[..2], &[0xff, 0xd8]);
        assert_eq!(alert.attachment_type.as_deref(), Some("image/jpeg"));
    }
    for (width, height) in [(65_536, 1), (1, 65_536)] {
        let mut alert = blank();
        assert_eq!(
            attach_jpeg(&mut alert, &event(vec![shaped(width, height)])),
            Err(PreviewError::EncoderFailed)
        );
        assert!(unchanged(&alert));
    }
}

#[test]
fn still_looks_at_the_best_frame_only() {
    // the frame that is too wide does not score highest
    let frames = vec![
        scored(solid(70_000, 1, [0, 0, 0]), 3),
        scored(solid(4, 4, [0, 0, 250]), 8),
    ];
    let mut alert = blank();
    assert_eq!(attach_jpeg(&mut alert, &event(frames)), Ok(()));
    let wide_wins = vec![
        scored(solid(70_000, 1, [0, 0, 0]), 8),
        scored(solid(4, 4, [0, 0, 250]), 8),
    ];
    let mut other = blank();
    assert_eq!(attach_jpeg(&mut other, &event(wide_wins)), Err(PreviewError::EncoderFailed));
    assert!(unchanged(&other));
}

#[test]
fn gif_is_made_of_any_frames_with_sides_up_to_the_limit() {
    let frames = vec![shaped(0, 5), shaped(5, 0), shaped(3, 3), shaped(0, 0), shaped(65_535, 1)];
    let mut alert = blank();
    assert_eq!(attach_gif(&mut alert, &event(frames), 25_000), Ok(()));
    assert_eq!(&alert.attachment[..6], b"GIF89a");
    for (width, height) in [(65_536, 1), (1, 65_536)] {
        let mut alert = blank();
        let frames = vec![shaped(2, 2), shaped(width, height), shaped(2, 2)];
        assert_eq!(attach_gif(&mut alert, &event(frames), 25_000), Err(PreviewError::EncoderFailed));
        assert!(unchanged(&alert));
    }
}

#[test]
fn gif_never_looks_at_frames_behind_the_cut() {
    let mut frames: Vec<MotionDetectionFrame> =
        (0..11).map(|i| scored(noise(512, 512, i), 1)).collect();
    frames.push(shaped(70_000, 1));
    let mut alert = blank();
    assert_eq!(attach_gif(&mut alert, &event(frames), 25_000), Ok(()));
    assert!(!alert.attachment.is_empty());
    assert!(alert.attachment.len() <= MAX_ALERT_ATTACHMENT_SIZE);
}

#[test]
fn webp_needs_a_first_frame_with_pixels() {
    for (width, height) in [(0, 0), (0, 4), (4, 0)] {
        let mut alert = blank();
        assert_eq!(
            attach_webp(&mut alert, &event(vec![shaped(width, height)]), 25_000),
            Err(PreviewError::EncoderFailed)
        );
        assert!(unchanged(&alert));
    }
}

#[test]
fn webp_at_a_thousand_frames_a_second_still_steps() {
    let mut alert = blank();
    let frames = vec![
        scored(solid(8, 8, [250, 0, 0]), 1),
        scored(solid(8, 8, [0, 250, 0]), 1),
        scored(solid(8, 8, [0, 0, 250]), 1),
    ];
    assert_eq!(attach_webp(&mut alert, &event(frames), 1_000_000), Ok(()));
    let decoder = webp_animation::Decoder::new(&alert.attachment).unwrap();
    let stamps: Vec<i32> = decoder.into_iter().map(|frame| frame.timestamp()).collect();
    assert_eq!(stamps, vec![1, 2, 3]);
    // a single sample needs no step
    let mut single = blank();
    assert_eq!(attach_webp(&mut single, &event(vec![shaped(8, 8)]), 5_000_000), Ok(()));
}

#[test]
fn previews_can_be_asked_for() {
    let none = event(vec![]);
    let some = event(vec![shaped(0, 0)]);
    assert!(can_preview(&none, 0, PreviewFormat::Off));
    assert!(can_preview(&none, 0, PreviewFormat::Jpeg));
    assert!(!can_preview(&none, 0, PreviewFormat::Gif));
    assert!(can_preview(&none, 1, PreviewFormat::Gif));
    assert!(!can_preview(&none, 25_000, PreviewFormat::Webp));
    assert!(!can_preview(&some, 0, PreviewFormat::Webp));
    assert!(can_preview(&some, 1, PreviewFormat::Webp));
}

#[test]
fn webp_steps_by_the_time_between_frames_rounded_down() {
    let frames = || {
        vec![
            scored(solid(8, 8, [250, 0, 0]), 1),
            scored(solid(8, 8, [0, 250, 0]), 1),
            scored(solid(8, 8, [0, 0, 250]), 1),
        ]
    };
    let stamps = |frame_rate: u32| {
        let mut alert = blank();
        assert_eq!(attach_webp(&mut alert, &event(frames()), frame_rate), Ok(()));
        let decoder = webp_animation::Decoder::new(&alert.attachment).unwrap();
        decoder.into_iter().map(|frame| frame.timestamp()).collect::<Vec<i32>>()
    };
    // 7.5 frames a second: 133.3 ms between frames
    assert_eq!(stamps(7_500), vec![133, 266, 399]);
    // 29.97 frames a second: 33.4 ms
    assert_eq!(stamps(29_970), vec![33, 66, 99]);
    // half a frame a second
    assert_eq!(stamps(500), vec![2_000, 4_000, 6_000]);
    // one frame in a thousand seconds
    assert_eq!(stamps(1), vec![1_000_000, 2_000_000, 3_000_000]);
}

#[test]
fn webp_is_not_tried_on_a_canvas_too_wide_for_the_encoder() {
    let wide = RgbFrame::from_raw(536_870_912, 0, vec![]).unwrap();
    let mut alert = blank();
    assert_eq!(
        attach_webp(&mut alert, &event(vec![scored(wide, 1)]), 25_000),
        Err(PreviewError::EncoderFailed)
    );
    assert!(unchanged(&alert));
}

#[test]
fn gif_shows_each_frame_for_the_time_between_frames() {
    let delays = |frame_rate: u32| {
        let frames = vec![scored(solid(4, 4, [250, 0, 0]), 1), scored(solid(4, 4, [0, 250, 0]), 1)];
        let mut alert = blank();
        assert_eq!(attach_gif(&mut alert, &event(frames), frame_rate), Ok(()));
        let mut bytes = alert.attachment.clone();
        bytes.push(0x3b);
        let decoder = image::codecs::gif::GifDecoder::new(std::io::Cursor::new(bytes)).unwrap();
        let decoded = image::AnimationDecoder::into_frames(decoder).collect_frames().unwrap();
        decoded.iter().map(|f| f.delay().numer_denom_ms()).collect::<Vec<(u32, u32)>>()
    };
    // a GIF counts in hundredths of a second
    assert_eq!(delays(25_000), vec![(40, 1), (40, 1)]);
    assert_eq!(delays(7_500), vec![(130, 1), (130, 1)]);
    // the slowest rate: a frame in a thousand seconds, which a GIF cannot hold
    assert_eq!(delays(1), vec![(655_350, 1), (655_350, 1)]);
}
