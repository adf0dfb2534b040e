use rmr::config::{
    default_ffmpeg_bin, default_frame_rate, default_pushover, default_web_base, CameraMode,
    PreviewFormat, PushoverConfig, PushoverPriority,
};
use rmr::frame::RgbFrame;
use rmr::modect::{MotionDetectionEvent, MotionDetectionFrame, WallClock};
use rmr::observable_buf::ObservableBuf;
use rmr::preview::PreviewError;
use rmr::pushover::{
    alert_event, can_alert, compose_alert, is_suppressed, AlertState, PushoverAlert,
};
use rmr::text::{push_decimal, push_two_places};
use std::io::Write;
use std::sync::atomic::Ordering;

fn pushover(preview_format: PreviewFormat, priority: PushoverPriority) -> PushoverConfig {
    PushoverConfig {
        url: default_pushover(),
        user_key: "user-1".to_string(),
        token: "token-1".to_string(),
        preview_format,
        priority,
    }
}

fn event(total_score: u128, start: u64, end: u64) -> MotionDetectionEvent {
    let image = RgbFrame::from_raw(4, 4, vec![80; 48]).unwrap();
    MotionDetectionEvent {
        start_stream_frame_number: start,
        end_stream_frame_number: end,
        frames: vec![MotionDetectionFrame { image, change: 7, stddev: 0 }],
        total_score,
    }
}

fn now() -> WallClock {
    WallClock { secs: 1_700_000_000, nanos: 123 }
}

#[test]
fn defaults_are_as_documented() {
    assert_eq!(default_ffmpeg_bin(), "ffmpeg");
    assert_eq!(default_web_base(), "/");
    assert_eq!(default_frame_rate(), 25_000);
    assert_eq!(default_pushover(), "https://api.pushover.net/1/messages.json");
    assert_eq!(PushoverPriority::default(), PushoverPriority::Normal);
    assert_eq!(PreviewFormat::default(), PreviewFormat::Webp);
    assert_ne!(CameraMode::Disable, CameraMode::MotionDetect);
}

#[test]
fn priorities_map_to_their_numbers() {
    let all = [
        (PushoverPriority::Ignore, -3),
        (PushoverPriority::Lowest, -2),
        (PushoverPriority::Low, -1),
        (PushoverPriority::Normal, 0),
        (PushoverPriority::High, 1),
        (PushoverPriority::Emergency, 2),
    ];
    for (priority, number) in all {
        assert_eq!(priority.value(), number);
        assert_eq!(PushoverPriority::from_value(number), Some(priority));
    }
    assert_eq!(PushoverPriority::from_value(3), None);
    assert_eq!(PushoverPriority::from_value(-4), None);
}

#[test]
fn numbers_are_written_in_decimal() {
    let mut out = String::from("n=");
    push_decimal(&mut out, 0);
    out.push(',');
    push_decimal(&mut out, 7);
    out.push(',');
    push_decimal(&mut out, 1_234_567_890);
    out.push(',');
    push_decimal(&mut out, u128::MAX);
    assert_eq!(out, "n=0,7,1234567890,340282366920938463463374607431768211455");
}

#[test]
fn scores_are_written_with_two_places() {
    let render = |thousandths: u128| {
        let mut out = String::new();
        push_two_places(&mut out, thousandths);
        out
    };
    assert_eq!(render(0), "0.00");
    assert_eq!(render(4), "0.00");
    assert_eq!(render(5), "0.00");
    assert_eq!(render(6), "0.01");
    assert_eq!(render(15), "0.02");
    assert_eq!(render(25), "0.02");
    assert_eq!(render(1_234), "1.23");
    assert_eq!(render(1_236), "1.24");
    assert_eq!(render(999_996), "1000.00");
    assert_eq!(render(2_500_000), "2500.00");
    assert_eq!(render(15_000_070), "15000.07");
}

#[test]
fn new_alert_takes_the_account_from_the_settings() {
    let settings = pushover(PreviewFormat::Off, PushoverPriority::High);
    let alert = PushoverAlert::new(Some(&settings));
    assert_eq!(alert.user, "user-1");
    assert_eq!(alert.token, "token-1");
    assert_eq!(alert.priority, Some(1));
    assert!(alert.message.is_empty());
    assert!(alert.attachment.is_empty());
    assert!(alert.filename.is_none());
    assert!(alert.attachment_type.is_none());
    assert!(alert.timestamp.is_none());
    assert!(alert.title.is_none());
    let blank = PushoverAlert::new(None);
    assert!(blank.user.is_empty());
    assert!(blank.token.is_empty());
    assert_eq!(blank.priority, None);
}

#[test]
fn alert_says_what_happened() {
    let settings = pushover(PreviewFormat::Off, PushoverPriority::Normal);
    let alert = compose_alert(
        Some(&settings),
        now(),
        &event(15_000_126, 40, 52),
        None,
        "porch",
        AlertState::Completed,
    )
    .unwrap();
    assert_eq!(alert.title.as_deref(), Some("Motion @ porch"));
    assert_eq!(
        alert.message,
        "Total Score: 15000.13<br> Start Frame: 40<br>Total Frames: 12"
    );
    assert_eq!(alert.timestamp, Some(1_700_000_000));
    assert_eq!(alert.priority, Some(0));
    assert_eq!(alert.user, "user-1");
    assert_eq!(alert.token, "token-1");
    assert!(alert.attachment.is_empty());
}

#[test]
fn title_tells_the_kind_of_news() {
    let settings = pushover(PreviewFormat::Off, PushoverPriority::High);
    let title = |state: AlertState| {
        compose_alert(Some(&settings), now(), &event(1, 0, 0), None, "yard", state)
            .unwrap()
            .title
            .unwrap()
    };
    assert_eq!(title(AlertState::Confirmed), "Ongoing Motion @ yard");
    assert_eq!(title(AlertState::Completed), "Motion @ yard");
    assert_eq!(title(AlertState::CompletedAfterConfirm), "Ended Ongoing Motion @ yard");
}

#[test]
fn end_of_an_announced_run_is_of_lowest_priority() {
    let settings = pushover(PreviewFormat::Off, PushoverPriority::High);
    let priority = |camera: Option<PushoverPriority>, state: AlertState| {
        compose_alert(Some(&settings), now(), &event(1, 0, 0), camera, "yard", state)
            .map(|alert| alert.priority)
    };
    assert_eq!(priority(None, AlertState::Confirmed), Some(Some(1)));
    assert_eq!(priority(None, AlertState::CompletedAfterConfirm), Some(Some(-2)));
    assert_eq!(priority(Some(PushoverPriority::Emergency), AlertState::Completed), Some(Some(2)));
    assert_eq!(
        priority(Some(PushoverPriority::Emergency), AlertState::CompletedAfterConfirm),
        Some(Some(-2))
    );
}

#[test]
fn ignored_cameras_get_no_alert() {
    let loud = pushover(PreviewFormat::Off, PushoverPriority::High);
    let muted = pushover(PreviewFormat::Off, PushoverPriority::Ignore);
    let made = |settings: &PushoverConfig, camera: Option<PushoverPriority>| {
        compose_alert(
            Some(settings),
            now(),
            &event(1, 0, 0),
            camera,
            "yard",
            AlertState::CompletedAfterConfirm,
        )
        .is_some()
    };
    assert!(made(&loud, None));
    assert!(!made(&loud, Some(PushoverPriority::Ignore)));
    assert!(!made(&muted, None));
    assert!(made(&muted, Some(PushoverPriority::Low)));
    let unset =
        compose_alert(None, now(), &event(1, 0, 0), None, "yard", AlertState::Completed).unwrap();
    assert_eq!(unset.priority, None);
    assert!(unset.user.is_empty());
}

#[test]
fn readings_before_the_epoch_wrap_around() {
    let early = WallClock { secs: -1, nanos: 0 };
    let alert =
        compose_alert(None, early, &event(1, 0, 0), None, "yard", AlertState::Completed).unwrap();
    assert_eq!(alert.timestamp, Some(u64::MAX));
    let earliest = WallClock { secs: i64::MIN, nanos: 0 };
    let alert =
        compose_alert(None, earliest, &event(1, 0, 0), None, "yard", AlertState::Completed)
            .unwrap();
    assert_eq!(alert.timestamp, Some(1u64 << 63));
}

#[test]
fn alert_carries_the_configured_preview() {
    let with_still = pushover(PreviewFormat::Jpeg, PushoverPriority::Normal);
    let alert = alert_event(
        Some(&with_still),
        now(),
        &event(2_500_000, 3, 9),
        None,
        "porch",
        25_000,
        AlertState::Confirmed,
    )
    .unwrap()
    .unwrap();
    assert_eq!(alert.title.as_deref(), Some("Ongoing Motion @ porch"));
    assert_eq!(alert.message, "Total Score: 2500.00<br> Start Frame: 3<br>Total Frames: 6");
    assert_eq!(alert.attachment_type.as_deref(), Some("image/jpeg"));
    assert_eq!(&alert.attachment[..2], &[0xff, 0xd8]);

    let with_animation = pushover(PreviewFormat::Webp, PushoverPriority::Normal);
    let alert = alert_event(
        Some(&with_animation),
        now(),
        &event(2_500_000, 3, 9),
        None,
        "porch",
        25_000,
        AlertState::Completed,
    )
    .unwrap()
    .unwrap();
    assert_eq!(alert.attachment_type.as_deref(), Some("image/webp"));

    let unset = alert_event(
        None,
        now(),
        &event(2_500_000, 3, 9),
        None,
        "porch",
        25_000,
        AlertState::Completed,
    )
    .unwrap()
    .unwrap();
    assert!(unset.attachment.is_empty());
    assert!(unset.attachment_type.is_none());
}

#[test]
fn muted_alert_is_not_made_at_all() {
    let settings = pushover(PreviewFormat::Gif, PushoverPriority::Normal);
    let made = alert_event(
        Some(&settings),
        now(),
        &event(1, 0, 0),
        Some(PushoverPriority::Ignore),
        "porch",
        25_000,
        AlertState::Completed,
    );
    assert!(matches!(made, Ok(None)));
}

#[test]
fn alert_fails_with_its_preview() {
    let settings = pushover(PreviewFormat::Gif, PushoverPriority::Normal);
    let wide = RgbFrame::from_raw(70_000, 1, vec![0; 210_000]).unwrap();
    let event = MotionDetectionEvent {
        start_stream_frame_number: 0,
        end_stream_frame_number: 0,
        frames: vec![MotionDetectionFrame { image: wide, change: 1, stddev: 0 }],
        total_score: 1,
    };
    let made =
        alert_event(Some(&settings), now(), &event, None, "porch", 25_000, AlertState::Completed);
    assert!(matches!(made, Err(PreviewError::EncoderFailed)));
}

#[test]
fn observable_buffer_reports_its_length() {
    let mut bytes = vec![1u8, 2, 3];
    {
        let (mut sink, length) = ObservableBuf::new(&mut bytes);
        assert_eq!(length.load(Ordering::SeqCst), 3);
        assert_eq!(sink.write(&[4, 5]).unwrap(), 2);
        assert_eq!(length.load(Ordering::SeqCst), 5);
        sink.write_all(&[6, 7, 8]).unwrap();
        sink.flush().unwrap();
        assert_eq!(length.load(Ordering::SeqCst), 8);
        assert_eq!(sink.len.load(Ordering::SeqCst), 8);
    }
    assert_eq!(bytes, vec![1, 2, 3, 4, 5, 6, 7, 8]);
}

#[test]
fn muted_alert_never_looks_at_the_event() {
    let settings = pushover(PreviewFormat::Webp, PushoverPriority::Ignore);
    let backwards = MotionDetectionEvent {
        start_stream_frame_number: 9,
        end_stream_frame_number: 3,
        frames: vec![],
        total_score: 0,
    };
    assert!(is_suppressed(Some(&settings), None));
    assert!(can_alert(Some(&settings), None, &backwards, 0));
    for state in [AlertState::Confirmed, AlertState::Completed, AlertState::CompletedAfterConfirm] {
        let made = alert_event(Some(&settings), now(), &backwards, None, "porch", 0, state);
        assert!(matches!(made, Ok(None)));
    }
    let loud = pushover(PreviewFormat::Webp, PushoverPriority::High);
    assert!(is_suppressed(Some(&loud), Some(PushoverPriority::Ignore)));
    assert!(!is_suppressed(Some(&loud), None));
    assert!(!is_suppressed(Some(&settings), Some(PushoverPriority::Low)));
    assert!(!is_suppressed(None, None));
}

#[test]
fn alerts_can_be_asked_for() {
    let animated = pushover(PreviewFormat::Webp, PushoverPriority::Normal);
    let plain = pushover(PreviewFormat::Off, PushoverPriority::Normal);
    let backwards = MotionDetectionEvent {
        start_stream_frame_number: 9,
        end_stream_frame_number: 3,
        frames: vec![],
        total_score: 0,
    };
    assert!(!can_alert(Some(&plain), None, &backwards, 25_000));
    assert!(can_alert(Some(&plain), Some(PushoverPriority::Ignore), &backwards, 25_000));
    assert!(can_alert(Some(&plain), None, &event(1, 3, 3), 0));
    assert!(can_alert(Some(&animated), None, &event(1, 3, 3), 25_000));
    assert!(can_alert(Some(&animated), None, &event(1, 3, 3), 999));
    assert!(!can_alert(Some(&animated), None, &event(1, 3, 3), 0));
    assert!(can_alert(None, None, &event(1, 3, 3), 0));
}

#[test]
fn alert_is_made_of_an_event_without_pixels() {
    let settings = pushover(PreviewFormat::Gif, PushoverPriority::Normal);
    let empty = RgbFrame::from_raw(0, 0, vec![]).unwrap();
    let event = MotionDetectionEvent {
        start_stream_frame_number: 4,
        end_stream_frame_number: 4,
        frames: vec![MotionDetectionFrame { image: empty, change: 1, stddev: 0 }],
        total_score: 1,
    };
    let made =
        alert_event(Some(&settings), now(), &event, None, "porch", 25_000, AlertState::Completed)
            .unwrap()
            .unwrap();
    assert_eq!(made.attachment_type.as_deref(), Some("image/gif"));
    assert_eq!(made.title.as_deref(), Some("Motion @ porch"));
    assert_eq!(made.priority, Some(0));
    assert_eq!(made.timestamp, Some(1_700_000_000));
}
