use rmr::frame::{GrayMask, RgbFrame};
use rmr::kernel::MotionDetector;
use rmr::modect::{
    MotionDetectionEvent, MotionDetectionState, RunningMotionDetector,
    RunningMotionDetectorConfig, WallClock,
};

const A: [u8; 3] = [0, 0, 0];
const B: [u8; 3] = [50, 0, 0];

fn solid(color: [u8; 3]) -> RgbFrame {
    let mut data = Vec::new();
    for _ in 0..16 {
        data.extend_from_slice(&color);
    }
    RgbFrame::from_raw(4, 4, data).unwrap()
}

/// Thresholds for these tests, with a dispersion threshold just
/// below zero so that evenly coloured frames can show motion.
fn config() -> RunningMotionDetectorConfig {
    RunningMotionDetectorConfig {
        change_minimum: 1_000,
        change_maximum: 10_000_000,
        stddev_minimum: -1,
        minimum_frame_count: 3,
        minimum_total_change: 10_000,
        followup_frame_count: 2,
        maximum_frame_wait: 1,
        mask_file: None,
    }
}

fn at(tick: i64) -> WallClock {
    WallClock { secs: 1_700_000_000 + tick, nanos: 5 }
}

fn run(config: RunningMotionDetectorConfig, colors: &[[u8; 3]]) -> Vec<MotionDetectionState> {
    let mut detector = RunningMotionDetector::new(config, None);
    let mut states = Vec::new();
    for (tick, color) in colors.iter().enumerate() {
        let frame = solid(*color);
        assert!(detector.accepts(&frame));
        let stats = detector.frame_recv_at(frame, at(tick as i64));
        assert_eq!(stats.frame_number, tick as u64);
        for (when, state) in detector.drain_pending_states() {
            assert_eq!(when, at(tick as i64));
            states.push(state);
        }
    }
    states
}

fn kinds(states: &[MotionDetectionState]) -> Vec<u16> {
    states.iter().map(|s| s.discriminant()).collect()
}

const IDLE: u16 = 0;
const WAIT: u16 = 1;
const ACTIVE: u16 = 2;
const FOLLOWUP: u16 = 3;
const REJECTED: u16 = 4;
const COMPLETED: u16 = 5;
const CONFIRMED: u16 = 6;

fn check_event(event: &MotionDetectionEvent, colors: &[[u8; 3]], closed: bool) {
    assert!(event.end_stream_frame_number >= event.start_stream_frame_number);
    assert!(!event.frames.is_empty());
    let span = event.end_stream_frame_number - event.start_stream_frame_number;
    if closed {
        assert_eq!(event.frames.len() as u64, span + 1);
    } else {
        assert_eq!(event.frames.len() as u64, span);
    }
    let mut total = 0u128;
    for (i, frame) in event.frames.iter().enumerate() {
        let position = event.start_stream_frame_number as usize + i;
        assert_eq!(frame.image.as_raw(), solid(colors[position]).as_raw());
        total += frame.change as u128;
    }
    assert_eq!(total, event.total_score);
}

#[test]
fn bootstrap_only() {
    let mut detector = RunningMotionDetector::new(config(), None);
    let now = WallClock { secs: 7, nanos: 9 };
    let stats = detector.frame_recv_at(solid(A), now);
    assert_eq!(stats.frame_number, 0);
    assert_eq!(stats.change, Some(0));
    assert_eq!(stats.stddev, Some(0));
    assert_eq!(detector.frame_number(), 1);
    let drained = detector.drain_pending_states();
    assert_eq!(drained.len(), 1);
    assert_eq!(drained[0].0, now);
    assert!(matches!(drained[0].1, MotionDetectionState::Idle { frame_number: 0 }));
    assert!(detector.drain_pending_states().is_empty());
}

#[test]
fn still_stream_stays_idle() {
    let states = run(config(), &[A, A, A, A, A]);
    assert_eq!(kinds(&states), vec![IDLE]);
    assert!(matches!(states[0], MotionDetectionState::Idle { frame_number: 0 }));
    let mut strict = config();
    strict.stddev_minimum = 0;
    assert_eq!(kinds(&run(strict, &[B, B, B, B])), vec![IDLE]);
}

#[test]
fn evenly_coloured_frames_have_no_dispersion() {
    // With the dispersion threshold at zero, a change that is the same in
    // every pixel is not motion.
    let mut strict = config();
    strict.stddev_minimum = 0;
    assert_eq!(kinds(&run(strict, &[A, B, A, B, A, A, A, A])), vec![IDLE]);
}

#[test]
fn short_run_is_rejected() {
    let colors = [A, B, A, A, A, A, A];
    let states = run(config(), &colors);
    assert_eq!(kinds(&states), vec![IDLE, WAIT, WAIT, FOLLOWUP, FOLLOWUP, REJECTED, IDLE]);
    match &states[1] {
        MotionDetectionState::WaitAndSee {
            start_frame_number,
            current_frame_number,
            current_score,
        } => {
            assert_eq!(*start_frame_number, 0);
            assert_eq!(*current_frame_number, 1);
            assert_eq!(*current_score, 2_500_000);
        }
        _ => panic!("expected wait and see"),
    }
    match &states[3] {
        MotionDetectionState::Followup {
            start_frame_number,
            current_frame_number,
            current_score,
        } => {
            assert_eq!(*start_frame_number, 0);
            assert_eq!(*current_frame_number, 3);
            assert_eq!(*current_score, 5_000_000);
        }
        _ => panic!("expected followup"),
    }
    match &states[5] {
        MotionDetectionState::Rejected { event } => {
            assert_eq!(event.start_stream_frame_number, 0);
            assert_eq!(event.end_stream_frame_number, 4);
            assert_eq!(event.frames.len(), 5);
            assert_eq!(event.total_score, 5_000_000);
            let changes: Vec<u64> = event.frames.iter().map(|f| f.change).collect();
            assert_eq!(changes, vec![0, 2_500_000, 2_500_000, 0, 0]);
            check_event(event, &colors, true);
        }
        _ => panic!("expected a rejection"),
    }
    assert!(matches!(states[6], MotionDetectionState::Idle { frame_number: 5 }));
}

#[test]
fn weak_run_is_rejected_for_its_score() {
    let mut demanding = config();
    demanding.minimum_total_change = 1_000_000_000;
    let states = run(demanding, &[A, B, A, B, A, B, A, A, A, A]);
    assert_eq!(
        kinds(&states),
        vec![IDLE, WAIT, WAIT, WAIT, WAIT, WAIT, WAIT, FOLLOWUP, FOLLOWUP, REJECTED, IDLE]
    );
}

#[test]
fn sustained_motion_is_completed_without_confirmation() {
    let colors = [A, B, A, B, A, A, A, A];
    let states = run(config(), &colors);
    assert_eq!(
        kinds(&states),
        vec![IDLE, WAIT, WAIT, ACTIVE, ACTIVE, FOLLOWUP, FOLLOWUP, COMPLETED, IDLE]
    );
    match &states[7] {
        MotionDetectionState::Completed { event, was_confirmed_already } => {
            assert!(!*was_confirmed_already);
            assert_eq!(event.start_stream_frame_number, 0);
            assert_eq!(event.end_stream_frame_number, 6);
            assert_eq!(event.frames.len(), 7);
            assert_eq!(event.total_score, 10_000_000);
            check_event(event, &colors, true);
        }
        _ => panic!("expected a completion"),
    }
    assert!(matches!(states[8], MotionDetectionState::Idle { frame_number: 7 }));
}

#[test]
fn long_motion_is_confirmed_then_completed() {
    let mut colors = Vec::new();
    for i in 0..20 {
        colors.push(if i % 2 == 0 { A } else { B });
    }
    // the stream ends on B; then it comes to rest
    colors.extend_from_slice(&[B, B, B, B]);
    let states = run(config(), &colors);
    let kinds = kinds(&states);
    assert_eq!(kinds.iter().filter(|k| **k == CONFIRMED).count(), 1);
    assert_eq!(kinds.iter().filter(|k| **k == COMPLETED).count(), 1);
    assert_eq!(kinds.iter().filter(|k| **k == REJECTED).count(), 0);
    // the run starts at frame 0; its budget of 1 + 2 + 3 frames is used up at frame 7
    let confirmed = kinds.iter().position(|k| *k == CONFIRMED).unwrap();
    assert_eq!(&kinds[..confirmed], &[IDLE, WAIT, WAIT, ACTIVE, ACTIVE, ACTIVE, ACTIVE]);
    assert_eq!(kinds[confirmed + 1], ACTIVE);
    match &states[confirmed] {
        MotionDetectionState::ConfirmedInProgress { event } => {
            assert_eq!(event.start_stream_frame_number, 0);
            assert_eq!(event.end_stream_frame_number, 7);
            assert_eq!(event.frames.len(), 7);
            assert_eq!(event.total_score, 6 * 2_500_000);
            check_event(event, &colors, false);
        }
        _ => panic!("expected a confirmation"),
    }
    let completed = kinds.iter().position(|k| *k == COMPLETED).unwrap();
    assert!(confirmed < completed);
    match &states[completed] {
        MotionDetectionState::Completed { event, was_confirmed_already } => {
            assert!(*was_confirmed_already);
            assert_eq!(event.start_stream_frame_number, 0);
            assert_eq!(event.end_stream_frame_number, 21);
            assert_eq!(event.total_score, 19 * 2_500_000);
            check_event(event, &colors, true);
        }
        _ => panic!("expected a completion"),
    }
    assert_eq!(kinds[completed + 1], IDLE);
    assert_eq!(kinds.len(), completed + 2);
}

#[test]
fn motion_during_followup_takes_the_buffer_into_the_run() {
    let colors = [A, B, B, A, A, A, A];
    let states = run(config(), &colors);
    // B to B is quiet and buffered; the change back to A picks the run up again
    assert_eq!(kinds(&states), vec![IDLE, WAIT, FOLLOWUP, ACTIVE, FOLLOWUP, FOLLOWUP, COMPLETED, IDLE]);
    match &states[3] {
        MotionDetectionState::Active { start_frame_number, current_score, .. } => {
            assert_eq!(*start_frame_number, 0);
            assert_eq!(*current_score, 5_000_000);
        }
        _ => panic!("expected active"),
    }
    match &states[6] {
        MotionDetectionState::Completed { event, was_confirmed_already } => {
            assert!(!*was_confirmed_already);
            let changes: Vec<u64> = event.frames.iter().map(|f| f.change).collect();
            assert_eq!(changes, vec![0, 2_500_000, 0, 2_500_000, 0, 0]);
            check_event(event, &colors, true);
        }
        _ => panic!("expected a completion"),
    }
}

#[test]
fn two_runs_lie_apart() {
    let colors = [A, B, A, A, A, A, B, A, B, A, A, A, A];
    let states = run(config(), &colors);
    let mut events = Vec::new();
    for state in &states {
        match state {
            MotionDetectionState::Rejected { event } => events.push(event),
            MotionDetectionState::Completed { event, .. } => events.push(event),
            _ => {}
        }
    }
    assert_eq!(events.len(), 2);
    assert!(events[0].end_stream_frame_number < events[1].start_stream_frame_number);
    assert_eq!(events[1].start_stream_frame_number, 5);
    for event in events {
        check_event(event, &colors, true);
    }
}

#[test]
fn flash_above_the_maximum_is_no_motion() {
    let mut narrow = config();
    narrow.change_maximum = 2_000_000;
    assert_eq!(kinds(&run(narrow, &[A, B, A, B])), vec![IDLE]);
    let mut exact = config();
    exact.change_maximum = 2_500_000;
    assert_eq!(kinds(&run(exact, &[A, B, A, B])), vec![IDLE]);
    let mut floor = config();
    floor.change_minimum = 2_500_000;
    assert_eq!(kinds(&run(floor, &[A, B, A, B])), vec![IDLE]);
}

#[test]
fn run_ends_at_once_without_a_buffer() {
    let mut eager = config();
    eager.followup_frame_count = 0;
    let states = run(eager, &[A, B, B]);
    assert_eq!(kinds(&states), vec![IDLE, WAIT, REJECTED, IDLE]);
    match &states[2] {
        MotionDetectionState::Rejected { event } => {
            assert_eq!(event.start_stream_frame_number, 0);
            assert_eq!(event.end_stream_frame_number, 1);
            assert_eq!(event.frames.len(), 2);
        }
        _ => panic!("expected a rejection"),
    }
}

#[test]
fn masked_stream_scores_the_pixels_let_through() {
    let mut bytes = vec![255u8; 16];
    bytes[5] = 0;
    let mask = GrayMask::from_raw(4, 4, bytes).unwrap();
    let mut detector = RunningMotionDetector::new(config(), Some(mask));
    let mut kinds = Vec::new();
    let mut scores = Vec::new();
    for (tick, color) in [A, B, A].iter().enumerate() {
        let stats = detector.frame_recv_at(solid(*color), at(tick as i64));
        scores.push(stats.change);
        for (_, state) in detector.drain_pending_states() {
            kinds.push(state.discriminant());
        }
    }
    assert_eq!(scores, vec![Some(0), Some(2_500_000), Some(2_500_000)]);
    assert_eq!(kinds, vec![IDLE, WAIT, WAIT]);
}

#[test]
fn stream_without_unmasked_pixels_never_moves() {
    let mask = GrayMask::from_raw(4, 4, vec![1u8; 16]).unwrap();
    let mut detector = RunningMotionDetector::new(config(), Some(mask));
    let first = detector.frame_recv_at(solid(A), at(0));
    assert_eq!(first.change, Some(0));
    let second = detector.frame_recv_at(solid(B), at(1));
    assert_eq!(second.change, None);
    assert_eq!(second.stddev, None);
    assert_eq!(second.frame_number, 1);
    let kinds: Vec<u16> =
        detector.drain_pending_states().iter().map(|(_, s)| s.discriminant()).collect();
    assert_eq!(kinds, vec![IDLE]);
}

#[test]
fn frame_of_another_shape_is_not_accepted() {
    let mut detector = RunningMotionDetector::new(config(), None);
    let wide = RgbFrame::from_raw(8, 2, vec![0; 48]).unwrap();
    assert!(detector.accepts(&wide));
    detector.frame_recv_at(solid(A), at(0));
    assert!(detector.accepts(&solid(B)));
    assert!(!detector.accepts(&wide));
}

#[test]
fn frame_recv_reads_the_clock() {
    let before = std::time::SystemTime::now()
        .duration_since(std::time::UNIX_EPOCH)
        .unwrap()
        .as_secs() as i64;
    let mut detector = RunningMotionDetector::new(config(), None);
    detector.frame_recv(solid(A));
    detector.frame_recv(solid(B));
    let drained = detector.drain_pending_states();
    assert_eq!(drained.len(), 2);
    for (when, _) in &drained {
        assert!(when.secs >= before - 1);
        assert!(when.secs <= before + 60);
        assert!(when.nanos < 2_000_000_000);
    }
}

#[test]
fn transitions_of_one_frame_share_one_reading() {
    let mut detector = RunningMotionDetector::new(config(), None);
    for color in [A, B, A, A, A] {
        detector.frame_recv(solid(color));
        detector.drain_pending_states();
    }
    detector.frame_recv(solid(A));
    let drained = detector.drain_pending_states();
    assert_eq!(drained.len(), 2);
    assert_eq!(drained[0].1.discriminant(), REJECTED);
    assert_eq!(drained[1].1.discriminant(), IDLE);
    assert_eq!(drained[0].0, drained[1].0);
}

#[test]
fn thresholds_can_be_copied() {
    let mut thresholds = config();
    thresholds.mask_file = Some("masks/porch.png".to_string());
    let copy = thresholds.clone();
    assert_eq!(copy.change_minimum, 1_000);
    assert_eq!(copy.change_maximum, 10_000_000);
    assert_eq!(copy.stddev_minimum, -1);
    assert_eq!(copy.minimum_frame_count, 3);
    assert_eq!(copy.minimum_total_change, 10_000);
    assert_eq!(copy.followup_frame_count, 2);
    assert_eq!(copy.maximum_frame_wait, 1);
    assert_eq!(copy.mask_file.as_deref(), Some("masks/porch.png"));
}

#[test]
fn state_numbers_are_fixed() {
    let event = || MotionDetectionEvent {
        start_stream_frame_number: 0,
        end_stream_frame_number: 0,
        frames: vec![],
        total_score: 0,
    };
    assert_eq!(MotionDetectionState::Idle { frame_number: 3 }.discriminant(), 0);
    assert_eq!(
        MotionDetectionState::WaitAndSee {
            start_frame_number: 0,
            current_frame_number: 1,
            current_score: 2
        }
        .discriminant(),
        1
    );
    assert_eq!(
        MotionDetectionState::Active {
            start_frame_number: 0,
            current_frame_number: 1,
            current_score: 2
        }
        .discriminant(),
        2
    );
    assert_eq!(
        MotionDetectionState::Followup {
            start_frame_number: 0,
            current_frame_number: 1,
            current_score: 2
        }
        .discriminant(),
        3
    );
    assert_eq!(MotionDetectionState::Rejected { event: event() }.discriminant(), 4);
    assert_eq!(
        MotionDetectionState::Completed { event: event(), was_confirmed_already: true }
            .discriminant(),
        5
    );
    assert_eq!(MotionDetectionState::ConfirmedInProgress { event: event() }.discriminant(), 6);
}

const C: [u8; 3] = [100, 0, 0];

/// A stream of three colours that lingers on each for a while.
fn wandering(seed: u32, length: usize) -> Vec<[u8; 3]> {
    let mut state = seed.wrapping_mul(747_796_405).wrapping_add(2_891_336_453);
    let mut colors = Vec::new();
    let mut current = A;
    for _ in 0..length {
        state = state.wrapping_mul(1_664_525).wrapping_add(1_013_904_223);
        match (state >> 24) % 8 {
            0 | 1 => current = A,
            2 => current = B,
            3 => current = C,
            _ => {}
        }
        colors.push(current);
    }
    colors
}

fn may_follow(config: &RunningMotionDetectorConfig, before: u16, after: u16) -> bool {
    let budget =
        config.maximum_frame_wait + config.followup_frame_count + config.minimum_frame_count;
    match before {
        IDLE => {
            after == WAIT
                || (after == ACTIVE && config.minimum_frame_count <= 1)
                || (after == CONFIRMED && budget == 0)
        }
        WAIT => {
            after == WAIT
                || after == ACTIVE
                || after == FOLLOWUP
                || (after == REJECTED && config.followup_frame_count == 0)
        }
        ACTIVE => {
            after == ACTIVE
                || after == CONFIRMED
                || after == FOLLOWUP
                || (after == COMPLETED && config.followup_frame_count == 0)
        }
        FOLLOWUP => after != IDLE,
        CONFIRMED => after == ACTIVE,
        REJECTED | COMPLETED => after == IDLE,
        _ => false,
    }
}

fn configs() -> Vec<RunningMotionDetectorConfig> {
    let mut all = vec![config()];
    let mut eager = config();
    eager.followup_frame_count = 0;
    eager.minimum_frame_count = 0;
    eager.maximum_frame_wait = 0;
    eager.minimum_total_change = 0;
    all.push(eager);
    let mut patient = config();
    patient.followup_frame_count = 4;
    patient.minimum_frame_count = 6;
    patient.maximum_frame_wait = 3;
    patient.minimum_total_change = 20_000_000;
    all.push(patient);
    let mut narrow = config();
    narrow.change_maximum = 5_000_000;
    narrow.minimum_frame_count = 1;
    all.push(narrow);
    all
}

#[test]
fn transitions_follow_the_path() {
    for config in configs() {
        for seed in 0..40 {
            let colors = wandering(seed, 200);
            let kinds = kinds(&run(config.clone(), &colors));
            assert_eq!(kinds[0], IDLE);
            for pair in kinds.windows(2) {
                assert!(may_follow(&config, pair[0], pair[1]), "{} then {}", pair[0], pair[1]);
            }
        }
    }
}

#[test]
fn events_hold_the_frames_of_their_span() {
    let mut verdicts = 0;
    for config in configs() {
        for seed in 0..40 {
            let colors = wandering(seed, 200);
            for state in run(config.clone(), &colors) {
                match state {
                    MotionDetectionState::Rejected { event } => {
                        check_event(&event, &colors, true);
                        verdicts += 1;
                    }
                    MotionDetectionState::Completed { event, .. } => {
                        check_event(&event, &colors, true);
                        verdicts += 1;
                    }
                    MotionDetectionState::ConfirmedInProgress { event } => {
                        check_event(&event, &colors, false);
                    }
                    _ => {}
                }
            }
        }
    }
    assert!(verdicts > 100);
}

#[test]
fn runs_end_once() {
    for config in configs() {
        for seed in 0..40 {
            let colors = wandering(seed, 200);
            let mut last_end: Option<u64> = None;
            for state in run(config.clone(), &colors) {
                let event = match &state {
                    MotionDetectionState::Rejected { event } => event,
                    MotionDetectionState::Completed { event, .. } => event,
                    _ => continue,
                };
                if let Some(end) = last_end {
                    assert!(end < event.start_stream_frame_number);
                }
                last_end = Some(event.end_stream_frame_number);
            }
        }
    }
}

#[test]
fn completions_tell_whether_the_run_was_confirmed() {
    let mut confirmed_runs = 0;
    let mut plain_runs = 0;
    for config in configs() {
        for seed in 0..40 {
            let colors = wandering(seed, 200);
            let mut announced: Vec<u64> = Vec::new();
            for state in run(config.clone(), &colors) {
                match state {
                    MotionDetectionState::ConfirmedInProgress { event } => {
                        assert!(!announced.contains(&event.start_stream_frame_number));
                        announced.push(event.start_stream_frame_number);
                    }
                    MotionDetectionState::Completed { event, was_confirmed_already } => {
                        let known = announced.contains(&event.start_stream_frame_number);
                        assert_eq!(was_confirmed_already, known);
                        if known {
                            confirmed_runs += 1;
                        } else {
                            plain_runs += 1;
                        }
                    }
                    _ => {}
                }
            }
        }
    }
    assert!(confirmed_runs > 0);
    assert!(plain_runs > 0);
}

#[test]
fn buffer_never_outgrows_the_followup_count() {
    // three quiet frames in a row end a run whose buffer holds two
    let states = run(config(), &[A, B, A, B, A, A, A, A, B]);
    let kinds = kinds(&states);
    assert_eq!(kinds.iter().filter(|k| **k == FOLLOWUP).count(), 2);
    assert_eq!(kinds[kinds.len() - 2], IDLE);
    assert_eq!(kinds[kinds.len() - 1], WAIT);
}

fn falls_short(config: &RunningMotionDetectorConfig, length: usize, score: u128) -> bool {
    length <= config.minimum_frame_count || (score as i128) < config.minimum_total_change as i128
}

#[test]
fn verdicts_are_earned() {
    for config in configs() {
        for seed in 0..40 {
            let colors = wandering(seed, 200);
            for state in run(config.clone(), &colors) {
                match state {
                    MotionDetectionState::Rejected { event } => {
                        let run_length = event.frames.len() - config.followup_frame_count;
                        assert!(falls_short(&config, run_length, event.total_score));
                    }
                    MotionDetectionState::Completed { event, .. } => {
                        let run_length = event.frames.len() - config.followup_frame_count;
                        assert!(!falls_short(&config, run_length, event.total_score));
                    }
                    MotionDetectionState::ConfirmedInProgress { event } => {
                        let budget = config.maximum_frame_wait
                            + config.followup_frame_count
                            + config.minimum_frame_count;
                        let span = event.end_stream_frame_number - event.start_stream_frame_number;
                        assert!(span as usize > budget);
                        assert!(event.total_score as i128 >= config.minimum_total_change as i128);
                    }
                    MotionDetectionState::WaitAndSee {
                        start_frame_number,
                        current_frame_number,
                        current_score,
                    } => {
                        let length = (current_frame_number - start_frame_number + 1) as usize;
                        assert!(falls_short(&config, length, current_score));
                    }
                    MotionDetectionState::Active {
                        start_frame_number,
                        current_frame_number,
                        current_score,
                    } => {
                        let length = (current_frame_number - start_frame_number + 1) as usize;
                        assert!(!falls_short(&config, length, current_score));
                    }
                    _ => {}
                }
            }
        }
    }
}

#[test]
fn events_keep_each_frame_with_its_score() {
    let mut checked = 0;
    for config in configs() {
        for seed in 0..20 {
            let colors = wandering(seed, 120);
            for state in run(config.clone(), &colors) {
                let event = match &state {
                    MotionDetectionState::Rejected { event } => event,
                    MotionDetectionState::Completed { event, .. } => event,
                    MotionDetectionState::ConfirmedInProgress { event } => event,
                    _ => continue,
                };
                let start = event.start_stream_frame_number as usize;
                assert_eq!((event.frames[0].change, event.frames[0].stddev), (0, 0));
                for (place, frame) in event.frames.iter().enumerate().skip(1) {
                    let before = solid(colors[start + place - 1]);
                    let now = solid(colors[start + place]);
                    let scored = MotionDetector {}.frame_diff(&before, &now, None).unwrap();
                    let moves = config.change_minimum < scored.average as i64
                        && (scored.average as i64) < config.change_maximum
                        && scored.std_dev_estimate as i64 > config.stddev_minimum;
                    if moves {
                        assert_eq!(frame.change, scored.average);
                        assert_eq!(frame.stddev, scored.std_dev_estimate);
                    } else {
                        assert_eq!((frame.change, frame.stddev), (0, 0));
                    }
                    checked += 1;
                }
            }
        }
    }
    assert!(checked > 1000);
}

#[test]
fn uneven_change_is_motion_under_a_dispersion_threshold_of_zero() {
    let mut strict = config();
    strict.stddev_minimum = 0;
    let striped = || {
        let mut data = Vec::new();
        for i in 0..16 {
            data.extend_from_slice(if i % 2 == 0 { &A } else { &B });
        }
        RgbFrame::from_raw(4, 4, data).unwrap()
    };
    let mut detector = RunningMotionDetector::new(strict, None);
    detector.frame_recv_at(solid(A), at(0));
    let stats = detector.frame_recv_at(striped(), at(1));
    // half of the pixels moved by 2500: the mean is 1250
    assert_eq!(stats.change, Some(1_250_000));
    assert!(stats.stddev.unwrap() > 1_000_000);
    let kinds: Vec<u16> =
        detector.drain_pending_states().iter().map(|(_, s)| s.discriminant()).collect();
    assert_eq!(kinds, vec![IDLE, WAIT]);
}
