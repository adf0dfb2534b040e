//! The detector as a mathematical state machine: what it remembers between
//! frames, and what one frame does to it. The executable detector is proved
//! to follow `step`, and the laws of the detector are proved of `step`.

use vstd::prelude::*;
use crate::frame::RasterView;
use crate::kernel::{MotionDetectionResult, frame_score, lemma_score_bounded, MAX_CHANGE};

verus! {

/// The thresholds of one detector. Scores and score thresholds are in
/// thousandths.
#[derive(Debug)]
pub struct RunningMotionDetectorConfig {
    /// A frame shows motion only if its score is above this
    pub change_minimum: i64,
    /// and below this
    pub change_maximum: i64,
    /// and its dispersion estimate is above this.
    pub stddev_minimum: i64,
    /// A run with no more frames than this is rejected.
    pub minimum_frame_count: usize,
    /// A run whose scores add up to less than this is rejected.
    pub minimum_total_change: i64,
    /// How many frames without motion are kept after the last frame with
    /// motion before the run is decided.
    pub followup_frame_count: usize,
    /// How many frames a run may go on, beyond the least that any accepted
    /// run takes, before it is announced while still open.
    pub maximum_frame_wait: usize,
    /// Where the mask image lies. The detector never opens it: whoever builds
    /// the detector loads the image and hands over the pixels.
    pub mask_file: Option<String>,
}

impl Clone for RunningMotionDetectorConfig {
    fn clone(&self) -> (copy: Self)
        ensures
            copy == *self,
    {
        RunningMotionDetectorConfig {
            change_minimum: self.change_minimum,
            change_maximum: self.change_maximum,
            stddev_minimum: self.stddev_minimum,
            minimum_frame_count: self.minimum_frame_count,
            minimum_total_change: self.minimum_total_change,
            followup_frame_count: self.followup_frame_count,
            maximum_frame_wait: self.maximum_frame_wait,
            mask_file: match &self.mask_file {
                Some(path) => Some(path.clone()),
                None => None,
            },
        }
    }
}

/// One frame of a run, with the score it got against the frame before it.
#[verifier::ext_equal]
pub struct ScoredFrame {
    pub image: RasterView,
    pub change: nat,
    pub stddev: nat,
}

/// A run of frames: the stream positions of its first and last frame, the
/// frames, and the sum of their scores.
#[verifier::ext_equal]
pub struct EventView {
    pub start: nat,
    pub end: nat,
    pub frames: Seq<ScoredFrame>,
    pub total_score: nat,
}

/// One transition of the detector.
#[verifier::ext_equal]
pub enum StateView {
    Idle { frame_number: nat },
    WaitAndSee { start: nat, current: nat, score: nat },
    Active { start: nat, current: nat, score: nat },
    Followup { start: nat, current: nat, score: nat },
    Rejected { event: EventView },
    Completed { event: EventView, was_confirmed_already: bool },
    ConfirmedInProgress { event: EventView },
}

/// What the detector remembers between two frames.
#[verifier::ext_equal]
pub struct DetectorModel {
    /// Frames received so far.
    pub frame_number: nat,
    /// The frame received last.
    pub last_frame: Option<RasterView>,
    /// The run in progress: one frame from before the motion, then every
    /// frame since that has been counted into the run.
    pub run: Seq<ScoredFrame>,
    /// Frames without motion that came after the run's last frame.
    pub followup: Seq<ScoredFrame>,
    /// Stream position of the run's first frame.
    pub start: Option<nat>,
    /// Whether the run has been announced while in progress.
    pub confirmed: bool,
    /// Sum of the scores of the run's frames.
    pub score: nat,
}

/// A new state and the transitions that led to it.
#[verifier::ext_equal]
pub struct Step {
    pub next: DetectorModel,
    pub emitted: Seq<StateView>,
}

/// The detector before its first frame.
pub open spec fn initial_model() -> DetectorModel {
    DetectorModel {
        frame_number: 0,
        last_frame: None,
        run: Seq::empty(),
        followup: Seq::empty(),
        start: None,
        confirmed: false,
        score: 0,
    }
}

/// A frame shows motion when it has a score, the score lies strictly between
/// the two change thresholds, and the dispersion estimate lies strictly above
/// its threshold.
pub open spec fn is_motion(cfg: RunningMotionDetectorConfig, d: Option<MotionDetectionResult>) -> bool {
    d matches Some(s) && cfg.change_minimum < s.average && s.average < cfg.change_maximum
        && s.std_dev_estimate > cfg.stddev_minimum
}

/// Number of frames that must have passed since a run's start before the run
/// is announced while in progress.
pub open spec fn confirm_budget(cfg: RunningMotionDetectorConfig) -> nat {
    (cfg.maximum_frame_wait + cfg.followup_frame_count + cfg.minimum_frame_count) as nat
}

/// A run of `length` frames and total `score` is short of acceptance.
pub open spec fn falls_short(cfg: RunningMotionDetectorConfig, length: nat, score: nat) -> bool {
    length <= cfg.minimum_frame_count || score < cfg.minimum_total_change
}

/// Sum of the scores of `frames`.
pub open spec fn total_change(frames: Seq<ScoredFrame>) -> nat
    decreases frames.len(),
{
    if frames.len() == 0 {
        0
    } else {
        total_change(frames.drop_last()) + frames.last().change
    }
}

/// A frame kept for context rather than for its motion counts as score zero.
pub open spec fn padding(image: RasterView) -> ScoredFrame {
    ScoredFrame { image, change: 0, stddev: 0 }
}

/// The first frame of a stream: nothing to compare it with.
pub open spec fn first_step(m: DetectorModel, f: RasterView) -> Step {
    Step {
        next: DetectorModel { frame_number: m.frame_number + 1, last_frame: Some(f), ..m },
        emitted: seq![StateView::Idle { frame_number: m.frame_number }],
    }
}

/// A frame without motion while no run is open.
pub open spec fn idle_step(m: DetectorModel, f: RasterView) -> Step {
    Step {
        next: DetectorModel { frame_number: m.frame_number + 1, last_frame: Some(f), ..m },
        emitted: Seq::empty(),
    }
}

/// The run as it stands when a frame with motion arrives, before that frame
/// joins it: buffered frames are taken in, and an empty run opens with the
/// frame before the motion.
pub open spec fn run_before_motion(m: DetectorModel, prev: RasterView) -> Seq<ScoredFrame> {
    if m.followup.len() > 0 {
        m.run + m.followup
    } else if m.run.len() == 0 {
        seq![padding(prev)]
    } else {
        m.run
    }
}

/// Stream position of the first frame of the run that a frame with motion
/// joins.
pub open spec fn start_at_motion(m: DetectorModel) -> nat {
    match m.start {
        Some(s) => s,
        None => (m.frame_number - 1) as nat,
    }
}

/// Whether the frame with motion that arrives now has the run announced: the
/// run has scored enough, has gone on longer than the budget, and was not
/// announced before.
pub open spec fn confirms(cfg: RunningMotionDetectorConfig, m: DetectorModel) -> bool {
    m.score >= cfg.minimum_total_change && m.frame_number - start_at_motion(m) > confirm_budget(
        cfg,
    ) && !m.confirmed
}

/// A frame with motion, scored `d` against the frame `prev` before it.
pub open spec fn motion_step(
    cfg: RunningMotionDetectorConfig,
    m: DetectorModel,
    prev: RasterView,
    f: RasterView,
    d: MotionDetectionResult,
) -> Step {
    let before = run_before_motion(m, prev);
    let start = start_at_motion(m);
    let run = before.push(
        ScoredFrame { image: f, change: d.average as nat, stddev: d.std_dev_estimate as nat },
    );
    let score = m.score + d.average as nat;
    let progress = if falls_short(cfg, run.len(), score) {
        StateView::WaitAndSee { start, current: m.frame_number, score }
    } else {
        StateView::Active { start, current: m.frame_number, score }
    };
    let announced = StateView::ConfirmedInProgress {
        event: EventView { start, end: m.frame_number, frames: before, total_score: m.score },
    };
    Step {
        next: DetectorModel {
            frame_number: m.frame_number + 1,
            last_frame: Some(f),
            run,
            followup: Seq::empty(),
            start: Some(start),
            confirmed: m.confirmed || confirms(cfg, m),
            score,
        },
        emitted: if confirms(cfg, m) {
            seq![announced, progress]
        } else {
            seq![progress]
        },
    }
}

/// A frame without motion while a run is open. While the buffer has room the
/// frame is buffered. Once it is full the run ends without the frame:
/// rejected if it falls short, completed if not.
pub open spec fn quiet_step(cfg: RunningMotionDetectorConfig, m: DetectorModel, f: RasterView) -> Step {
    let start = start_at_motion(m);
    if m.followup.len() < cfg.followup_frame_count {
        Step {
            next: DetectorModel {
                frame_number: m.frame_number + 1,
                last_frame: Some(f),
                followup: m.followup.push(padding(f)),
                ..m
            },
            emitted: seq![
                StateView::Followup { start, current: m.frame_number, score: m.score },
            ],
        }
    } else {
        let event = EventView {
            start,
            end: (m.frame_number - 1) as nat,
            frames: m.run + m.followup,
            total_score: m.score,
        };
        let verdict = if falls_short(cfg, m.run.len(), m.score) {
            StateView::Rejected { event }
        } else {
            StateView::Completed { event, was_confirmed_already: m.confirmed }
        };
        Step {
            next: DetectorModel {
                frame_number: m.frame_number + 1,
                last_frame: Some(f),
                run: Seq::empty(),
                followup: Seq::empty(),
                start: None,
                confirmed: false,
                score: 0,
            },
            emitted: seq![verdict, StateView::Idle { frame_number: m.frame_number }],
        }
    }
}

/// What one frame does to the detector.
pub open spec fn step(
    cfg: RunningMotionDetectorConfig,
    mask: Option<Seq<u8>>,
    m: DetectorModel,
    f: RasterView,
) -> Step {
    match m.last_frame {
        None => first_step(m, f),
        Some(prev) => {
            let d = frame_score(prev.data, f.data, mask);
            if is_motion(cfg, d) {
                motion_step(cfg, m, prev, f, d->0)
            } else if m.run.len() > 0 {
                quiet_step(cfg, m, f)
            } else {
                idle_step(m, f)
            }
        },
    }
}

/// The score that the detector reports for a frame: zero for the first frame
/// of a stream, else the frame's score against the frame before it, which is
/// missing when the mask lets no pixel through.
pub open spec fn reported_score(
    mask: Option<Seq<u8>>,
    m: DetectorModel,
    f: RasterView,
) -> Option<MotionDetectionResult> {
    match m.last_frame {
        None => Some(MotionDetectionResult { average: 0, std_dev_estimate: 0 }),
        Some(prev) => frame_score(prev.data, f.data, mask),
    }
}

/// Two rasters are RGB images of one shape.
pub open spec fn same_shape(a: RasterView, b: RasterView) -> bool {
    a.is_rgb() && b.is_rgb() && a.width == b.width && a.height == b.height
}

/// Every frame of `frames` has the shape of `shape`.
pub open spec fn uniform(shape: RasterView, frames: Seq<ScoredFrame>) -> bool {
    forall|i: int| 0 <= i < frames.len() ==> same_shape(shape, #[trigger] frames[i].image)
}

/// No frame of `frames` scores more than a frame pair can.
pub open spec fn bounded(frames: Seq<ScoredFrame>) -> bool {
    forall|i: int|
        0 <= i < frames.len() ==> (#[trigger] frames[i]).change <= MAX_CHANGE && frames[i].stddev
            <= MAX_CHANGE
}

/// Every frame of `frames` counts as score zero.
pub open spec fn all_padding(frames: Seq<ScoredFrame>) -> bool {
    forall|i: int|
        0 <= i < frames.len() ==> (#[trigger] frames[i]).change == 0 && frames[i].stddev == 0
}

/// Whether the detector in state `m` can take the frame `f`: the frame
/// counter has room, and `f` has the shape of the frame before it.
pub open spec fn admits(m: DetectorModel, f: RasterView) -> bool {
    &&& m.frame_number < u64::MAX
    &&& m.last_frame matches Some(prev) ==> prev.width == f.width && prev.height == f.height
}

/// What holds of the detector between any two frames.
pub open spec fn model_inv(cfg: RunningMotionDetectorConfig, m: DetectorModel) -> bool {
    &&& m.last_frame is Some <==> m.frame_number > 0
    &&& m.start is Some <==> m.run.len() > 0
    &&& m.run.len() == 0 ==> m.followup.len() == 0 && m.score == 0 && !m.confirmed
    &&& m.start matches Some(s) ==> s < m.frame_number && m.run.len() + m.followup.len()
        == m.frame_number - s
    &&& m.followup.len() <= cfg.followup_frame_count
    &&& m.score == total_change(m.run)
    &&& m.score <= m.run.len() * MAX_CHANGE
    &&& bounded(m.run)
    &&& all_padding(m.followup)
    &&& m.last_frame matches Some(last) ==> last.is_rgb() && uniform(last, m.run) && uniform(
        last,
        m.followup,
    )
}

/// Appending a frame adds its score to the total.
pub proof fn lemma_total_change_push(frames: Seq<ScoredFrame>, frame: ScoredFrame)
    ensures
        total_change(frames.push(frame)) == total_change(frames) + frame.change,
{
    assert(frames.push(frame).drop_last() =~= frames);
}

/// Appending frames that count as zero leaves the total as it was.
pub proof fn lemma_total_change_padding(frames: Seq<ScoredFrame>, tail: Seq<ScoredFrame>)
    requires
        all_padding(tail),
    ensures
        total_change(frames + tail) == total_change(frames),
    decreases tail.len(),
{
    if tail.len() == 0 {
        assert(frames + tail =~= frames);
    } else {
        assert((frames + tail).drop_last() =~= frames + tail.drop_last());
        lemma_total_change_padding(frames, tail.drop_last());
    }
}

/// One frame takes a valid state to a valid state.
pub proof fn lemma_step_keeps_inv(
    cfg: RunningMotionDetectorConfig,
    mask: Option<Seq<u8>>,
    m: DetectorModel,
    f: RasterView,
)
    requires
        model_inv(cfg, m),
        f.is_rgb(),
        m.last_frame matches Some(prev) ==> same_shape(prev, f),
    ensures
        model_inv(cfg, step(cfg, mask, m, f).next),
{
    let next = step(cfg, mask, m, f).next;
    match m.last_frame {
        None => {},
        Some(prev) => {
            let d = frame_score(prev.data, f.data, mask);
            lemma_score_bounded(prev.data, f.data, mask);
            if is_motion(cfg, d) {
                let before = run_before_motion(m, prev);
                let scored = ScoredFrame {
                    image: f,
                    change: d->0.average as nat,
                    stddev: d->0.std_dev_estimate as nat,
                };
                lemma_total_change_padding(m.run, m.followup);
                lemma_total_change_push(before, scored);
                assert(total_change(seq![padding(prev)]) == 0) by {
                    lemma_total_change_push(Seq::empty(), padding(prev));
                    assert(Seq::<ScoredFrame>::empty().push(padding(prev)) =~= seq![padding(prev)]);
                }
                assert(total_change(before) == m.score);
                assert(bounded(before));
                assert(uniform(f, before));
                assert(before.len() * MAX_CHANGE + MAX_CHANGE == (before.len() + 1) * MAX_CHANGE)
                    by (nonlinear_arith);
                assert(m.run.len() * MAX_CHANGE <= before.len() * MAX_CHANGE) by (nonlinear_arith)
                    requires
                        m.run.len() <= before.len(),
                ;
                assert(bounded(next.run));
                assert(uniform(f, next.run));
            } else if m.run.len() > 0 {
                if m.followup.len() < cfg.followup_frame_count {
                    assert(all_padding(next.followup));
                    assert(uniform(f, next.followup));
                    assert(uniform(f, next.run));
                }
            }
        },
    }
}

} // verus!
