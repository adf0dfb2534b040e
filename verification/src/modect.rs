//! The per-camera motion detector: it takes the frames of one stream in
//! order, scores each against the one before it, and queues the transitions
//! that the scores call for.

use vstd::prelude::*;
use crate::frame::{RgbFrame, GrayMask, RasterView};
use crate::kernel::{MotionDetector, MotionDetectionResult, MAX_CHANGE};
use crate::model::{
    ScoredFrame, EventView, StateView, DetectorModel,
    initial_model, model_inv, admits, step, reported_score, is_motion, falls_short,
    confirm_budget, confirms, run_before_motion, lemma_step_keeps_inv, same_shape,
};
use crate::laws::{run_detector, is_stream};

pub use crate::model::RunningMotionDetectorConfig;

verus! {

/// A reading of the wall clock: seconds since the Unix epoch, and the
/// nanoseconds into that second.
#[derive(Clone, Copy, Debug, PartialEq, Eq, Structural)]
pub struct WallClock {
    pub secs: i64,
    pub nanos: u32,
}

/// Reads the wall clock through `chrono::Utc::now`, and takes the reading
/// apart with `timestamp` and `timestamp_subsec_nanos`. Nothing is claimed of
/// the reading.
#[verifier::external_body]
fn wall_clock_now() -> (now: WallClock)
{
    let now = chrono::Utc::now();
    WallClock { secs: now.timestamp(), nanos: now.timestamp_subsec_nanos() }
}

/// One frame of an event, with the score it got against the frame before it,
/// in thousandths.
pub struct MotionDetectionFrame {
    pub image: RgbFrame,
    pub change: u64,
    pub stddev: u64,
}

impl View for MotionDetectionFrame {
    type V = ScoredFrame;

    open spec fn view(&self) -> ScoredFrame {
        ScoredFrame { image: self.image@, change: self.change as nat, stddev: self.stddev as nat }
    }
}

impl Clone for MotionDetectionFrame {
    fn clone(&self) -> (copy: Self)
        ensures
            copy@ == self@,
    {
        MotionDetectionFrame { image: self.image.clone(), change: self.change, stddev: self.stddev }
    }
}

/// The frames of a vector, as contracts see them.
pub open spec fn frames_view(frames: Seq<MotionDetectionFrame>) -> Seq<ScoredFrame> {
    frames.map_values(|f: MotionDetectionFrame| f@)
}

/// A copy of `frames`, frame by frame.
pub fn clone_frames(frames: &Vec<MotionDetectionFrame>) -> (copy: Vec<MotionDetectionFrame>)
    ensures
        frames_view(copy@) == frames_view(frames@),
{
    let mut copy: Vec<MotionDetectionFrame> = Vec::new();
    let mut i: usize = 0;
    while i < frames.len()
        invariant
            i <= frames.len(),
            copy.len() == i,
            forall|j: int| 0 <= j < i ==> copy@[j]@ == frames@[j]@,
        decreases frames.len() - i,
    {
        copy.push(frames[i].clone());
        i = i + 1;
    }
    assert(frames_view(copy@) =~= frames_view(frames@));
    copy
}

/// A run of frames as it is handed out: the stream positions of its first
/// and last frame, the frames with their pixels, and the sum of their scores
/// in thousandths.
pub struct MotionDetectionEvent {
    pub start_stream_frame_number: u64,
    pub end_stream_frame_number: u64,
    pub frames: Vec<MotionDetectionFrame>,
    pub total_score: u128,
}

impl View for MotionDetectionEvent {
    type V = EventView;

    open spec fn view(&self) -> EventView {
        EventView {
            start: self.start_stream_frame_number as nat,
            end: self.end_stream_frame_number as nat,
            frames: frames_view(self.frames@),
            total_score: self.total_score as nat,
        }
    }
}

/// One transition of the detector.
pub enum MotionDetectionState {
    /// No run is open.
    Idle { frame_number: u64 },
    /// A run is open and still falls short of acceptance.
    WaitAndSee { start_frame_number: u64, current_frame_number: u64, current_score: u128 },
    /// A run is open and would be accepted if it ended now.
    Active { start_frame_number: u64, current_frame_number: u64, current_score: u128 },
    /// The latest frame showed no motion and was buffered.
    Followup { start_frame_number: u64, current_frame_number: u64, current_score: u128 },
    /// The run ended and fell short.
    Rejected { event: MotionDetectionEvent },
    /// The run ended and was accepted.
    Completed { event: MotionDetectionEvent, was_confirmed_already: bool },
    /// The run has gone on long enough to be announced while still open.
    ConfirmedInProgress { event: MotionDetectionEvent },
}

impl View for MotionDetectionState {
    type V = StateView;

    open spec fn view(&self) -> StateView {
        match *self {
            MotionDetectionState::Idle { frame_number } => StateView::Idle {
                frame_number: frame_number as nat,
            },
            MotionDetectionState::WaitAndSee {
                start_frame_number,
                current_frame_number,
                current_score,
            } => StateView::WaitAndSee {
                start: start_frame_number as nat,
                current: current_frame_number as nat,
                score: current_score as nat,
            },
            MotionDetectionState::Active {
                start_frame_number,
                current_frame_number,
                current_score,
            } => StateView::Active {
                start: start_frame_number as nat,
                current: current_frame_number as nat,
                score: current_score as nat,
            },
            MotionDetectionState::Followup {
                start_frame_number,
                current_frame_number,
                current_score,
            } => StateView::Followup {
                start: start_frame_number as nat,
                current: current_frame_number as nat,
                score: current_score as nat,
            },
            MotionDetectionState::Rejected { event } => StateView::Rejected { event: event@ },
            MotionDetectionState::Completed { event, was_confirmed_already } => StateView::Completed {
                event: event@,
                was_confirmed_already,
            },
            MotionDetectionState::ConfirmedInProgress { event } => StateView::ConfirmedInProgress {
                event: event@,
            },
        }
    }
}

/// The number that stands for each kind of transition wherever states are
/// counted or plotted. The numbers are fixed: a new kind takes the next free
/// one.
pub open spec fn state_number(state: StateView) -> u16 {
    match state {
        StateView::Idle { .. } => 0,
        StateView::WaitAndSee { .. } => 1,
        StateView::Active { .. } => 2,
        StateView::Followup { .. } => 3,
        StateView::Rejected { .. } => 4,
        StateView::Completed { .. } => 5,
        StateView::ConfirmedInProgress { .. } => 6,
    }
}

impl MotionDetectionState {
    /// The number of this kind of transition.
    pub fn discriminant(&self) -> (n: u16)
        ensures
            n == state_number(self@),
    {
        match self {
            MotionDetectionState::Idle { .. } => 0,
            MotionDetectionState::WaitAndSee { .. } => 1,
            MotionDetectionState::Active { .. } => 2,
            MotionDetectionState::Followup { .. } => 3,
            MotionDetectionState::Rejected { .. } => 4,
            MotionDetectionState::Completed { .. } => 5,
            MotionDetectionState::ConfirmedInProgress { .. } => 6,
        }
    }
}

/// What the detector reports for one frame: the frame's score and dispersion
/// estimate in thousandths, each missing when the mask lets no pixel through,
/// and the frame's position in the stream.
#[derive(Clone, Copy, Debug)]
pub struct MotionDetectionStats {
    pub change: Option<u64>,
    pub stddev: Option<u64>,
    pub frame_number: u64,
}

/// The score that goes into the report of a frame.
pub open spec fn reported_change(score: Option<MotionDetectionResult>) -> Option<u64> {
    match score {
        Some(s) => Some(s.average),
        None => None,
    }
}

/// The dispersion estimate that goes into the report of a frame.
pub open spec fn reported_stddev(score: Option<MotionDetectionResult>) -> Option<u64> {
    match score {
        Some(s) => Some(s.std_dev_estimate),
        None => None,
    }
}

/// Queued transitions, as contracts see them.
pub open spec fn pending_view(pending: Seq<(WallClock, MotionDetectionState)>) -> Seq<
    (WallClock, StateView),
> {
    pending.map_values(|p: (WallClock, MotionDetectionState)| (p.0, p.1@))
}

/// Queued transitions without their clock readings.
pub open spec fn states_of(pending: Seq<(WallClock, StateView)>) -> Seq<StateView> {
    pending.map_values(|p: (WallClock, StateView)| p.1)
}

/// The transitions `states`, each tagged with the clock reading `now`.
pub open spec fn stamped(now: WallClock, states: Seq<StateView>) -> Seq<(WallClock, StateView)> {
    states.map_values(|s: StateView| (now, s))
}

/// The view of a vector with one more frame is the view with one more frame.
pub proof fn lemma_frames_view_push(frames: Seq<MotionDetectionFrame>, frame: MotionDetectionFrame)
    ensures
        frames_view(frames.push(frame)) == frames_view(frames).push(frame@),
{
    assert(frames_view(frames.push(frame)) =~= frames_view(frames).push(frame@));
}

/// The view of two vectors joined is their views joined.
pub proof fn lemma_frames_view_add(
    head: Seq<MotionDetectionFrame>,
    tail: Seq<MotionDetectionFrame>,
)
    ensures
        frames_view(head + tail) == frames_view(head) + frames_view(tail),
{
    assert(frames_view(head + tail) =~= frames_view(head) + frames_view(tail));
}

/// Queueing one transition under the reading `now` adds it, so tagged, to the
/// view of the queue.
pub proof fn lemma_pending_view_push(
    pending: Seq<(WallClock, MotionDetectionState)>,
    now: WallClock,
    state: MotionDetectionState,
)
    ensures
        pending_view(pending.push((now, state))) == pending_view(pending) + stamped(
            now,
            seq![state@],
        ),
{
    assert(pending_view(pending.push((now, state))) =~= pending_view(pending) + stamped(
        now,
        seq![state@],
    ));
}

/// Tagging two transitions is tagging the first, then the second.
pub proof fn lemma_stamped_pair(now: WallClock, first: StateView, second: StateView)
    ensures
        stamped(now, seq![first, second]) == stamped(now, seq![first]) + stamped(now, seq![second]),
{
    assert(stamped(now, seq![first, second]) =~= stamped(now, seq![first]) + stamped(
        now,
        seq![second],
    ));
}

/// Whether a frame with score `d` shows motion under `cfg`.
fn shows_motion(cfg: &RunningMotionDetectorConfig, d: &Option<MotionDetectionResult>) -> (r: bool)
    ensures
        r == is_motion(*cfg, *d),
{
    match d {
        None => false,
        Some(s) => {
            let average: i128 = s.average as i128;
            let deviation: i128 = s.std_dev_estimate as i128;
            (cfg.change_minimum as i128) < average && average < (cfg.change_maximum as i128)
                && deviation > (cfg.stddev_minimum as i128)
        },
    }
}

/// Whether a run of `length` frames and total `score` falls short of
/// acceptance under `cfg`.
fn run_falls_short(cfg: &RunningMotionDetectorConfig, length: usize, score: u128) -> (r: bool)
    ensures
        r == falls_short(*cfg, length as nat, score as nat),
{
    length <= cfg.minimum_frame_count || (cfg.minimum_total_change > 0 && score
        < cfg.minimum_total_change as u128)
}

/// Whether `score` is at least the total that `cfg` asks of a run.
fn scores_enough(cfg: &RunningMotionDetectorConfig, score: u128) -> (r: bool)
    ensures
        r == (score >= cfg.minimum_total_change),
{
    cfg.minimum_total_change <= 0 || score >= cfg.minimum_total_change as u128
}

/// Whether `elapsed` frames are more than the budget of `cfg`.
fn over_budget(cfg: &RunningMotionDetectorConfig, elapsed: u64) -> (r: bool)
    ensures
        r == (elapsed > confirm_budget(*cfg)),
{
    let budget: u128 = cfg.maximum_frame_wait as u128 + cfg.followup_frame_count as u128
        + cfg.minimum_frame_count as u128;
    elapsed as u128 > budget
}

/// The detector of one camera stream.
pub struct RunningMotionDetector {
    mask_image: Option<GrayMask>,
    config: RunningMotionDetectorConfig,
    last_frame: Option<RgbFrame>,
    frame_number: u64,
    motion_detector: MotionDetector,
    current_detection: Vec<MotionDetectionFrame>,
    followup_frames: Vec<MotionDetectionFrame>,
    detection_start_frame: Option<u64>,
    detection_confirmed: bool,
    current_detection_score: u128,
    pending_states: Vec<(WallClock, MotionDetectionState)>,
    seen: Ghost<Seq<RasterView>>,
    drained: Ghost<nat>,
}

impl RunningMotionDetector {
    /// The thresholds the detector was built with.
    pub closed spec fn config(&self) -> RunningMotionDetectorConfig {
        self.config
    }

    /// The bytes of the mask the detector was built with.
    pub closed spec fn mask(&self) -> Option<Seq<u8>> {
        match self.mask_image {
            Some(m) => Some(m@.data),
            None => None,
        }
    }

    /// What the detector remembers of the stream so far.
    pub closed spec fn model(&self) -> DetectorModel {
        DetectorModel {
            frame_number: self.frame_number as nat,
            last_frame: match self.last_frame {
                Some(f) => Some(f@),
                None => None,
            },
            run: frames_view(self.current_detection@),
            followup: frames_view(self.followup_frames@),
            start: match self.detection_start_frame {
                Some(s) => Some(s as nat),
                None => None,
            },
            confirmed: self.detection_confirmed,
            score: self.current_detection_score as nat,
        }
    }

    /// The transitions queued and not yet drained, oldest first.
    pub closed spec fn pending(&self) -> Seq<(WallClock, StateView)> {
        pending_view(self.pending_states@)
    }

    /// Every frame received so far, oldest first.
    pub closed spec fn seen(&self) -> Seq<RasterView> {
        self.seen@
    }

    /// How many transitions have been handed out so far.
    pub closed spec fn drained(&self) -> nat {
        self.drained@
    }

    /// The detector is where the frames it has received have led it, and its
    /// queue holds the transitions of those frames that were not handed out
    /// yet.
    pub closed spec fn wf(&self) -> bool {
        let trace = run_detector(self.config, self.mask(), self.seen@);
        &&& is_stream(self.seen@)
        &&& model_inv(self.config, self.model())
        &&& self.model() == trace.model
        &&& self.drained@ <= trace.emitted.len()
        &&& states_of(self.pending()) == trace.emitted.skip(self.drained@ as int)
    }

    /// A valid detector is in the state that running the frames it has
    /// received leads to, and its queue holds the transitions of that run
    /// from the first one not yet handed out.
    pub proof fn lemma_wf_trace(&self)
        requires
            self.wf(),
        ensures
            is_stream(self.seen()),
            model_inv(self.config(), self.model()),
            self.model() == run_detector(self.config(), self.mask(), self.seen()).model,
            self.drained() <= run_detector(self.config(), self.mask(), self.seen()).emitted.len(),
            states_of(self.pending()) == run_detector(
                self.config(),
                self.mask(),
                self.seen(),
            ).emitted.skip(self.drained() as int),
    {
    }

    /// A detector that has seen no frame. `mask` holds the pixels of the
    /// mask image, if the stream has one.
    pub fn new(config: RunningMotionDetectorConfig, mask: Option<GrayMask>) -> (detector: Self)
        ensures
            detector.wf(),
            detector.config() == config,
            detector.mask() == match mask {
                Some(m) => Some(m@.data),
                None => None,
            },
            detector.model() == initial_model(),
            detector.pending() == Seq::<(WallClock, StateView)>::empty(),
            detector.seen() == Seq::<RasterView>::empty(),
            detector.drained() == 0,
    {
        let detector = RunningMotionDetector {
            mask_image: mask,
            config,
            last_frame: None,
            frame_number: 0,
            motion_detector: MotionDetector {  },
            current_detection: Vec::new(),
            followup_frames: Vec::new(),
            detection_start_frame: None,
            detection_confirmed: false,
            current_detection_score: 0,
            pending_states: Vec::new(),
            seen: Ghost(Seq::empty()),
            drained: Ghost(0),
        };
        assert(detector.model() =~= initial_model());
        assert(detector.pending() =~= Seq::<(WallClock, StateView)>::empty());
        assert(states_of(detector.pending()) =~= run_detector(
            detector.config,
            detector.mask(),
            detector.seen@,
        ).emitted.skip(0));
        detector
    }

    /// Hands out every queued transition, oldest first, and leaves the queue
    /// empty. What the detector remembers of the stream is untouched.
    pub fn drain_pending_states(&mut self) -> (drained: Vec<(WallClock, MotionDetectionState)>)
        requires
            old(self).wf(),
        ensures
            final(self).wf(),
            pending_view(drained@) == old(self).pending(),
            drained@.len() == old(self).pending().len(),
            forall|i: int|
                0 <= i < drained@.len() ==> (#[trigger] drained@[i]).0 == old(self).pending()[i].0
                    && drained@[i].1@ == old(self).pending()[i].1,
            final(self).pending() == Seq::<(WallClock, StateView)>::empty(),
            final(self).model() == old(self).model(),
            final(self).config() == old(self).config(),
            final(self).mask() == old(self).mask(),
            final(self).seen() == old(self).seen(),
            final(self).drained() == old(self).drained() + drained@.len(),
    {
        let ghost trace = run_detector(self.config, self.mask(), self.seen@);
        let mut drained: Vec<(WallClock, MotionDetectionState)> = Vec::new();
        drained.append(&mut self.pending_states);
        assert(drained@ =~= old(self).pending_states@);
        assert(self.pending() =~= Seq::<(WallClock, StateView)>::empty());
        proof {
            assert(states_of(old(self).pending()).len() == drained@.len());
            self.drained = Ghost((self.drained@ + drained@.len()) as nat);
            assert(states_of(self.pending()) =~= trace.emitted.skip(self.drained@ as int));
        }
        drained
    }

    /// Number of frames received so far.
    pub fn frame_number(&self) -> (n: u64)
        ensures
            n == self.model().frame_number,
    {
        self.frame_number
    }

    /// Whether `frame` can be handed to `frame_recv`: the frame counter has
    /// room for it, and it has the shape of the frame before it.
    pub fn accepts(&self, frame: &RgbFrame) -> (ok: bool)
        requires
            self.wf(),
        ensures
            ok == admits(self.model(), frame@),
    {
        let width = frame.width();
        let height = frame.height();
        let fits = match &self.last_frame {
            None => true,
            Some(last) => last.width() == width && last.height() == height,
        };
        self.frame_number < u64::MAX && fits
    }

    /// Takes the next frame of the stream, with `now` as the clock reading
    /// that tags whatever the frame queues. The detector moves as `step`
    /// says, the transitions of the step join the queue in order, and the
    /// frame's score and position are reported.
    pub fn frame_recv_at(&mut self, new_frame: RgbFrame, now: WallClock) -> (stats:
        MotionDetectionStats)
        requires
            old(self).wf(),
            admits(old(self).model(), new_frame@),
        ensures
            final(self).wf(),
            final(self).config() == old(self).config(),
            final(self).mask() == old(self).mask(),
            final(self).model() == step(
                old(self).config(),
                old(self).mask(),
                old(self).model(),
                new_frame@,
            ).next,
            final(self).pending() == old(self).pending() + stamped(
                now,
                step(old(self).config(), old(self).mask(), old(self).model(), new_frame@).emitted,
            ),
            states_of(final(self).pending()) == states_of(old(self).pending()) + step(
                old(self).config(),
                old(self).mask(),
                old(self).model(),
                new_frame@,
            ).emitted,
            final(self).seen() == old(self).seen().push(new_frame@),
            final(self).drained() == old(self).drained(),
            stats.frame_number == old(self).model().frame_number,
            stats.change == reported_change(
                reported_score(old(self).mask(), old(self).model(), new_frame@),
            ),
            stats.stddev == reported_stddev(
                reported_score(old(self).mask(), old(self).model(), new_frame@),
            ),
    {
        let ghost cfg = self.config;
        let ghost mask = self.mask();
        let ghost m = self.model();
        let ghost f = new_frame@;
        let ghost queue = self.pending();
        let ghost target = step(cfg, mask, m, f);
        let ghost trace = run_detector(cfg, mask, self.seen@);
        proof {
            use_type_invariant(&new_frame);
            new_frame.lemma_inv_is_rgb();
            lemma_step_keeps_inv(cfg, mask, m, f);
            let longer = self.seen@.push(f);
            assert(longer.drop_last() =~= self.seen@);
            assert(run_detector(cfg, mask, longer).model == target.next);
            assert(run_detector(cfg, mask, longer).emitted == trace.emitted + target.emitted);
            assert((trace.emitted + target.emitted).skip(self.drained@ as int)
                =~= trace.emitted.skip(self.drained@ as int) + target.emitted);
            assert(states_of(queue + stamped(now, target.emitted)) =~= states_of(queue)
                + target.emitted);
            crate::laws::lemma_run_detector_inv(cfg, mask, self.seen@);
            assert(is_stream(longer)) by {
                assert forall|i: int| 0 <= i < longer.len() implies same_shape(
                    longer[0],
                    #[trigger] longer[i],
                ) by {
                    if i < self.seen@.len() {
                        assert(same_shape(self.seen@[0], self.seen@[i]));
                    } else if self.seen@.len() > 0 {
                        assert(same_shape(self.seen@[0], self.seen@.last()));
                    }
                }
            }
            self.seen = Ghost(longer);
        }
        let number = self.frame_number;
        let last = self.last_frame.take();
        match last {
            None => {
                let idle = MotionDetectionState::Idle { frame_number: number };
                proof {
                    lemma_pending_view_push(self.pending_states@, now, idle);
                }
                self.pending_states.push((now, idle));
                self.last_frame = Some(new_frame);
                self.frame_number = number + 1;
                assert(self.model() =~= target.next);
                MotionDetectionStats { change: Some(0), stddev: Some(0), frame_number: number }
            },
            Some(previous) => {
                let diff = self.motion_detector.frame_diff(
                    &previous,
                    &new_frame,
                    self.mask_image.as_ref(),
                );
                let stats = match diff {
                    Some(s) => MotionDetectionStats {
                        change: Some(s.average),
                        stddev: Some(s.std_dev_estimate),
                        frame_number: number,
                    },
                    None => MotionDetectionStats { change: None, stddev: None, frame_number: number },
                };
                if shows_motion(&self.config, &diff) {
                    let score = diff.unwrap();
                    let ghost before = run_before_motion(m, previous@);
                    if self.followup_frames.len() > 0 {
                        proof {
                            lemma_frames_view_add(self.current_detection@, self.followup_frames@);
                        }
                        self.current_detection.append(&mut self.followup_frames);
                    } else if self.current_detection.len() == 0 {
                        let lead = MotionDetectionFrame { image: previous, change: 0, stddev: 0 };
                        proof {
                            lemma_frames_view_push(self.current_detection@, lead);
                        }
                        self.current_detection.push(lead);
                    }
                    assert(frames_view(self.current_detection@) =~= before);
                    assert(frames_view(self.followup_frames@) =~= Seq::<ScoredFrame>::empty());
                    let start = match self.detection_start_frame {
                        Some(s) => s,
                        None => number - 1,
                    };
                    self.detection_start_frame = Some(start);
                    if scores_enough(&self.config, self.current_detection_score) && over_budget(
                        &self.config,
                        number - start,
                    ) && !self.detection_confirmed {
                        self.detection_confirmed = true;
                        let snapshot = MotionDetectionState::ConfirmedInProgress {
                            event: MotionDetectionEvent {
                                start_stream_frame_number: start,
                                end_stream_frame_number: number,
                                frames: clone_frames(&self.current_detection),
                                total_score: self.current_detection_score,
                            },
                        };
                        proof {
                            lemma_pending_view_push(self.pending_states@, now, snapshot);
                        }
                        self.pending_states.push((now, snapshot));
                    }
                    let scored = MotionDetectionFrame {
                        image: new_frame.clone(),
                        change: score.average,
                        stddev: score.std_dev_estimate,
                    };
                    proof {
                        lemma_frames_view_push(self.current_detection@, scored);
                        assert(m.run.len() * MAX_CHANGE <= 0xffff_ffff_ffff_ffff * 195_075_000)
                            by (nonlinear_arith)
                            requires
                                m.run.len() <= 0xffff_ffff_ffff_ffff,
                                MAX_CHANGE == 195_075_000,
                        ;
                    }
                    self.current_detection.push(scored);
                    self.current_detection_score = self.current_detection_score
                        + score.average as u128;
                    let progress = if run_falls_short(
                        &self.config,
                        self.current_detection.len(),
                        self.current_detection_score,
                    ) {
                        MotionDetectionState::WaitAndSee {
                            start_frame_number: start,
                            current_frame_number: number,
                            current_score: self.current_detection_score,
                        }
                    } else {
                        MotionDetectionState::Active {
                            start_frame_number: start,
                            current_frame_number: number,
                            current_score: self.current_detection_score,
                        }
                    };
                    proof {
                        lemma_pending_view_push(self.pending_states@, now, progress);
                        if confirms(cfg, m) {
                            lemma_stamped_pair(now, target.emitted[0], target.emitted[1]);
                            assert(target.emitted =~= seq![target.emitted[0], target.emitted[1]]);
                        }
                    }
                    self.pending_states.push((now, progress));
                    self.last_frame = Some(new_frame);
                    self.frame_number = number + 1;
                    assert(self.model() =~= target.next);
                    assert(self.pending() =~= queue + stamped(now, target.emitted));
                    stats
                } else if self.current_detection.len() > 0 {
                    let start = match self.detection_start_frame {
                        Some(s) => s,
                        None => number,
                    };
                    if self.followup_frames.len() < self.config.followup_frame_count {
                        let buffered = MotionDetectionState::Followup {
                            start_frame_number: start,
                            current_frame_number: number,
                            current_score: self.current_detection_score,
                        };
                        let quiet = MotionDetectionFrame {
                            image: new_frame.clone(),
                            change: 0,
                            stddev: 0,
                        };
                        proof {
                            lemma_pending_view_push(self.pending_states@, now, buffered);
                            lemma_frames_view_push(self.followup_frames@, quiet);
                        }
                        self.pending_states.push((now, buffered));
                        self.followup_frames.push(quiet);
                    } else {
                        let short = run_falls_short(
                            &self.config,
                            self.current_detection.len(),
                            self.current_detection_score,
                        );
                        let mut frames: Vec<MotionDetectionFrame> = Vec::new();
                        proof {
                            lemma_frames_view_add(self.current_detection@, self.followup_frames@);
                        }
                        frames.append(&mut self.current_detection);
                        frames.append(&mut self.followup_frames);
                        assert(frames@ =~= old(self).current_detection@ + old(
                            self,
                        ).followup_frames@);
                        let event = MotionDetectionEvent {
                            start_stream_frame_number: start,
                            end_stream_frame_number: number - 1,
                            frames,
                            total_score: self.current_detection_score,
                        };
                        let verdict = if short {
                            MotionDetectionState::Rejected { event }
                        } else {
                            MotionDetectionState::Completed {
                                event,
                                was_confirmed_already: self.detection_confirmed,
                            }
                        };
                        let idle = MotionDetectionState::Idle { frame_number: number };
                        proof {
                            lemma_pending_view_push(self.pending_states@, now, verdict);
                            lemma_pending_view_push(
                                self.pending_states@.push((now, verdict)),
                                now,
                                idle,
                            );
                            lemma_stamped_pair(now, verdict@, idle@);
                        }
                        self.pending_states.push((now, verdict));
                        self.pending_states.push((now, idle));
                        self.detection_start_frame = None;
                        self.current_detection_score = 0;
                        self.detection_confirmed = false;
                    }
                    self.last_frame = Some(new_frame);
                    self.frame_number = number + 1;
                    assert(self.model() =~= target.next);
                    assert(self.pending() =~= queue + stamped(now, target.emitted));
                    stats
                } else {
                    self.last_frame = Some(new_frame);
                    self.frame_number = number + 1;
                    assert(self.model() =~= target.next);
                    assert(self.pending() =~= queue + stamped(now, target.emitted));
                    stats
                }
            },
        }
    }

    /// Takes the next frame of the stream and tags whatever it queues with
    /// one reading of the wall clock. Which reading cannot be known
    /// beforehand; everything else is as `frame_recv_at` has it.
    pub fn frame_recv(&mut self, new_frame: RgbFrame) -> (stats: MotionDetectionStats)
        requires
            old(self).wf(),
            admits(old(self).model(), new_frame@),
        ensures
            final(self).wf(),
            final(self).config() == old(self).config(),
            final(self).mask() == old(self).mask(),
            final(self).model() == step(
                old(self).config(),
                old(self).mask(),
                old(self).model(),
                new_frame@,
            ).next,
            exists|now: WallClock|
                final(self).pending() == old(self).pending() + #[trigger] stamped(
                    now,
                    step(
                        old(self).config(),
                        old(self).mask(),
                        old(self).model(),
                        new_frame@,
                    ).emitted,
                ),
            states_of(final(self).pending()) == states_of(old(self).pending()) + step(
                old(self).config(),
                old(self).mask(),
                old(self).model(),
                new_frame@,
            ).emitted,
            final(self).seen() == old(self).seen().push(new_frame@),
            final(self).drained() == old(self).drained(),
            stats.frame_number == old(self).model().frame_number,
            stats.change == reported_change(
                reported_score(old(self).mask(), old(self).model(), new_frame@),
            ),
            stats.stddev == reported_stddev(
                reported_score(old(self).mask(), old(self).model(), new_frame@),
            ),
    {
        let now = wall_clock_now();
        self.frame_recv_at(new_frame, now)
    }
}

} // verus!
