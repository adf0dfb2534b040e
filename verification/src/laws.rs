//! What holds of every stream: the detector run over a whole sequence of
//! frames, and the laws of the transitions it emits.

use vstd::prelude::*;
use crate::frame::RasterView;
use crate::kernel::{MotionDetectionResult, frame_score, law_identical_frames_score_zero, tally, pixel_count};
use crate::model::{
    RunningMotionDetectorConfig, ScoredFrame, EventView, StateView, DetectorModel,
    initial_model, model_inv, step, is_motion, falls_short, confirm_budget, confirms,
    run_before_motion, start_at_motion, padding, same_shape, total_change,
    lemma_step_keeps_inv, lemma_total_change_padding, lemma_total_change_push,
};

verus! {

/// The detector after a whole stream, with every transition along the way.
#[verifier::ext_equal]
pub struct Trace {
    pub model: DetectorModel,
    pub emitted: Seq<StateView>,
}

/// Runs the detector over `frames` from its initial state.
pub open spec fn run_detector(
    cfg: RunningMotionDetectorConfig,
    mask: Option<Seq<u8>>,
    frames: Seq<RasterView>,
) -> Trace
    decreases frames.len(),
{
    if frames.len() == 0 {
        Trace { model: initial_model(), emitted: Seq::empty() }
    } else {
        let before = run_detector(cfg, mask, frames.drop_last());
        let last = step(cfg, mask, before.model, frames.last());
        Trace { model: last.next, emitted: before.emitted + last.emitted }
    }
}

/// The frames of one stream: RGB images that all have one shape.
pub open spec fn is_stream(frames: Seq<RasterView>) -> bool {
    forall|i: int| 0 <= i < frames.len() ==> same_shape(frames[0], #[trigger] frames[i])
}

/// A stream without its last frame is a stream.
pub proof fn lemma_stream_prefix(frames: Seq<RasterView>)
    requires
        is_stream(frames),
        frames.len() > 0,
    ensures
        is_stream(frames.drop_last()),
{
    let head = frames.drop_last();
    assert forall|i: int| 0 <= i < head.len() implies same_shape(head[0], #[trigger] head[i]) by {
        assert(same_shape(frames[0], frames[i]));
    }
}

/// The state after a stream is a valid state that has counted the stream's
/// frames and holds its last one.
pub proof fn lemma_run_detector_inv(
    cfg: RunningMotionDetectorConfig,
    mask: Option<Seq<u8>>,
    frames: Seq<RasterView>,
)
    requires
        is_stream(frames),
    ensures
        model_inv(cfg, run_detector(cfg, mask, frames).model),
        run_detector(cfg, mask, frames).model.frame_number == frames.len(),
        frames.len() > 0 ==> run_detector(cfg, mask, frames).model.last_frame == Some(
            frames.last(),
        ),
    decreases frames.len(),
{
    if frames.len() > 0 {
        let head = frames.drop_last();
        lemma_stream_prefix(frames);
        lemma_run_detector_inv(cfg, mask, head);
        if head.len() > 0 {
            assert(same_shape(frames[0], head.last()));
        }
        assert(same_shape(frames[0], frames.last()));
        lemma_step_keeps_inv(cfg, mask, run_detector(cfg, mask, head).model, frames.last());
    }
}

/// The frame `f` as a run keeps it when it comes after `prev`: with its score
/// where it shows motion, and counted as zero where it does not.
pub open spec fn kept_frame(
    cfg: RunningMotionDetectorConfig,
    mask: Option<Seq<u8>>,
    prev: RasterView,
    f: RasterView,
) -> ScoredFrame {
    let d = frame_score(prev.data, f.data, mask);
    if is_motion(cfg, d) {
        ScoredFrame { image: f, change: d->0.average as nat, stddev: d->0.std_dev_estimate as nat }
    } else {
        padding(f)
    }
}

/// The frame at place `j` of a run that starts at position `start` of the
/// stream: the frame at `start` counted as zero, then the frames after it as
/// a run keeps them.
pub open spec fn run_frame(
    cfg: RunningMotionDetectorConfig,
    mask: Option<Seq<u8>>,
    stream: Seq<RasterView>,
    start: nat,
    j: int,
) -> ScoredFrame {
    if j == 0 {
        padding(stream[start as int])
    } else {
        kept_frame(cfg, mask, stream[start + j - 1], stream[start + j])
    }
}

/// `frames` are the frames of `stream` from position `start` on, in order and
/// without a gap, each scored as a run keeps it.
pub open spec fn frames_follow(
    cfg: RunningMotionDetectorConfig,
    mask: Option<Seq<u8>>,
    stream: Seq<RasterView>,
    start: nat,
    frames: Seq<ScoredFrame>,
) -> bool {
    &&& start + frames.len() <= stream.len()
    &&& forall|j: int|
        0 <= j < frames.len() ==> #[trigger] frames[j] == run_frame(cfg, mask, stream, start, j)
}

/// An event that ended a run holds at least one frame, holds exactly the
/// frames of the stream from its start to its end, and carries the sum of
/// their scores.
pub open spec fn closed_event_in_order(
    cfg: RunningMotionDetectorConfig,
    mask: Option<Seq<u8>>,
    stream: Seq<RasterView>,
    e: EventView,
) -> bool {
    &&& e.frames.len() >= 1
    &&& e.start <= e.end
    &&& e.end + 1 == e.start + e.frames.len()
    &&& frames_follow(cfg, mask, stream, e.start, e.frames)
    &&& e.total_score == total_change(e.frames)
}

/// An event that announces a run in progress holds the frames of the stream
/// from its start up to, and without, the frame that it names as its end.
pub open spec fn open_event_in_order(
    cfg: RunningMotionDetectorConfig,
    mask: Option<Seq<u8>>,
    stream: Seq<RasterView>,
    e: EventView,
) -> bool {
    &&& e.frames.len() >= 1
    &&& e.start < e.end
    &&& e.end == e.start + e.frames.len()
    &&& frames_follow(cfg, mask, stream, e.start, e.frames)
    &&& e.total_score == total_change(e.frames)
}

/// The event that a transition carries, if it carries one, is in order.
pub open spec fn transition_in_order(
    cfg: RunningMotionDetectorConfig,
    mask: Option<Seq<u8>>,
    stream: Seq<RasterView>,
    s: StateView,
) -> bool {
    match s {
        StateView::Rejected { event } => closed_event_in_order(cfg, mask, stream, event),
        StateView::Completed { event, .. } => closed_event_in_order(cfg, mask, stream, event),
        StateView::ConfirmedInProgress { event } => open_event_in_order(cfg, mask, stream, event),
        _ => true,
    }
}

/// The run in progress and its buffer hold the frames of the stream from the
/// run's start to the stream's end.
pub open spec fn run_in_order(
    cfg: RunningMotionDetectorConfig,
    mask: Option<Seq<u8>>,
    stream: Seq<RasterView>,
    m: DetectorModel,
) -> bool {
    m.start matches Some(s) ==> frames_follow(cfg, mask, stream, s, m.run + m.followup)
}

/// Frames that follow a stream still follow it when the stream goes on.
pub proof fn lemma_frames_follow_longer(
    cfg: RunningMotionDetectorConfig,
    mask: Option<Seq<u8>>,
    stream: Seq<RasterView>,
    f: RasterView,
    start: nat,
    frames: Seq<ScoredFrame>,
)
    requires
        frames_follow(cfg, mask, stream, start, frames),
    ensures
        frames_follow(cfg, mask, stream.push(f), start, frames),
{
    assert forall|j: int| 0 <= j < frames.len() implies #[trigger] frames[j] == run_frame(
        cfg,
        mask,
        stream.push(f),
        start,
        j,
    ) by {
        assert(frames[j] == run_frame(cfg, mask, stream, start, j));
    }
}

/// A transition that is in order stays so when the stream goes on.
pub proof fn lemma_transition_in_order_longer(
    cfg: RunningMotionDetectorConfig,
    mask: Option<Seq<u8>>,
    stream: Seq<RasterView>,
    f: RasterView,
    s: StateView,
)
    requires
        transition_in_order(cfg, mask, stream, s),
    ensures
        transition_in_order(cfg, mask, stream.push(f), s),
{
    match s {
        StateView::Rejected { event } => lemma_frames_follow_longer(
            cfg,
            mask,
            stream,
            f,
            event.start,
            event.frames,
        ),
        StateView::Completed { event, .. } => lemma_frames_follow_longer(
            cfg,
            mask,
            stream,
            f,
            event.start,
            event.frames,
        ),
        StateView::ConfirmedInProgress { event } => lemma_frames_follow_longer(
            cfg,
            mask,
            stream,
            f,
            event.start,
            event.frames,
        ),
        _ => {},
    }
}

/// One frame keeps the run in order and emits only transitions in order.
pub proof fn lemma_step_in_order(
    cfg: RunningMotionDetectorConfig,
    mask: Option<Seq<u8>>,
    stream: Seq<RasterView>,
    m: DetectorModel,
    f: RasterView,
)
    requires
        model_inv(cfg, m),
        m.frame_number == stream.len(),
        stream.len() > 0 ==> m.last_frame == Some(stream.last()),
        run_in_order(cfg, mask, stream, m),
    ensures
        run_in_order(cfg, mask, stream.push(f), step(cfg, mask, m, f).next),
        forall|i: int|
            0 <= i < step(cfg, mask, m, f).emitted.len() ==> transition_in_order(
                cfg,
                mask,
                stream.push(f),
                #[trigger] step(cfg, mask, m, f).emitted[i],
            ),
{
    let longer = stream.push(f);
    let s = step(cfg, mask, m, f);
    match m.last_frame {
        None => {},
        Some(prev) => {
            let d = frame_score(prev.data, f.data, mask);
            let start = start_at_motion(m);
            let place = stream.len() - start;
            assert(longer[start + place - 1] == prev);
            assert(longer[start + place] == f);
            if is_motion(cfg, d) {
                let before = run_before_motion(m, prev);
                let scored = kept_frame(cfg, mask, prev, f);
                lemma_total_change_padding(m.run, m.followup);
                assert(total_change(seq![padding(prev)]) == 0) by {
                    lemma_total_change_push(Seq::empty(), padding(prev));
                    assert(Seq::<ScoredFrame>::empty().push(padding(prev)) =~= seq![padding(prev)]);
                }
                assert(frames_follow(cfg, mask, stream, start, before)) by {
                    if m.followup.len() == 0 && m.run.len() > 0 {
                        assert(m.run + m.followup =~= m.run);
                    }
                }
                lemma_frames_follow_longer(cfg, mask, stream, f, start, before);
                assert(s.next.run + s.next.followup =~= before.push(scored));
                assert(scored == run_frame(cfg, mask, longer, start, place));
            } else if m.run.len() > 0 {
                lemma_frames_follow_longer(cfg, mask, stream, f, start, m.run + m.followup);
                if m.followup.len() < cfg.followup_frame_count {
                    assert(s.next.run + s.next.followup =~= (m.run + m.followup).push(padding(f)));
                    assert(padding(f) == run_frame(cfg, mask, longer, start, place));
                } else {
                    lemma_total_change_padding(m.run, m.followup);
                }
            }
        },
    }
}

/// After any stream the run is in order, and so is every transition that was
/// emitted along the way.
pub proof fn lemma_trace_in_order(
    cfg: RunningMotionDetectorConfig,
    mask: Option<Seq<u8>>,
    frames: Seq<RasterView>,
)
    requires
        is_stream(frames),
    ensures
        run_in_order(cfg, mask, frames, run_detector(cfg, mask, frames).model),
        forall|i: int|
            0 <= i < run_detector(cfg, mask, frames).emitted.len() ==> transition_in_order(
                cfg,
                mask,
                frames,
                #[trigger] run_detector(cfg, mask, frames).emitted[i],
            ),
    decreases frames.len(),
{
    if frames.len() > 0 {
        let head = frames.drop_last();
        let f = frames.last();
        lemma_stream_prefix(frames);
        lemma_trace_in_order(cfg, mask, head);
        lemma_run_detector_inv(cfg, mask, head);
        let before = run_detector(cfg, mask, head);
        let s = step(cfg, mask, before.model, f);
        assert(head.push(f) =~= frames);
        lemma_step_in_order(cfg, mask, head, before.model, f);
        let after = run_detector(cfg, mask, frames);
        assert forall|i: int| 0 <= i < after.emitted.len() implies transition_in_order(
            cfg,
            mask,
            frames,
            #[trigger] after.emitted[i],
        ) by {
            if i < before.emitted.len() {
                assert(after.emitted[i] == before.emitted[i]);
                lemma_transition_in_order_longer(cfg, mask, head, f, before.emitted[i]);
            } else {
                assert(after.emitted[i] == s.emitted[i - before.emitted.len()]);
            }
        }
    }
}

/// Every event that ends a run, rejected or completed, holds at least one
/// frame, ends no earlier than it starts, and holds exactly the frames of the
/// stream from its start to its end, in stream order: first the frame before
/// the motion, counted as zero, then each frame with its score against the
/// frame before it where it shows motion, and counted as zero where it does
/// not. Its total is the sum of these scores. An event that announces a run
/// in progress holds, in the same way, the frames from its start up to the
/// frame that it names as its end.
pub proof fn law_events_in_stream_order(
    cfg: RunningMotionDetectorConfig,
    mask: Option<Seq<u8>>,
    frames: Seq<RasterView>,
    i: int,
)
    requires
        is_stream(frames),
        0 <= i < run_detector(cfg, mask, frames).emitted.len(),
    ensures
        transition_in_order(cfg, mask, frames, run_detector(cfg, mask, frames).emitted[i]),
{
    lemma_trace_in_order(cfg, mask, frames);
}

/// A transition that ends a run.
pub open spec fn is_verdict(s: StateView) -> bool {
    s is Rejected || s is Completed
}

/// The event that a transition carries. Transitions without an event give an
/// event without frames.
pub open spec fn event_of(s: StateView) -> EventView {
    match s {
        StateView::Rejected { event } => event,
        StateView::Completed { event, .. } => event,
        StateView::ConfirmedInProgress { event } => event,
        _ => EventView { start: 0, end: 0, frames: Seq::empty(), total_score: 0 },
    }
}

/// The earliest stream position that a frame of the run in progress, or of
/// the next run if none is in progress, can have.
pub open spec fn frontier(m: DetectorModel) -> int {
    match m.start {
        Some(s) => s as int,
        None => m.frame_number - 1,
    }
}

/// Every run that has ended lies before the frontier.
pub open spec fn verdicts_behind(emitted: Seq<StateView>, m: DetectorModel) -> bool {
    forall|i: int|
        0 <= i < emitted.len() && is_verdict(#[trigger] emitted[i]) ==> event_of(emitted[i]).end
            < frontier(m)
}

/// Of two runs that have ended, the later starts after the earlier has ended.
pub open spec fn verdicts_apart(emitted: Seq<StateView>) -> bool {
    forall|i: int, j: int|
        0 <= i < j < emitted.len() && is_verdict(#[trigger] emitted[i]) && is_verdict(
            #[trigger] emitted[j],
        ) ==> event_of(emitted[i]).end < event_of(emitted[j]).start
}

/// One frame adds at most one verdict, and that verdict lies after all
/// earlier ones.
pub proof fn lemma_step_verdicts(
    cfg: RunningMotionDetectorConfig,
    mask: Option<Seq<u8>>,
    emitted: Seq<StateView>,
    m: DetectorModel,
    f: RasterView,
)
    requires
        model_inv(cfg, m),
        verdicts_behind(emitted, m),
        verdicts_apart(emitted),
    ensures
        verdicts_behind(emitted + step(cfg, mask, m, f).emitted, step(cfg, mask, m, f).next),
        verdicts_apart(emitted + step(cfg, mask, m, f).emitted),
{
    let s = step(cfg, mask, m, f);
    let all = emitted + s.emitted;
    assert(frontier(m) <= frontier(s.next));
    assert forall|i: int| 0 <= i < all.len() && is_verdict(#[trigger] all[i]) implies event_of(
        all[i],
    ).end < frontier(s.next) by {
        if i < emitted.len() {
            assert(all[i] == emitted[i]);
        } else {
            assert(all[i] == s.emitted[i - emitted.len()]);
        }
    }
    assert forall|i: int, j: int|
        0 <= i < j < all.len() && is_verdict(#[trigger] all[i]) && is_verdict(
            #[trigger] all[j],
        ) implies event_of(all[i]).end < event_of(all[j]).start by {
        if j < emitted.len() {
            assert(all[i] == emitted[i]);
            assert(all[j] == emitted[j]);
        } else if i < emitted.len() {
            assert(all[i] == emitted[i]);
            assert(all[j] == s.emitted[j - emitted.len()]);
        } else {
            assert(all[i] == s.emitted[i - emitted.len()]);
            assert(all[j] == s.emitted[j - emitted.len()]);
        }
    }
}

/// After any stream, the runs that have ended lie apart and behind the
/// frontier.
pub proof fn lemma_trace_verdicts(
    cfg: RunningMotionDetectorConfig,
    mask: Option<Seq<u8>>,
    frames: Seq<RasterView>,
)
    requires
        is_stream(frames),
    ensures
        verdicts_behind(
            run_detector(cfg, mask, frames).emitted,
            run_detector(cfg, mask, frames).model,
        ),
        verdicts_apart(run_detector(cfg, mask, frames).emitted),
    decreases frames.len(),
{
    if frames.len() > 0 {
        let head = frames.drop_last();
        lemma_stream_prefix(frames);
        lemma_trace_verdicts(cfg, mask, head);
        lemma_run_detector_inv(cfg, mask, head);
        let before = run_detector(cfg, mask, head);
        lemma_step_verdicts(cfg, mask, before.emitted, before.model, frames.last());
    }
}

/// A run ends once: of any two verdicts of one stream, be they rejections or
/// completions, the later one's run starts after the earlier one's run has
/// ended. So no run is both rejected and completed, and none is ended twice.
pub proof fn law_runs_end_once(
    cfg: RunningMotionDetectorConfig,
    mask: Option<Seq<u8>>,
    frames: Seq<RasterView>,
    i: int,
    j: int,
)
    requires
        is_stream(frames),
        0 <= i < j < run_detector(cfg, mask, frames).emitted.len(),
        is_verdict(run_detector(cfg, mask, frames).emitted[i]),
        is_verdict(run_detector(cfg, mask, frames).emitted[j]),
    ensures
        event_of(run_detector(cfg, mask, frames).emitted[i]).end < event_of(
            run_detector(cfg, mask, frames).emitted[j],
        ).start,
{
    lemma_trace_verdicts(cfg, mask, frames);
}

/// A frame ends a run exactly when a run was open and none is open after it,
/// and then it emits one verdict, first among what it emits.
pub proof fn law_one_verdict_per_run(
    cfg: RunningMotionDetectorConfig,
    mask: Option<Seq<u8>>,
    m: DetectorModel,
    f: RasterView,
)
    requires
        model_inv(cfg, m),
    ensures
        ({
            let s = step(cfg, mask, m, f);
            let ends = m.run.len() > 0 && s.next.run.len() == 0;
            &&& ends ==> s.emitted.len() == 2 && is_verdict(s.emitted[0]) && !is_verdict(
                s.emitted[1],
            )
            &&& !ends ==> forall|k: int| 0 <= k < s.emitted.len() ==> !is_verdict(s.emitted[k])
        }),
{
}

/// The transition announces, while in progress, the run that starts at
/// `start`.
pub open spec fn announces(s: StateView, start: nat) -> bool {
    s matches StateView::ConfirmedInProgress { event } && event.start == start
}

/// Among the first `upto` transitions, one announces the run that starts at
/// `start`.
pub open spec fn announced_before(emitted: Seq<StateView>, upto: int, start: nat) -> bool {
    exists|i: int| 0 <= i < upto && i < emitted.len() && announces(#[trigger] emitted[i], start)
}

/// Each completion says that its run was announced exactly if it was.
pub open spec fn completions_truthful(emitted: Seq<StateView>) -> bool {
    forall|j: int|
        0 <= j < emitted.len() ==> ((#[trigger] emitted[j]) matches StateView::Completed {
            event,
            was_confirmed_already,
        } ==> (was_confirmed_already <==> announced_before(emitted, j, event.start)))
}

/// Of two announcements, the later one's run starts after the earlier one's.
pub open spec fn announcements_apart(emitted: Seq<StateView>) -> bool {
    forall|i: int, j: int|
        0 <= i < j < emitted.len() && (#[trigger] emitted[i]) is ConfirmedInProgress && (
        #[trigger] emitted[j]) is ConfirmedInProgress ==> event_of(emitted[i]).start < event_of(
            emitted[j],
        ).start
}

/// The detector's memory of having announced the run agrees with what was
/// emitted.
pub open spec fn announcements_tracked(emitted: Seq<StateView>, m: DetectorModel) -> bool {
    &&& forall|i: int|
        0 <= i < emitted.len() && (#[trigger] emitted[i]) is ConfirmedInProgress ==> event_of(
            emitted[i],
        ).start <= frontier(m)
    &&& m.run.len() == 0 ==> forall|i: int|
        0 <= i < emitted.len() && (#[trigger] emitted[i]) is ConfirmedInProgress ==> event_of(
            emitted[i],
        ).start < frontier(m)
    &&& m.start matches Some(s) ==> (m.confirmed <==> announced_before(
        emitted,
        emitted.len() as int,
        s,
    ))
}

/// One frame keeps the announcements tracked and the completions truthful.
pub proof fn lemma_step_announcements(
    cfg: RunningMotionDetectorConfig,
    mask: Option<Seq<u8>>,
    emitted: Seq<StateView>,
    m: DetectorModel,
    f: RasterView,
)
    requires
        model_inv(cfg, m),
        announcements_tracked(emitted, m),
        announcements_apart(emitted),
        completions_truthful(emitted),
    ensures
        announcements_tracked(emitted + step(cfg, mask, m, f).emitted, step(cfg, mask, m, f).next),
        announcements_apart(emitted + step(cfg, mask, m, f).emitted),
        completions_truthful(emitted + step(cfg, mask, m, f).emitted),
{
    let s = step(cfg, mask, m, f);
    let all = emitted + s.emitted;
    let old_len = emitted.len() as int;
    assert(forall|i: int| 0 <= i < old_len ==> all[i] == emitted[i]);
    assert(forall|i: int| old_len <= i < all.len() ==> all[i] == s.emitted[i - old_len]);
    assert forall|i: int, j: int|
        0 <= i < j < all.len() && (#[trigger] all[i]) is ConfirmedInProgress && (
        #[trigger] all[j]) is ConfirmedInProgress implies event_of(all[i]).start < event_of(
        all[j],
    ).start by {
        if j < old_len {
            assert(all[i] == emitted[i] && all[j] == emitted[j]);
        } else {
            assert(j == old_len);
            assert(confirms(cfg, m));
            let start = start_at_motion(m);
            assert(all[i] == emitted[i]);
            if event_of(emitted[i]).start == start {
                assert(announces(emitted[i], start));
                assert(announced_before(emitted, old_len, start));
            }
        }
    }
    // Whatever was announced among the old transitions is announced among all.
    assert forall|upto: int, start: nat|
        upto <= old_len implies (#[trigger] announced_before(emitted, upto, start)
        <==> announced_before(all, upto, start)) by {
        if announced_before(emitted, upto, start) {
            let i = choose|i: int|
                0 <= i < upto && i < emitted.len() && announces(#[trigger] emitted[i], start);
            assert(announces(all[i], start));
        }
        if announced_before(all, upto, start) {
            let i = choose|i: int| 0 <= i < upto && i < all.len() && announces(#[trigger] all[i], start);
            assert(announces(emitted[i], start));
        }
    }
    assert forall|j: int| 0 <= j < all.len() implies ((#[trigger] all[j]) matches StateView::Completed {
        event,
        was_confirmed_already,
    } ==> (was_confirmed_already <==> announced_before(all, j, event.start))) by {
        if j < old_len {
            assert(all[j] == emitted[j]);
            assert(announced_before(emitted, j, event_of(emitted[j]).start) <==> announced_before(
                all,
                j,
                event_of(emitted[j]).start,
            ));
        } else if all[j] is Completed {
            assert(j == old_len);
            let start = start_at_motion(m);
            assert(m.start == Some(start));
            assert(announced_before(emitted, old_len, start) <==> announced_before(
                all,
                old_len,
                start,
            ));
        }
    }
    let next = s.next;
    match next.start {
        Some(start) => {
            assert(start == frontier(m));
            let had = announced_before(emitted, old_len, start);
            assert(had <==> announced_before(all, old_len, start));
            assert(m.confirmed <==> had) by {
                if m.run.len() == 0 {
                    if had {
                        let i = choose|i: int|
                            0 <= i < old_len && i < emitted.len() && announces(
                                #[trigger] emitted[i],
                                start,
                            );
                        assert(emitted[i] is ConfirmedInProgress);
                    }
                }
            }
            if announced_before(all, all.len() as int, start) && !had {
                let i = choose|i: int|
                    0 <= i < all.len() && i < all.len() && announces(#[trigger] all[i], start);
                if i < old_len {
                    assert(announces(all[i], start));
                    assert(announced_before(all, old_len, start));
                }
                assert(next.confirmed);
            }
            if next.confirmed && !m.confirmed {
                assert(announces(all[old_len], start));
            }
            if had {
                let i = choose|i: int|
                    0 <= i < old_len && i < all.len() && announces(#[trigger] all[i], start);
                assert(announces(all[i], start));
            }
        },
        None => {},
    }
}

/// After any stream the announcements are tracked and the completions
/// truthful.
pub proof fn lemma_trace_announcements(
    cfg: RunningMotionDetectorConfig,
    mask: Option<Seq<u8>>,
    frames: Seq<RasterView>,
)
    requires
        is_stream(frames),
    ensures
        announcements_tracked(
            run_detector(cfg, mask, frames).emitted,
            run_detector(cfg, mask, frames).model,
        ),
        announcements_apart(run_detector(cfg, mask, frames).emitted),
        completions_truthful(run_detector(cfg, mask, frames).emitted),
    decreases frames.len(),
{
    if frames.len() > 0 {
        let head = frames.drop_last();
        lemma_stream_prefix(frames);
        lemma_trace_announcements(cfg, mask, head);
        lemma_run_detector_inv(cfg, mask, head);
        let before = run_detector(cfg, mask, head);
        lemma_step_announcements(cfg, mask, before.emitted, before.model, frames.last());
    }
}

/// A completion says that its run was confirmed already exactly if an
/// announcement of that same run was emitted earlier in the stream.
pub proof fn law_completion_tells_confirmation(
    cfg: RunningMotionDetectorConfig,
    mask: Option<Seq<u8>>,
    frames: Seq<RasterView>,
    j: int,
)
    requires
        is_stream(frames),
        0 <= j < run_detector(cfg, mask, frames).emitted.len(),
        run_detector(cfg, mask, frames).emitted[j] is Completed,
    ensures
        run_detector(cfg, mask, frames).emitted[j]->was_confirmed_already <==> announced_before(
            run_detector(cfg, mask, frames).emitted,
            j,
            event_of(run_detector(cfg, mask, frames).emitted[j]).start,
        ),
{
    lemma_trace_announcements(cfg, mask, frames);
}

/// A run is announced at most once: of any two announcements of one
/// stream, the later one's run starts after the earlier one's.
pub proof fn law_runs_announced_once(
    cfg: RunningMotionDetectorConfig,
    mask: Option<Seq<u8>>,
    frames: Seq<RasterView>,
    i: int,
    j: int,
)
    requires
        is_stream(frames),
        0 <= i < j < run_detector(cfg, mask, frames).emitted.len(),
        run_detector(cfg, mask, frames).emitted[i] is ConfirmedInProgress,
        run_detector(cfg, mask, frames).emitted[j] is ConfirmedInProgress,
    ensures
        event_of(run_detector(cfg, mask, frames).emitted[i]).start < event_of(
            run_detector(cfg, mask, frames).emitted[j],
        ).start,
{
    lemma_trace_announcements(cfg, mask, frames);
}

/// The transition says of its run what the thresholds make of it. A run
/// waits exactly while it falls short and is active exactly once it does
/// not; it is announced only with enough score and after more frames than
/// the budget; and when it ends, it is rejected exactly if it falls short
/// without the frames of its buffer, and completed exactly if it does not.
pub open spec fn earned(cfg: RunningMotionDetectorConfig, s: StateView) -> bool {
    match s {
        StateView::Idle { .. } => true,
        StateView::WaitAndSee { start, current, score } => start <= current && falls_short(
            cfg,
            (current - start + 1) as nat,
            score,
        ),
        StateView::Active { start, current, score } => start <= current && !falls_short(
            cfg,
            (current - start + 1) as nat,
            score,
        ),
        StateView::Followup { start, current, .. } => start < current,
        StateView::ConfirmedInProgress { event } => event.total_score >= cfg.minimum_total_change
            && event.end - event.start > confirm_budget(cfg),
        StateView::Rejected { event } => event.frames.len() >= cfg.followup_frame_count
            && falls_short(
            cfg,
            (event.frames.len() - cfg.followup_frame_count) as nat,
            event.total_score,
        ),
        StateView::Completed { event, .. } => event.frames.len() >= cfg.followup_frame_count
            && !falls_short(
            cfg,
            (event.frames.len() - cfg.followup_frame_count) as nat,
            event.total_score,
        ),
    }
}

/// Whatever one frame emits is earned.
pub proof fn lemma_step_earned(
    cfg: RunningMotionDetectorConfig,
    mask: Option<Seq<u8>>,
    m: DetectorModel,
    f: RasterView,
)
    requires
        model_inv(cfg, m),
    ensures
        forall|i: int|
            0 <= i < step(cfg, mask, m, f).emitted.len() ==> earned(
                cfg,
                #[trigger] step(cfg, mask, m, f).emitted[i],
            ),
{
}

/// Every transition of a stream is earned.
pub proof fn law_transitions_are_earned(
    cfg: RunningMotionDetectorConfig,
    mask: Option<Seq<u8>>,
    frames: Seq<RasterView>,
    i: int,
)
    requires
        is_stream(frames),
        0 <= i < run_detector(cfg, mask, frames).emitted.len(),
    ensures
        earned(cfg, run_detector(cfg, mask, frames).emitted[i]),
    decreases frames.len(),
{
    let head = frames.drop_last();
    let before = run_detector(cfg, mask, head);
    lemma_stream_prefix(frames);
    if i < before.emitted.len() {
        law_transitions_are_earned(cfg, mask, head, i);
    } else {
        lemma_run_detector_inv(cfg, mask, head);
        lemma_step_earned(cfg, mask, before.model, frames.last());
        let s = step(cfg, mask, before.model, frames.last());
        assert(run_detector(cfg, mask, frames).emitted[i] == s.emitted[i - before.emitted.len()]);
    }
}

/// Which transition may come directly after which. A run opens from idle,
/// waits until it is long and strong enough, is active from then on, may be
/// announced once while active, is buffered whenever motion pauses, picks up
/// again when motion returns, and ends from the buffer in a verdict, which
/// leads back to idle. Four shortcuts exist only under thresholds that leave
/// a stage out: a run may be active or announced at once where nothing is
/// asked of its length, and may end without buffering where the buffer holds
/// no frame.
pub open spec fn follows(cfg: RunningMotionDetectorConfig, a: StateView, b: StateView) -> bool {
    match a {
        StateView::Idle { .. } => b is WaitAndSee || (b is Active && cfg.minimum_frame_count <= 1)
            || (b is ConfirmedInProgress && confirm_budget(cfg) == 0),
        StateView::WaitAndSee { .. } => b is WaitAndSee || b is Active || b is Followup || (b
            is Rejected && cfg.followup_frame_count == 0),
        StateView::Active { .. } => b is Active || b is ConfirmedInProgress || b is Followup || (b
            is Completed && cfg.followup_frame_count == 0),
        StateView::Followup { .. } => b is Followup || b is WaitAndSee || b is Active || b
            is ConfirmedInProgress || b is Rejected || b is Completed,
        StateView::ConfirmedInProgress { .. } => b is Active,
        StateView::Rejected { .. } => b is Idle,
        StateView::Completed { .. } => b is Idle,
    }
}

/// What the detector remembers fits the transition it emitted last.
pub open spec fn settled(cfg: RunningMotionDetectorConfig, m: DetectorModel, last: StateView) -> bool {
    match last {
        StateView::Idle { .. } => m.run.len() == 0,
        StateView::WaitAndSee { .. } => m.run.len() > 0 && m.followup.len() == 0 && falls_short(
            cfg,
            m.run.len(),
            m.score,
        ),
        StateView::Active { .. } => m.run.len() > 0 && m.followup.len() == 0 && !falls_short(
            cfg,
            m.run.len(),
            m.score,
        ),
        StateView::Followup { .. } => m.followup.len() > 0,
        _ => false,
    }
}

/// The transitions so far start from idle, each may follow the one before
/// it, and the last fits what the detector remembers.
pub open spec fn on_path(
    cfg: RunningMotionDetectorConfig,
    emitted: Seq<StateView>,
    m: DetectorModel,
) -> bool {
    &&& emitted.len() == 0 <==> m.frame_number == 0
    &&& emitted.len() > 0 ==> emitted[0] is Idle && settled(cfg, m, emitted.last())
    &&& forall|i: int| 0 < i < emitted.len() ==> follows(cfg, emitted[i - 1], #[trigger] emitted[i])
}

/// One frame keeps the transitions on the path.
pub proof fn lemma_step_on_path(
    cfg: RunningMotionDetectorConfig,
    mask: Option<Seq<u8>>,
    emitted: Seq<StateView>,
    m: DetectorModel,
    f: RasterView,
)
    requires
        model_inv(cfg, m),
        on_path(cfg, emitted, m),
    ensures
        on_path(cfg, emitted + step(cfg, mask, m, f).emitted, step(cfg, mask, m, f).next),
{
    let s = step(cfg, mask, m, f);
    let all = emitted + s.emitted;
    let old_len = emitted.len() as int;
    assert(forall|i: int| 0 <= i < old_len ==> all[i] == emitted[i]);
    assert(forall|i: int| old_len <= i < all.len() ==> all[i] == s.emitted[i - old_len]);
    match m.last_frame {
        None => {},
        Some(prev) => {
            let last = emitted.last();
            let d = frame_score(prev.data, f.data, mask);
            if is_motion(cfg, d) {
                let before = run_before_motion(m, prev);
                let start = start_at_motion(m);
                assert(before.len() == m.frame_number - start);
                assert(s.next.run.len() == before.len() + 1);
                if confirms(cfg, m) {
                    assert(all[old_len] is ConfirmedInProgress);
                    assert(all[old_len + 1] is Active);
                    assert(follows(cfg, last, all[old_len]));
                } else {
                    assert(follows(cfg, last, all[old_len]));
                }
            } else if m.run.len() > 0 {
                assert(follows(cfg, last, all[old_len]));
            } else {
                assert(all =~= emitted);
            }
        },
    }
    assert forall|i: int| 0 < i < all.len() implies follows(cfg, all[i - 1], #[trigger] all[i]) by {
        if i < old_len {
            assert(follows(cfg, emitted[i - 1], emitted[i]));
        }
    }
}

/// After any stream the transitions are on the path.
pub proof fn lemma_trace_on_path(
    cfg: RunningMotionDetectorConfig,
    mask: Option<Seq<u8>>,
    frames: Seq<RasterView>,
)
    requires
        is_stream(frames),
    ensures
        on_path(
            cfg,
            run_detector(cfg, mask, frames).emitted,
            run_detector(cfg, mask, frames).model,
        ),
    decreases frames.len(),
{
    if frames.len() > 0 {
        let head = frames.drop_last();
        lemma_stream_prefix(frames);
        lemma_trace_on_path(cfg, mask, head);
        lemma_run_detector_inv(cfg, mask, head);
        let before = run_detector(cfg, mask, head);
        lemma_step_on_path(cfg, mask, before.emitted, before.model, frames.last());
    }
}

/// The transitions of a stream form a path: the first one is idle, and each
/// later one may follow the one before it.
pub proof fn law_transitions_form_path(
    cfg: RunningMotionDetectorConfig,
    mask: Option<Seq<u8>>,
    frames: Seq<RasterView>,
    i: int,
)
    requires
        is_stream(frames),
        0 <= i < run_detector(cfg, mask, frames).emitted.len(),
    ensures
        i == 0 ==> run_detector(cfg, mask, frames).emitted[0] is Idle,
        i > 0 ==> follows(
            cfg,
            run_detector(cfg, mask, frames).emitted[i - 1],
            run_detector(cfg, mask, frames).emitted[i],
        ),
{
    lemma_trace_on_path(cfg, mask, frames);
}

/// A score of zero does not count as motion under `cfg`.
pub open spec fn stillness_is_quiet(cfg: RunningMotionDetectorConfig) -> bool {
    !is_motion(cfg, Some(MotionDetectionResult { average: 0, std_dev_estimate: 0 }))
}

/// A stream that repeats one frame emits the idle transition of its first
/// frame and nothing after it, whatever the mask, as long as a score of zero
/// does not count as motion.
pub proof fn law_still_stream_stays_idle(
    cfg: RunningMotionDetectorConfig,
    mask: Option<Seq<u8>>,
    frames: Seq<RasterView>,
)
    requires
        frames.len() > 0,
        forall|i: int| 0 <= i < frames.len() ==> #[trigger] frames[i] == frames[0],
        stillness_is_quiet(cfg),
    ensures
        run_detector(cfg, mask, frames).emitted == seq![StateView::Idle { frame_number: 0 }],
        run_detector(cfg, mask, frames).model.run.len() == 0,
        run_detector(cfg, mask, frames).model.last_frame == Some(frames[0]),
    decreases frames.len(),
{
    let head = frames.drop_last();
    let f = frames.last();
    if head.len() == 0 {
        assert(run_detector(cfg, mask, head).model == initial_model());
        assert(run_detector(cfg, mask, frames).emitted =~= seq![StateView::Idle { frame_number: 0 }]);
    } else {
        assert(forall|i: int| 0 <= i < head.len() ==> #[trigger] head[i] == frames[i]);
        law_still_stream_stays_idle(cfg, mask, head);
        let before = run_detector(cfg, mask, head);
        assert(f == frames[0]);
        if tally(f.data, f.data, mask, pixel_count(f.data)).count > 0 {
            law_identical_frames_score_zero(f.data, mask);
        }
        assert(!is_motion(cfg, frame_score(f.data, f.data, mask)));
        assert(run_detector(cfg, mask, frames).emitted =~= seq![StateView::Idle { frame_number: 0 }]);
    }
}

} // verus!
