//! What a camera's worker does about each transition that its detector
//! emits: which figures it reports, and which jobs it sends off.

use vstd::prelude::*;
use crate::model::StateView;
use crate::modect::{MotionDetectionState, state_number};
use crate::pushover::AlertState;

verus! {

/// How a verdict enters the figures: the total score of the run, in
/// thousandths, and the position of its last frame.
#[derive(Clone, Copy, Debug, PartialEq, Eq, Structural)]
pub struct VerdictFigures {
    pub total_score: u128,
    pub last_frame: u64,
}

/// What follows from one transition.
#[derive(Clone, Copy, Debug, PartialEq, Eq, Structural)]
pub struct TransitionEffects {
    /// The number that the gauge of the current state is set to.
    pub state_gauge: u16,
    /// A rejection to count, with its figures.
    pub rejected: Option<VerdictFigures>,
    /// Whether a confirmation is to be counted.
    pub confirmed: bool,
    /// A completion to count, with its figures.
    pub completed: Option<VerdictFigures>,
    /// The alert to send off, if any.
    pub alert: Option<AlertState>,
    /// Whether the event's clip is to be written.
    pub clip: bool,
}

/// The effects of a transition. A rejection is only counted. A confirmation
/// is counted and announced. A completion is counted, announced as the end
/// of an announced run or as a run of its own, and written to a clip.
pub open spec fn effects_of(state: StateView) -> TransitionEffects {
    let quiet = TransitionEffects {
        state_gauge: state_number(state),
        rejected: None,
        confirmed: false,
        completed: None,
        alert: None,
        clip: false,
    };
    match state {
        StateView::Rejected { event } => TransitionEffects {
            rejected: Some(
                VerdictFigures {
                    total_score: event.total_score as u128,
                    last_frame: event.end as u64,
                },
            ),
            ..quiet
        },
        StateView::ConfirmedInProgress { event } => TransitionEffects {
            confirmed: true,
            alert: Some(AlertState::Confirmed),
            ..quiet
        },
        StateView::Completed { event, was_confirmed_already } => TransitionEffects {
            completed: Some(
                VerdictFigures {
                    total_score: event.total_score as u128,
                    last_frame: event.end as u64,
                },
            ),
            alert: Some(
                if was_confirmed_already {
                    AlertState::CompletedAfterConfirm
                } else {
                    AlertState::Completed
                },
            ),
            clip: true,
            ..quiet
        },
        _ => quiet,
    }
}

/// What the worker does about `state`.
pub fn transition_effects(state: &MotionDetectionState) -> (effects: TransitionEffects)
    ensures
        effects == effects_of(state@),
{
    let quiet = TransitionEffects {
        state_gauge: state.discriminant(),
        rejected: None,
        confirmed: false,
        completed: None,
        alert: None,
        clip: false,
    };
    match state {
        MotionDetectionState::Rejected { event } => TransitionEffects {
            rejected: Some(
                VerdictFigures {
                    total_score: event.total_score,
                    last_frame: event.end_stream_frame_number,
                },
            ),
            ..quiet
        },
        MotionDetectionState::ConfirmedInProgress { .. } => TransitionEffects {
            confirmed: true,
            alert: Some(AlertState::Confirmed),
            ..quiet
        },
        MotionDetectionState::Completed { event, was_confirmed_already } => TransitionEffects {
            completed: Some(
                VerdictFigures {
                    total_score: event.total_score,
                    last_frame: event.end_stream_frame_number,
                },
            ),
            alert: Some(
                if *was_confirmed_already {
                    AlertState::CompletedAfterConfirm
                } else {
                    AlertState::Completed
                },
            ),
            clip: true,
            ..quiet
        },
        _ => quiet,
    }
}

} // verus!
