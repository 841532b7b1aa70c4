//! Steps whose branches race, locally and across restarts.

use vstd::prelude::*;

use crate::dsl::MAX_DSL_PARALLEL_BRANCHES;
use crate::dsl_checkpoint;
use crate::dsl_checkpoint::{CheckpointFrame, CheckpointLevel, CheckpointWork};
use crate::dsl_cursor;
use crate::dsl_parallel_recovery;
use crate::error;
use crate::error::{CatgaError, CatgaResult, ErrorCode};
use crate::state;

verus! {

/// A race of branches; the first that succeeds wins.
#[derive(Debug)]
pub struct WhenAnyRace {
    pending: usize,
    first_error: Option<CatgaError>,
}

/// Mathematical model of a [`WhenAnyRace`].
pub struct RaceView {
    /// The number of branches that have not finished.
    pub pending: int,
    /// The failure of the branch that failed first.
    pub first_error: Option<error::ErrorView>,
}

impl View for WhenAnyRace {
    type V = RaceView;

    closed spec fn view(&self) -> RaceView {
        RaceView {
            pending: self.pending as int,
            first_error: state::error_option(self.first_error),
        }
    }
}

/// The next effect of a `when_any` step.
#[derive(Debug)]
pub enum WhenAnyStep {
    /// Wait for a branch to finish, then call [`WhenAnyRace::branch_finished`].
    Await(WhenAnyRace),
    /// Merge the state of this branch; drop the others.
    Winner { index: usize },
    /// Decode this state of a branch that won before, then call [`winner_restored`].
    Restore { winner: usize, state: Vec<u8> },
    /// The step ends with this result and merges nothing.
    Finish(CatgaResult<()>),
}

/// Mathematical model of a [`WhenAnyStep`].
pub enum WhenAnyStepView {
    Await(RaceView),
    Winner { index: usize },
    Restore { winner: usize, state: Seq<u8> },
    Finish(Result<(), error::ErrorView>),
}

impl View for WhenAnyStep {
    type V = WhenAnyStepView;

    open spec fn view(&self) -> WhenAnyStepView {
        match *self {
            WhenAnyStep::Await(race) => WhenAnyStepView::Await(race@),
            WhenAnyStep::Winner { index } => WhenAnyStepView::Winner { index },
            WhenAnyStep::Restore { winner, state } => WhenAnyStepView::Restore {
                winner,
                state: state@,
            },
            WhenAnyStep::Finish(result) => WhenAnyStepView::Finish(
                error::unit_result(result),
            ),
        }
    }
}

/// The step that ends with a rejection.
pub open spec fn race_rejected(message: Seq<char>) -> WhenAnyStepView {
    WhenAnyStepView::Finish(Err(error::validation(message)))
}

/// How a step with `count` branches starts, with the progress of a stored frame.
pub open spec fn race_start(count: nat, work: Option<dsl_checkpoint::WorkView>) -> WhenAnyStepView {
    if count > MAX_DSL_PARALLEL_BRANCHES {
        race_rejected("when_any branch count exceeds the limit"@)
    } else {
        match work {
            Some(dsl_checkpoint::WorkView::WhenAny { winner, state }) => if winner < count {
                WhenAnyStepView::Restore { winner: winner as usize, state }
            } else {
                race_rejected("when_any checkpoint winner index is outside its branches"@)
            },
            Some(_) => race_rejected("DSL checkpoint cursor does not describe a when_any step"@),
            None => if count == 0 {
                WhenAnyStepView::Finish(Ok(()))
            } else {
                WhenAnyStepView::Await(RaceView { pending: count as int, first_error: None })
            },
        }
    }
}

impl RaceView {
    /// The race after one of its branches failed.
    pub open spec fn after_failure(self, failure: error::ErrorView) -> Self {
        RaceView {
            pending: self.pending - 1,
            first_error: if self.first_error is None {
                Some(failure)
            } else {
                self.first_error
            },
        }
    }

    /// What follows when one of the branches finished.
    pub open spec fn after_branch(self, index: usize, result: Result<(), error::ErrorView>) ->
        WhenAnyStepView {
        match result {
            Ok(_) => WhenAnyStepView::Winner { index },
            Err(failure) => {
                let race = self.after_failure(failure);
                if race.pending <= 0 {
                    WhenAnyStepView::Finish(Err(race.first_error->0))
                } else {
                    WhenAnyStepView::Await(race)
                }
            },
        }
    }
}

fn reject(message: &str) -> (result: WhenAnyStep)
    ensures
        result@ == race_rejected(message@),
{
    WhenAnyStep::Finish(Err(CatgaError::new(ErrorCode::Validation, message)))
}

/// Starts a step with `count` branches, from the progress of a stored frame.
pub fn start_when_any(count: usize, work: Option<CheckpointWork>) -> (step: WhenAnyStep)
    ensures
        step@ == race_start(count as nat, dsl_cursor::work_option(work)),
{
    if count > MAX_DSL_PARALLEL_BRANCHES {
        return reject("when_any branch count exceeds the limit");
    }
    match work {
        Some(CheckpointWork::WhenAny { winner, state }) => {
            assert(state.deep_view() =~= state@);
            if (winner as usize) < count {
                WhenAnyStep::Restore { winner: winner as usize, state }
            } else {
                reject("when_any checkpoint winner index is outside its branches")
            }
        },
        Some(_) => reject("DSL checkpoint cursor does not describe a when_any step"),
        None => {
            if count == 0 {
                WhenAnyStep::Finish(Ok(()))
            } else {
                WhenAnyStep::Await(WhenAnyRace { pending: count, first_error: None })
            }
        },
    }
}

/// Checks that the state of a branch that won before could be decoded.
pub fn winner_restored(result: CatgaResult<()>) -> (restored: CatgaResult<()>)
    ensures
        match (restored, result) {
            (Ok(_), Ok(_)) => true,
            (Err(failure), Err(_)) => failure@ == error::validation(
                "when_any checkpoint winner state is invalid"@,
            ),
            _ => false,
        },
{
    match result {
        Ok(_) => Ok(()),
        Err(_) => Err(
            CatgaError::new(
                ErrorCode::Validation,
                "when_any checkpoint winner state is invalid",
            ),
        ),
    }
}

impl WhenAnyRace {
    /// Goes on after a branch finished.
    pub fn branch_finished(self, index: usize, result: CatgaResult<()>) -> (step: WhenAnyStep)
        ensures
            step@ == self@.after_branch(index, error::unit_result(result)),
    {
        match result {
            Ok(_) => WhenAnyStep::Winner { index },
            Err(failure) => {
                let first: CatgaError = match self.first_error {
                    Some(first) => first,
                    None => failure,
                };
                if self.pending <= 1 {
                    WhenAnyStep::Finish(Err(first))
                } else {
                    WhenAnyStep::Await(
                        WhenAnyRace { pending: self.pending - 1, first_error: Some(first) },
                    )
                }
            },
        }
    }
}

/// Encodes the frame that keeps the winner of a race and its state.
pub fn encode_winner(
    levels: &[CheckpointLevel],
    state: CatgaResult<Vec<u8>>,
    winner: usize,
    winner_state: CatgaResult<Vec<u8>>,
) -> (result: CatgaResult<Vec<u8>>)
    ensures
        match (
            dsl_parallel_recovery::bytes_result(state),
            dsl_parallel_recovery::bytes_result(winner_state),
        ) {
            _ if winner > u32::MAX => result matches Err(failure) && failure@ == error::validation(
                "when_any winner index exceeds u32"@,
            ),
            (Err(rejected), _) => result matches Err(failure) && failure@ == rejected,
            (_, Err(rejected)) => result matches Err(failure) && failure@ == rejected,
            (Ok(state), Ok(winner_state)) => {
                let frame = dsl_checkpoint::FrameView {
                    levels: levels@,
                    state,
                    work: dsl_checkpoint::WorkView::WhenAny {
                        winner: winner as u32,
                        state: winner_state,
                    },
                };
                match (result, dsl_checkpoint::encode_failure(frame)) {
                    (Ok(payload), None) => payload@ == dsl_checkpoint::frame_layout(frame),
                    (Err(failure), Some(message)) => failure@ == error::validation(message),
                    _ => false,
                }
            },
        },
{
    if winner > 4294967295 {
        return Err(
            CatgaError::new(ErrorCode::Validation, "when_any winner index exceeds u32"),
        );
    }
    match state {
        Err(failure) => Err(failure),
        Ok(state) => match winner_state {
            Err(failure) => Err(failure),
            Ok(winner_state) => {
                assert(winner_state.deep_view() =~= winner_state@);
                CheckpointFrame::encode(
                    levels,
                    state,
                    CheckpointWork::WhenAny { winner: winner as u32, state: winner_state },
                )
            },
        },
    }
}

/// The whole race, given the branches in the order in which they finish.
pub open spec fn whole_race(
    step: WhenAnyStepView,
    finished: Seq<(usize, Result<(), error::ErrorView>)>,
) -> WhenAnyStepView
    decreases finished.len(),
{
    match step {
        WhenAnyStepView::Await(race) => if finished.len() == 0 {
            step
        } else {
            whole_race(
                race.after_branch(finished[0].0, finished[0].1),
                finished.drop_first(),
            )
        },
        other => other,
    }
}

proof fn lemma_race(race: RaceView, finished: Seq<(usize, Result<(), error::ErrorView>)>, won: int)
    requires
        0 <= won <= finished.len(),
        finished.len() <= race.pending,
        forall|i: int| 0 <= i < won ==> (#[trigger] finished[i]).1 is Err,
        won < finished.len() ==> finished[won].1 is Ok,
    ensures
        won < finished.len() ==> whole_race(WhenAnyStepView::Await(race), finished) == (
        WhenAnyStepView::Winner { index: finished[won].0 }),
        won == finished.len() && finished.len() == race.pending && race.pending > 0 ==> whole_race(
            WhenAnyStepView::Await(race),
            finished,
        ) == WhenAnyStepView::Finish(
            Err(
                match race.first_error {
                    Some(first) => first,
                    None => finished[0].1->Err_0,
                },
            ),
        ),
    decreases finished.len(),
{
    if finished.len() > 0 {
        let rest = finished.drop_first();
        let after = race.after_branch(finished[0].0, finished[0].1);
        if won == 0 {
            assert(whole_race(after, rest) == after);
        } else {
            let next = race.after_failure(finished[0].1->Err_0);
            assert forall|i: int| 0 <= i < won - 1 implies (#[trigger] rest[i]).1 is Err by {
                assert(finished[i + 1].1 is Err);
            }
            if won < finished.len() {
                assert(rest[won - 1] == finished[won]);
            }
            if next.pending > 0 {
                lemma_race(next, rest, won - 1);
            } else {
                assert(whole_race(after, rest) == after);
            }
        }
    }
}

/// The branch that succeeds first wins, whatever failed before it; where all fail, the failure
/// that came first is returned.
pub proof fn lemma_first_success_wins(
    count: nat,
    finished: Seq<(usize, Result<(), error::ErrorView>)>,
    won: int,
)
    requires
        0 < count <= MAX_DSL_PARALLEL_BRANCHES,
        finished.len() <= count,
        0 <= won <= finished.len(),
        forall|i: int| 0 <= i < won ==> (#[trigger] finished[i]).1 is Err,
        won < finished.len() ==> finished[won].1 is Ok,
    ensures
        won < finished.len() ==> whole_race(race_start(count, None), finished) == (
        WhenAnyStepView::Winner { index: finished[won].0 }),
        won == count ==> whole_race(race_start(count, None), finished) == WhenAnyStepView::Finish(
            Err(finished[0].1->Err_0),
        ),
{
    lemma_race(RaceView { pending: count as int, first_error: None }, finished, won);
}

} // verus!
