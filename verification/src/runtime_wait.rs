//! Wait evaluation and ownership staleness.

use vstd::prelude::*;

use crate::error;
use crate::error::{CatgaError, ErrorCode};
use crate::search;
use crate::suspension;
use crate::suspension::{WaitCondition, WaitPolicy, WaitResult};
use crate::time::{Duration, Timestamp};

verus! {

/// Whether a wait still holds a flow back.
#[derive(Debug)]
pub enum WaitEvaluation {
    /// More child results are needed.
    Pending,
    /// The flow may go on.
    Ready,
    /// The wait can no longer succeed.
    Failed(CatgaError),
}

/// Mathematical model of a [`WaitEvaluation`].
pub enum EvaluationView {
    Pending,
    Ready,
    Failed(error::ErrorView),
}

impl View for WaitEvaluation {
    type V = EvaluationView;

    open spec fn view(&self) -> EvaluationView {
        match *self {
            WaitEvaluation::Pending => EvaluationView::Pending,
            WaitEvaluation::Ready => EvaluationView::Ready,
            WaitEvaluation::Failed(failure) => EvaluationView::Failed(failure@),
        }
    }
}

pub open spec fn failed_result() -> spec_fn(suspension::ResultView) -> bool {
    |result: suspension::ResultView| result.error is Some
}

pub open spec fn successful_result() -> spec_fn(suspension::ResultView) -> bool {
    |result: suspension::ResultView| result.error is None
}

/// Whether every expected child has reported.
pub open spec fn all_reported(wait: suspension::WaitView) -> bool {
    wait.results.len() >= wait.expected_count
}

/// What a wait means at an instant: a deadline that has passed fails it; a wait for all fails
/// with the first failed child; a wait for any is ready with the first success and fails with
/// the last failure.
pub open spec fn wait_outcome(wait: suspension::WaitView, now: int) -> EvaluationView {
    if wait.is_expired_at(now) {
        EvaluationView::Failed(
            error::plain_error(ErrorCode::Timeout, "flow wait condition timed out"@),
        )
    } else {
        match wait.policy {
            WaitPolicy::All => match search::first_where(wait.results, failed_result()) {
                Some(place) => EvaluationView::Failed(wait.results[place].error->0),
                None => if all_reported(wait) {
                    EvaluationView::Ready
                } else {
                    EvaluationView::Pending
                },
            },
            WaitPolicy::Any => if search::first_where(
                wait.results,
                successful_result(),
            ) is Some {
                EvaluationView::Ready
            } else if all_reported(wait) {
                if wait.results.len() > 0 {
                    EvaluationView::Failed(wait.results.last().error->0)
                } else {
                    EvaluationView::Failed(
                        error::plain_error(
                            ErrorCode::Transient,
                            "all flow wait children failed"@,
                        ),
                    )
                }
            } else {
                EvaluationView::Pending
            },
        }
    }
}

/// Whether an owner that last reported at `heartbeat` has lost its claim.
pub open spec fn stale(heartbeat: int, now: int, stale_after: int) -> bool {
    now >= heartbeat && now - heartbeat >= stale_after
}

fn first_failure(results: &Vec<WaitResult>) -> (found: Option<CatgaError>)
    ensures
        match (found, search::first_where(results.deep_view(), failed_result())) {
            (Some(failure), Some(place)) => results.deep_view()[place].error == Some(failure@),
            (None, None) => true,
            _ => false,
        },
{
    let ghost models = results.deep_view();
    let mut index: usize = 0;
    while index < results.len()
        invariant
            index <= results@.len(),
            models == results.deep_view(),
            forall|i: int| 0 <= i < index ==> !failed_result()(#[trigger] models[i]),
        decreases results@.len() - index,
    {
        match results[index].error() {
            Some(failure) => {
                proof {
                    assert(failed_result()(models[index as int]));
                    search::lemma_first(models, failed_result(), Some(index as int));
                }
                return Some(failure.clone());
            },
            None => {
                assert(!failed_result()(models[index as int]));
            },
        }
        index = index + 1;
    }
    proof {
        search::lemma_first(models, failed_result(), None);
    }
    None
}

fn any_success(results: &Vec<WaitResult>) -> (found: bool)
    ensures
        found == (search::first_where(results.deep_view(), successful_result()) is Some),
        !found ==> forall|i: int|
            0 <= i < results@.len() ==> (#[trigger] results.deep_view()[i]).error is Some,
{
    let ghost models = results.deep_view();
    let mut index: usize = 0;
    while index < results.len()
        invariant
            index <= results@.len(),
            models == results.deep_view(),
            forall|i: int| 0 <= i < index ==> !successful_result()(#[trigger] models[i]),
        decreases results@.len() - index,
    {
        if results[index].is_success() {
            proof {
                assert(successful_result()(models[index as int]));
                search::lemma_first(models, successful_result(), Some(index as int));
            }
            return true;
        }
        assert(!successful_result()(models[index as int]));
        index = index + 1;
    }
    proof {
        search::lemma_first(models, successful_result(), None);
        assert forall|i: int| 0 <= i < results@.len() implies (
        #[trigger] results.deep_view()[i]).error is Some by {
            assert(!successful_result()(models[i]));
        }
    }
    false
}

/// Decides whether a wait holds a flow back at `now`.
pub fn evaluate_wait(wait: &WaitCondition, now: Timestamp) -> (result: WaitEvaluation)
    ensures
        result@ == wait_outcome(wait@, now@),
        result is Ready ==> match wait@.policy {
            WaitPolicy::All => {
                &&& wait@.results.len() >= wait@.expected_count
                &&& forall|i: int|
                    0 <= i < wait@.results.len() ==> (#[trigger] wait@.results[i]).error is None
            },
            WaitPolicy::Any => exists|i: int|
                0 <= i < wait@.results.len() && (#[trigger] wait@.results[i]).error is None,
        },
{
    proof {
        if !wait@.is_expired_at(now@) {
            match wait@.policy {
                WaitPolicy::All => lemma_all_children_must_succeed(wait@, now@),
                WaitPolicy::Any => lemma_any_child_may_succeed(wait@, now@),
            }
        }
    }
    if wait.is_expired_at(now) {
        return WaitEvaluation::Failed(
            CatgaError::new(ErrorCode::Timeout, "flow wait condition timed out"),
        );
    }
    let complete: bool = wait.completed_count() >= wait.expected_count();
    match wait.policy() {
        WaitPolicy::All => match first_failure(wait.results()) {
            Some(failure) => WaitEvaluation::Failed(failure),
            None => if complete {
                WaitEvaluation::Ready
            } else {
                WaitEvaluation::Pending
            },
        },
        WaitPolicy::Any => {
            let results: &Vec<WaitResult> = wait.results();
            if any_success(results) {
                return WaitEvaluation::Ready;
            }
            if !complete {
                return WaitEvaluation::Pending;
            }
            if results.len() > 0 {
                match results[results.len() - 1].error() {
                    Some(failure) => WaitEvaluation::Failed(failure.clone()),
                    None => WaitEvaluation::Pending,
                }
            } else {
                WaitEvaluation::Failed(
                    CatgaError::new(ErrorCode::Transient, "all flow wait children failed"),
                )
            }
        },
    }
}

/// Returns whether an owner has been silent for at least `stale_after`.
pub fn is_stale(heartbeat: Timestamp, now: Timestamp, stale_after: Duration) -> (result: bool)
    ensures
        result == stale(heartbeat@, now@, stale_after@),
{
    match now.duration_since(heartbeat) {
        Ok(elapsed) => elapsed.at_least(stale_after),
        Err(_) => false,
    }
}

/// A wait whose children have all succeeded in time is ready under either policy.
pub proof fn lemma_all_successes_are_ready(wait: suspension::WaitView, now: int)
    requires
        !wait.is_expired_at(now),
        wait.expected_count > 0,
        all_reported(wait),
        forall|i: int| 0 <= i < wait.results.len() ==> (#[trigger] wait.results[i]).is_success(),
    ensures
        wait_outcome(wait, now) == EvaluationView::Ready,
{
    assert forall|i: int| 0 <= i < wait.results.len() implies !#[trigger] failed_result()(
        wait.results[i],
    ) by {
        assert(wait.results[i].is_success());
    }
    search::lemma_first(wait.results, failed_result(), None);
    assert(wait.results[0].is_success());
    assert(successful_result()(wait.results[0]));
    search::lemma_first(wait.results, successful_result(), Some(0));
}

/// A deadline that has passed fails a wait whatever its children reported.
pub proof fn lemma_expired_wait_fails(wait: suspension::WaitView, now: int, later: int)
    requires
        wait.is_expired_at(now),
        now <= later,
    ensures
        wait_outcome(wait, later) == EvaluationView::Failed(
            error::plain_error(ErrorCode::Timeout, "flow wait condition timed out"@),
        ),
{
}

/// A wait for all children that has not expired is ready exactly where as many children as expected
/// have reported and none of them failed. As soon as one failed, the wait fails with the failure
/// that was recorded first, however many have reported.
pub proof fn lemma_all_children_must_succeed(wait: suspension::WaitView, now: int)
    requires
        wait.policy == WaitPolicy::All,
        now < wait.created_at + wait.timeout || now < wait.created_at,
    ensures
        wait_outcome(wait, now) is Ready <==> {
            &&& wait.results.len() >= wait.expected_count
            &&& forall|i: int| 0 <= i < wait.results.len() ==> (#[trigger] wait.results[i]).error is None
        },
        wait_outcome(wait, now) is Pending <==> {
            &&& wait.results.len() < wait.expected_count
            &&& forall|i: int| 0 <= i < wait.results.len() ==> (#[trigger] wait.results[i]).error is None
        },
        forall|first: int|
            {
                &&& 0 <= first < wait.results.len()
                &&& (#[trigger] wait.results[first]).error is Some
                &&& forall|i: int|
                    0 <= i < first ==> (#[trigger] wait.results[i]).error is None
            } ==> wait_outcome(wait, now) == EvaluationView::Failed(wait.results[first].error->0),
{
    let failed = failed_result();
    let found = search::first_where(wait.results, failed);
    search::lemma_first(wait.results, failed, found);
    assert forall|i: int| 0 <= i < wait.results.len() implies failed(wait.results[i]) == (
    #[trigger] wait.results[i]).error is Some by {}
    assert forall|first: int|
        {
            &&& 0 <= first < wait.results.len()
            &&& (#[trigger] wait.results[first]).error is Some
            &&& forall|i: int| 0 <= i < first ==> (#[trigger] wait.results[i]).error is None
        } implies wait_outcome(wait, now) == EvaluationView::Failed(
        wait.results[first].error->0,
    ) by {
        assert forall|i: int| 0 <= i < first implies !#[trigger] failed(wait.results[i]) by {
            assert(wait.results[i].error is None);
        }
        search::lemma_first(wait.results, failed, Some(first));
    }
    if let Some(place) = found {
        assert(wait.results[place].error is Some);
    }
}

/// A wait for any child that has not expired is ready exactly where some child succeeded. It fails
/// only once as many children as expected have reported and all of them failed: with the failure
/// that was recorded last, or, where no child was expected, with a failure of its own.
pub proof fn lemma_any_child_may_succeed(wait: suspension::WaitView, now: int)
    requires
        wait.policy == WaitPolicy::Any,
        now < wait.created_at + wait.timeout || now < wait.created_at,
    ensures
        wait_outcome(wait, now) is Ready <==> exists|i: int|
            0 <= i < wait.results.len() && (#[trigger] wait.results[i]).error is None,
        wait_outcome(wait, now) is Pending <==> {
            &&& wait.results.len() < wait.expected_count
            &&& forall|i: int| 0 <= i < wait.results.len() ==> (#[trigger] wait.results[i]).error is Some
        },
        wait_outcome(wait, now) matches EvaluationView::Failed(failure) ==> {
            &&& wait.results.len() >= wait.expected_count
            &&& if wait.results.len() > 0 {
                wait.results[wait.results.len() - 1].error == Some(failure)
            } else {
                failure.code == ErrorCode::Transient && failure.message
                    == "all flow wait children failed"@
            }
        },
{
    let succeeded = successful_result();
    let found = search::first_where(wait.results, succeeded);
    search::lemma_first(wait.results, succeeded, found);
    assert forall|i: int| 0 <= i < wait.results.len() implies succeeded(wait.results[i]) == (
    #[trigger] wait.results[i]).error is None by {}
    if let Some(place) = found {
        assert(wait.results[place].error is None);
    }
}

/// A wait fails with a timeout from its deadline on, under either policy and whatever was reported;
/// before its deadline the instant makes no difference.
pub proof fn lemma_waits_expire_at_their_deadline(wait: suspension::WaitView, now: int, other: int)
    requires
        wait.timeout >= 0,
    ensures
        now >= wait.created_at + wait.timeout ==> {
            &&& wait_outcome(wait, now) is Failed
            &&& wait_outcome(wait, now)->Failed_0.code == ErrorCode::Timeout
            &&& wait_outcome(wait, now)->Failed_0.message == "flow wait condition timed out"@
        },
        now < wait.created_at + wait.timeout && other < wait.created_at + wait.timeout
            ==> wait_outcome(wait, now) == wait_outcome(wait, other),
{
}

/// An owner has lost its claim exactly from the instant on that lies `stale_after` behind its last
/// report; a clock that was set back takes no claim away.
pub proof fn lemma_claims_are_lost_by_silence_alone(heartbeat: int, now: int, stale_after: int)
    requires
        stale_after >= 0,
    ensures
        stale(heartbeat, now, stale_after) <==> now >= heartbeat + stale_after,
{
}

} // verus!
