//! Launching the children of a durable wait, one at a time, under durable claims.
//!
//! Each method of [`FlowRuntime`] here takes what an effect returned and answers with the next
//! [`LaunchStep`]. At most one launch is under way, and each goes through a claim that expires.

use vstd::prelude::*;

use crate::continuation;
use crate::continuation::FlowContinuation;
use crate::error;
use crate::error::{CatgaError, CatgaResult, ErrorCode};
use crate::runtime;
use crate::runtime::FlowRuntime;
use crate::state;
use crate::suspension;
use crate::suspension::WaitCondition;
use crate::time::Timestamp;

verus! {

/// How often a lost claim is repeated.
pub const MAX_CHILD_LAUNCH_CAS_RETRIES: usize = 8;

/// The next effect of a launch.
#[derive(Debug)]
pub enum LaunchStep {
    /// Load the parent, then call [`FlowRuntime::claim_next_wait_child`].
    LoadForClaim { launched: usize, attempt: usize },
    /// Replace `expected` by `next` in the store, then call [`FlowRuntime::child_claim_stored`].
    StoreClaim {
        expected: FlowContinuation,
        next: FlowContinuation,
        child_id: String,
        correlation_id: String,
        launched: usize,
        attempt: usize,
    },
    /// Launch the child, then call [`FlowRuntime::child_launched`].
    Launch { child_id: String, correlation_id: String, launched: usize },
    /// Load the parent, then call [`FlowRuntime::finish_wait_child_claim`].
    LoadToFinish {
        child_id: String,
        failure: Option<CatgaError>,
        launched: usize,
        attempt: usize,
    },
    /// Replace `expected` by `next` in the store, then call
    /// [`FlowRuntime::child_finish_stored`].
    StoreFinish {
        expected: FlowContinuation,
        next: FlowContinuation,
        child_id: String,
        failure: Option<CatgaError>,
        launched: usize,
        attempt: usize,
    },
    /// No child is left to launch, or one could not be launched.
    Finish(CatgaResult<usize>),
}

/// Mathematical model of a [`LaunchStep`].
pub enum LaunchStepView {
    LoadForClaim { launched: usize, attempt: usize },
    StoreClaim {
        expected: continuation::ContinuationView,
        next: continuation::ContinuationView,
        child_id: Seq<char>,
        correlation_id: Seq<char>,
        launched: usize,
        attempt: usize,
    },
    Launch { child_id: Seq<char>, correlation_id: Seq<char>, launched: usize },
    LoadToFinish {
        child_id: Seq<char>,
        failure: Option<error::ErrorView>,
        launched: usize,
        attempt: usize,
    },
    StoreFinish {
        expected: continuation::ContinuationView,
        next: continuation::ContinuationView,
        child_id: Seq<char>,
        failure: Option<error::ErrorView>,
        launched: usize,
        attempt: usize,
    },
    Finish(Result<usize, error::ErrorView>),
}

/// The model of a launch result.
pub open spec fn launch_result(result: CatgaResult<usize>) -> Result<usize, error::ErrorView> {
    match result {
        Ok(launched) => Ok(launched),
        Err(failure) => Err(failure@),
    }
}

impl View for LaunchStep {
    type V = LaunchStepView;

    open spec fn view(&self) -> LaunchStepView {
        match *self {
            LaunchStep::LoadForClaim { launched, attempt } => LaunchStepView::LoadForClaim {
                launched,
                attempt,
            },
            LaunchStep::StoreClaim {
                expected,
                next,
                child_id,
                correlation_id,
                launched,
                attempt,
            } => LaunchStepView::StoreClaim {
                expected: expected@,
                next: next@,
                child_id: child_id@,
                correlation_id: correlation_id@,
                launched,
                attempt,
            },
            LaunchStep::Launch { child_id, correlation_id, launched } => LaunchStepView::Launch {
                child_id: child_id@,
                correlation_id: correlation_id@,
                launched,
            },
            LaunchStep::LoadToFinish { child_id, failure, launched, attempt } =>
                LaunchStepView::LoadToFinish {
                child_id: child_id@,
                failure: state::error_option(failure),
                launched,
                attempt,
            },
            LaunchStep::StoreFinish { expected, next, child_id, failure, launched, attempt } =>
                LaunchStepView::StoreFinish {
                expected: expected@,
                next: next@,
                child_id: child_id@,
                failure: state::error_option(failure),
                launched,
                attempt,
            },
            LaunchStep::Finish(result) => LaunchStepView::Finish(launch_result(result)),
        }
    }
}

/// One launch more, as far as it can be counted.
pub open spec fn one_more(launched: usize) -> usize {
    if launched < usize::MAX {
        (launched + 1) as usize
    } else {
        launched
    }
}

/// The continuation that stores a changed wait at the following version.
pub open spec fn with_changed_wait(
    value: continuation::ContinuationView,
    wait: suspension::WaitView,
    now: int,
) -> continuation::ContinuationView {
    value.with_wait(wait, now).with_state(value.state.suspended().advanced(), now)
}

/// How a launch ends: a launched child is followed by the next one, a failed launch is reported.
pub open spec fn launch_ended(failure: Option<error::ErrorView>, launched: usize) -> LaunchStepView {
    match failure {
        Some(failure) => LaunchStepView::Finish(Err(failure)),
        None => LaunchStepView::LoadForClaim { launched: one_more(launched), attempt: 0 },
    }
}

/// How a launch ends when its claim could not be ended: only a failed launch matters more.
pub open spec fn launch_unended(
    failure: Option<error::ErrorView>,
    reason: error::ErrorView,
) -> LaunchStepView {
    match failure {
        Some(failure) => LaunchStepView::Finish(Err(failure)),
        None => LaunchStepView::Finish(Err(reason)),
    }
}

/// The claim of the next child of a loaded parent.
pub open spec fn claim_child_step(
    runtime: runtime::RuntimeView,
    loaded: Result<Option<continuation::ContinuationView>, error::ErrorView>,
    launched: usize,
    attempt: usize,
    now: int,
) -> LaunchStepView {
    let claim_for = if runtime.stale_after == 0 {
        1
    } else {
        runtime.stale_after
    };
    match loaded {
        Err(failure) => LaunchStepView::Finish(Err(failure)),
        Ok(None) => LaunchStepView::Finish(Err(runtime::missing_flow())),
        Ok(Some(value)) => match runtime.definition_failure(value) {
            Some(failure) => LaunchStepView::Finish(Err(failure)),
            None => if value.state.status.spec_is_terminal() {
                LaunchStepView::Finish(Ok(launched))
            } else {
                match value.wait {
                    None => LaunchStepView::Finish(Ok(launched)),
                    Some(wait) => match wait.claim_next_child(runtime.owner, now, claim_for) {
                        None => LaunchStepView::Finish(Ok(launched)),
                        Some((child_id, claimed)) => if value.state.can_advance() {
                            LaunchStepView::StoreClaim {
                                expected: value,
                                next: with_changed_wait(value, claimed, now),
                                child_id,
                                correlation_id: wait.correlation_id,
                                launched,
                                attempt,
                            }
                        } else {
                            LaunchStepView::Finish(Err(state::version_exhausted()))
                        },
                    },
                }
            },
        },
    }
}

/// How a launch goes on after its claim was stored, or lost against another writer.
pub open spec fn claim_stored_step(
    child_id: Seq<char>,
    correlation_id: Seq<char>,
    launched: usize,
    attempt: usize,
    result: Result<bool, error::ErrorView>,
) -> LaunchStepView {
    match result {
        Err(failure) => LaunchStepView::Finish(Err(failure)),
        Ok(true) => LaunchStepView::Launch { child_id, correlation_id, launched },
        Ok(false) => if attempt + 1 < MAX_CHILD_LAUNCH_CAS_RETRIES {
            LaunchStepView::LoadForClaim { launched, attempt: (attempt + 1) as usize }
        } else {
            LaunchStepView::Finish(
                Err(
                    error::plain_error(
                        ErrorCode::Transient,
                        "flow child launch claim did not stabilize"@,
                    ),
                ),
            )
        },
    }
}

/// The end of the claim on a child of a loaded parent.
pub open spec fn finish_child_step(
    runtime: runtime::RuntimeView,
    loaded: Result<Option<continuation::ContinuationView>, error::ErrorView>,
    child_id: Seq<char>,
    failure: Option<error::ErrorView>,
    launched: usize,
    attempt: usize,
    now: int,
) -> LaunchStepView {
    let ended = if failure is None {
        suspension::LaunchView::Launched
    } else {
        suspension::LaunchView::Pending
    };
    match loaded {
        Err(reason) => launch_unended(failure, reason),
        Ok(None) => launch_unended(failure, runtime::missing_flow()),
        Ok(Some(value)) => match runtime.definition_failure(value) {
            Some(reason) => launch_unended(failure, reason),
            None => if value.state.status.spec_is_terminal() {
                launch_ended(failure, launched)
            } else {
                match value.wait {
                    None => launch_ended(failure, launched),
                    Some(wait) => match wait.end_claim(child_id, runtime.owner, ended) {
                        None => launch_ended(failure, launched),
                        Some(changed) => if value.state.can_advance() {
                            LaunchStepView::StoreFinish {
                                expected: value,
                                next: with_changed_wait(value, changed, now),
                                child_id,
                                failure,
                                launched,
                                attempt,
                            }
                        } else {
                            launch_unended(failure, state::version_exhausted())
                        },
                    },
                }
            },
        },
    }
}

/// How a launch goes on after the end of its claim was stored, or lost against another writer.
pub open spec fn finish_stored_step(
    child_id: Seq<char>,
    failure: Option<error::ErrorView>,
    launched: usize,
    attempt: usize,
    result: Result<bool, error::ErrorView>,
) -> LaunchStepView {
    match result {
        Err(reason) => launch_unended(failure, reason),
        Ok(true) => launch_ended(failure, launched),
        Ok(false) => if attempt + 1 < MAX_CHILD_LAUNCH_CAS_RETRIES {
            LaunchStepView::LoadToFinish {
                child_id,
                failure,
                launched,
                attempt: (attempt + 1) as usize,
            }
        } else {
            launch_unended(
                failure,
                error::plain_error(
                    ErrorCode::Transient,
                    "flow child launch completion did not stabilize"@,
                ),
            )
        },
    }
}

fn ended(failure: Option<CatgaError>, launched: usize) -> (result: LaunchStep)
    ensures
        result@ == launch_ended(state::error_option(failure), launched),
{
    match failure {
        Some(failure) => LaunchStep::Finish(Err(failure)),
        None => {
            let launched: usize = if launched < usize::MAX {
                launched + 1
            } else {
                launched
            };
            LaunchStep::LoadForClaim { launched, attempt: 0 }
        },
    }
}

fn unended(failure: Option<CatgaError>, reason: CatgaError) -> (result: LaunchStep)
    ensures
        result@ == launch_unended(state::error_option(failure), reason@),
{
    match failure {
        Some(failure) => LaunchStep::Finish(Err(failure)),
        None => LaunchStep::Finish(Err(reason)),
    }
}

fn store_wait(value: &FlowContinuation, wait: WaitCondition, now: Timestamp) -> (result: CatgaResult<
    FlowContinuation,
>)
    ensures
        match result {
            Ok(next) => value@.state.can_advance() && next@ == with_changed_wait(
                value@,
                wait@,
                now@,
            ),
            Err(failure) => !value@.state.can_advance() && failure@ == state::version_exhausted(),
        },
{
    match value.state().clone().suspended().next_version() {
        Ok(next_state) => Ok(value.clone().with_wait(wait, now).with_state(next_state, now)),
        Err(failure) => Err(failure),
    }
}

impl FlowRuntime {
    /// Starts to launch every currently unlaunched stable child of a flow.
    pub fn launch_waiting_children(&self) -> (result: LaunchStep)
        ensures
            result@ == (LaunchStepView::LoadForClaim { launched: 0, attempt: 0 }),
    {
        LaunchStep::LoadForClaim { launched: 0, attempt: 0 }
    }

    /// Claims the next child of a loaded parent.
    pub fn claim_next_wait_child(
        &self,
        loaded: CatgaResult<Option<FlowContinuation>>,
        launched: usize,
        attempt: usize,
        now: Timestamp,
    ) -> (result: LaunchStep)
        ensures
            result@ == claim_child_step(
                self@,
                runtime::load_view(loaded),
                launched,
                attempt,
                now@,
            ),
    {
        let value: FlowContinuation = match loaded {
            Err(failure) => {
                return LaunchStep::Finish(Err(failure));
            },
            Ok(None) => {
                return LaunchStep::Finish(
                    Err(CatgaError::new(ErrorCode::NotFound, "flow does not exist")),
                );
            },
            Ok(Some(value)) => value,
        };
        match self.ensure_definition(&value) {
            Ok(_) => {},
            Err(failure) => {
                return LaunchStep::Finish(Err(failure));
            },
        }
        if value.state().status().is_terminal() {
            return LaunchStep::Finish(Ok(launched));
        }
        let (child_id, correlation_id, claimed): (String, String, WaitCondition) =
            match value.wait() {
            None => {
                return LaunchStep::Finish(Ok(launched));
            },
            Some(wait) => match wait.claim_next_child(self.owner(), now, self.claim_duration()) {
                None => {
                    return LaunchStep::Finish(Ok(launched));
                },
                Some((child_id, claimed)) => (
                    child_id,
                    wait.correlation_id().to_owned(),
                    claimed,
                ),
            },
        };
        match store_wait(&value, claimed, now) {
            Ok(next) => LaunchStep::StoreClaim {
                expected: value,
                next,
                child_id,
                correlation_id,
                launched,
                attempt,
            },
            Err(failure) => LaunchStep::Finish(Err(failure)),
        }
    }

    /// Goes on after a child claim was stored, or lost against another writer.
    pub fn child_claim_stored(
        &self,
        child_id: String,
        correlation_id: String,
        launched: usize,
        attempt: usize,
        result: CatgaResult<bool>,
    ) -> (step: LaunchStep)
        ensures
            step@ == claim_stored_step(
                child_id@,
                correlation_id@,
                launched,
                attempt,
                error::flag_result(result),
            ),
    {
        match result {
            Err(failure) => LaunchStep::Finish(Err(failure)),
            Ok(stored) => if stored {
                LaunchStep::Launch { child_id, correlation_id, launched }
            } else if attempt < MAX_CHILD_LAUNCH_CAS_RETRIES - 1 {
                LaunchStep::LoadForClaim { launched, attempt: attempt + 1 }
            } else {
                LaunchStep::Finish(
                    Err(
                        CatgaError::new(
                            ErrorCode::Transient,
                            "flow child launch claim did not stabilize",
                        ),
                    ),
                )
            },
        }
    }

    /// Goes on after the launcher accepted or rejected a child.
    pub fn child_launched(&self, child_id: String, launched: usize, result: CatgaResult<()>) -> (step:
        LaunchStep)
        ensures
            step@ == (LaunchStepView::LoadToFinish {
                child_id: child_id@,
                failure: match error::unit_result(result) {
                    Ok(_) => None,
                    Err(failure) => Some(failure),
                },
                launched,
                attempt: 0,
            }),
    {
        let failure: Option<CatgaError> = match result {
            Ok(_) => None,
            Err(failure) => Some(failure),
        };
        LaunchStep::LoadToFinish { child_id, failure, launched, attempt: 0 }
    }

    /// Ends the claim on a child of a loaded parent: it is launched, or free again.
    pub fn finish_wait_child_claim(
        &self,
        loaded: CatgaResult<Option<FlowContinuation>>,
        child_id: String,
        failure: Option<CatgaError>,
        launched: usize,
        attempt: usize,
        now: Timestamp,
    ) -> (result: LaunchStep)
        ensures
            result@ == finish_child_step(
                self@,
                runtime::load_view(loaded),
                child_id@,
                state::error_option(failure),
                launched,
                attempt,
                now@,
            ),
    {
        let value: FlowContinuation = match loaded {
            Err(reason) => {
                return unended(failure, reason);
            },
            Ok(None) => {
                return unended(
                    failure,
                    CatgaError::new(ErrorCode::NotFound, "flow does not exist"),
                );
            },
            Ok(Some(value)) => value,
        };
        match self.ensure_definition(&value) {
            Ok(_) => {},
            Err(reason) => {
                return unended(failure, reason);
            },
        }
        if value.state().status().is_terminal() {
            return ended(failure, launched);
        }
        let changed: Option<WaitCondition> = match value.wait() {
            None => None,
            Some(wait) => if failure.is_none() {
                wait.mark_child_launched(child_id.as_str(), self.owner())
            } else {
                wait.release_child_claim(child_id.as_str(), self.owner())
            },
        };
        match changed {
            None => ended(failure, launched),
            Some(changed) => match store_wait(&value, changed, now) {
                Ok(next) => LaunchStep::StoreFinish {
                    expected: value,
                    next,
                    child_id,
                    failure,
                    launched,
                    attempt,
                },
                Err(reason) => unended(failure, reason),
            },
        }
    }

    /// Goes on after the end of a claim was stored, or lost against another writer.
    pub fn child_finish_stored(
        &self,
        child_id: String,
        failure: Option<CatgaError>,
        launched: usize,
        attempt: usize,
        result: CatgaResult<bool>,
    ) -> (step: LaunchStep)
        ensures
            step@ == finish_stored_step(
                child_id@,
                state::error_option(failure),
                launched,
                attempt,
                error::flag_result(result),
            ),
    {
        match result {
            Err(reason) => unended(failure, reason),
            Ok(stored) => if stored {
                ended(failure, launched)
            } else if attempt < MAX_CHILD_LAUNCH_CAS_RETRIES - 1 {
                LaunchStep::LoadToFinish { child_id, failure, launched, attempt: attempt + 1 }
            } else {
                unended(
                    failure,
                    CatgaError::new(
                        ErrorCode::Transient,
                        "flow child launch completion did not stabilize",
                    ),
                )
            },
        }
    }
}

/// Every stored claim, and every stored end of one, keeps the parent's wait valid, belongs to the
/// same flow and advances its version by one.
pub proof fn lemma_launch_writes_are_fenced(
    runtime: runtime::RuntimeView,
    value: continuation::ContinuationView,
    child_id: Seq<char>,
    failure: Option<error::ErrorView>,
    launched: usize,
    attempt: usize,
    now: int,
)
    ensures
        ({
            let loaded = Ok::<Option<continuation::ContinuationView>, error::ErrorView>(
                Some(value),
            );
            &&& claim_child_step(runtime, loaded, launched, attempt, now) matches
                LaunchStepView::StoreClaim { expected, next, .. } ==> next.state.version
                == expected.state.version + 1 && runtime::same_flow(value, next) && next.valid()
        }),
        ({
            let loaded = Ok::<Option<continuation::ContinuationView>, error::ErrorView>(
                Some(value),
            );
            finish_child_step(runtime, loaded, child_id, failure, launched, attempt, now) matches
                LaunchStepView::StoreFinish { expected, next, .. } ==> next.state.version
                == expected.state.version + 1 && runtime::same_flow(value, next) && next.valid()
        }),
{
    if let Some(wait) = value.wait {
        if wait.valid() {
            let claimable = suspension::WaitView::claimable(now);
            let held = suspension::WaitView::claimed_by(child_id, runtime.owner);
            let first = crate::search::first_where(wait.child_launches, claimable);
            let mine = crate::search::first_where(wait.child_launches, held);
            crate::search::lemma_first(wait.child_launches, claimable, first);
            crate::search::lemma_first(wait.child_launches, held, mine);
            let claim_for: int = if runtime.stale_after == 0 {
                1
            } else {
                runtime.stale_after
            };
            if let Some(place) = first {
                suspension::lemma_launch_keeps_valid(
                    wait,
                    place,
                    suspension::LaunchView::Claimed {
                        owner: runtime.owner,
                        expires_at: now + claim_for,
                    },
                );
            }
            if let Some(place) = mine {
                suspension::lemma_launch_keeps_valid(
                    wait,
                    place,
                    suspension::LaunchView::Launched,
                );
                suspension::lemma_launch_keeps_valid(
                    wait,
                    place,
                    suspension::LaunchView::Pending,
                );
            }
        }
    }
}

} // verus!
