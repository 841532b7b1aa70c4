//! What ends an attempt of a step while its claim is renewed.

use vstd::prelude::*;

use crate::continuation;
use crate::continuation::FlowContinuation;
use crate::error;
use crate::error::{CatgaError, CatgaResult, ErrorCode};
use crate::runtime;
use crate::runtime::FlowRuntime;

verus! {

/// What happened while a handler ran.
#[derive(Debug)]
pub enum AttemptEvent<T> {
    /// The handler returned.
    Finished(CatgaResult<T>),
    /// The time for the attempt is up.
    TimedOut,
    /// The claim was renewed, or could not be.
    Heartbeat(CatgaResult<bool>),
}

/// How an attempt goes on.
#[derive(Debug)]
pub enum AttemptStep<T> {
    /// Wait for the next event.
    Continue,
    /// The attempt ends with this result.
    End(CatgaResult<T>),
}

/// The failure that ends an attempt for a reason of its own, where there is one.
pub open spec fn attempt_failure<T>(event: AttemptEvent<T>, lost: Seq<char>) -> Option<
    error::ErrorView,
> {
    match event {
        AttemptEvent::Finished(_) => None,
        AttemptEvent::TimedOut => Some(
            error::plain_error(ErrorCode::Timeout, "tagged flow step timed out"@),
        ),
        AttemptEvent::Heartbeat(Ok(true)) => None,
        AttemptEvent::Heartbeat(Ok(false)) => Some(
            error::plain_error(ErrorCode::Conflict, lost),
        ),
        AttemptEvent::Heartbeat(Err(failure)) => Some(failure@),
    }
}

/// Whether an event of an attempt was answered as it must be: a result of the handler is returned
/// as it is, a renewed claim lets it run on, and anything else ends it with its failure.
pub open spec fn answers<T>(event: AttemptEvent<T>, lost: Seq<char>, step: AttemptStep<T>) -> bool {
    match (event, attempt_failure(event, lost)) {
        (AttemptEvent::Finished(result), _) => step == AttemptStep::End(result),
        (_, Some(expected)) => step matches AttemptStep::End(Err(failure)) && failure@ == expected,
        (_, None) => step is Continue,
    }
}

fn answer<T>(event: AttemptEvent<T>, lost: &str) -> (step: AttemptStep<T>)
    ensures
        answers(event, lost@, step),
{
    match event {
        AttemptEvent::Finished(result) => AttemptStep::End(result),
        AttemptEvent::TimedOut => AttemptStep::End(
            Err(CatgaError::new(ErrorCode::Timeout, "tagged flow step timed out")),
        ),
        AttemptEvent::Heartbeat(Err(failure)) => AttemptStep::End(Err(failure)),
        AttemptEvent::Heartbeat(Ok(owned)) => {
            if owned {
                AttemptStep::Continue
            } else {
                AttemptStep::End(Err(CatgaError::new(ErrorCode::Conflict, lost)))
            }
        },
    }
}

/// Decides how an attempt of a step goes on.
pub fn step_attempt<T>(event: AttemptEvent<T>) -> (step: AttemptStep<T>)
    ensures
        answers(event, "flow execution ownership was lost while its step was running"@, step),
{
    answer(event, "flow execution ownership was lost while its step was running")
}

/// Decides how the rollback of a step goes on.
pub fn compensation_attempt<T>(event: AttemptEvent<T>) -> (step: AttemptStep<T>)
    ensures
        answers(
            event,
            "flow compensation ownership was lost while its action was running"@,
            step,
        ),
{
    answer(event, "flow compensation ownership was lost while its action was running")
}

/// Whether a heartbeat from outside a handler may be recorded.
pub open spec fn heartbeat_permitted(
    runtime: runtime::RuntimeView,
    loaded: Result<Option<continuation::ContinuationView>, error::ErrorView>,
) -> Result<bool, error::ErrorView> {
    match loaded {
        Err(failure) => Err(failure),
        Ok(None) => Ok(false),
        Ok(Some(value)) => match runtime.definition_failure(value) {
            Some(failure) => Err(failure),
            None => Ok(true),
        },
    }
}

impl FlowRuntime {
    /// Decides whether a heartbeat for a loaded flow is recorded; a flow that does not exist has
    /// none.
    pub fn heartbeat(&self, loaded: CatgaResult<Option<FlowContinuation>>) -> (result: CatgaResult<
        bool,
    >)
        ensures
            error::flag_result(result) == heartbeat_permitted(self@, runtime::load_view(loaded)),
    {
        match loaded {
            Err(failure) => Err(failure),
            Ok(None) => Ok(false),
            Ok(Some(value)) => match self.ensure_definition(&value) {
                Ok(_) => Ok(true),
                Err(failure) => Err(failure),
            },
        }
    }
}

} // verus!
