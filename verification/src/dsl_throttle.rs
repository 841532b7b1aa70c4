//! Budgets that flow actions share.
//!
//! A [`FlowThrottle`] owns its permits; taking one, which may have to wait, is left to the caller.

use std::sync::Arc;

use tokio::sync::Semaphore;
use vstd::prelude::*;

use crate::error;
use crate::error::{CatgaError, CatgaResult, ErrorCode};

verus! {

/// The largest number of permits that a semaphore can hold.
pub open spec fn max_permits() -> int {
    usize::MAX as int / 8
}

/// A semaphore of `tokio`.
#[verifier::external_type_specification]
#[verifier::external_body]
pub struct ExSemaphore(Semaphore);

/// How many permits [`Semaphore::new`] gave to a semaphore.
pub uninterp spec fn permits_made_with(semaphore: Semaphore) -> int;

/// Makes a semaphore with [`Semaphore::new`], which panics above [`max_permits`]. The semaphore
/// has `permits` permits.
#[verifier::external_body]
fn new_semaphore(permits: usize) -> (result: Semaphore)
    requires
        permits <= max_permits(),
    ensures
        permits_made_with(result) == permits,
{
    Semaphore::new(permits)
}

/// Shared concurrency budget for throttled flow actions.
///
/// A copy shares the permits of its original.
#[derive(Debug)]
pub struct FlowThrottle {
    permits: Arc<Semaphore>,
}

impl View for FlowThrottle {
    type V = Semaphore;

    closed spec fn view(&self) -> Semaphore {
        *self.permits
    }
}

impl Clone for FlowThrottle {
    fn clone(&self) -> (result: Self)
        ensures
            result@ == self@,
    {
        FlowThrottle { permits: self.permits.clone() }
    }
}

impl FlowThrottle {
    /// Creates a throttle that permits at most `limit` actions at once.
    pub fn new(limit: usize) -> (result: CatgaResult<Self>)
        requires
            limit <= max_permits(),
        ensures
            match result {
                Ok(throttle) => limit > 0 && permits_made_with(throttle@) == limit,
                Err(failure) => limit == 0 && failure@ == error::validation(
                    "flow throttle limit must be greater than zero"@,
                ),
            },
    {
        if limit == 0 {
            return Err(
                CatgaError::new(
                    ErrorCode::Validation,
                    "flow throttle limit must be greater than zero",
                ),
            );
        }
        Ok(FlowThrottle { permits: Arc::new(new_semaphore(limit)) })
    }

    /// Returns the permits; an action holds one of them while it runs.
    pub fn permits(&self) -> (result: &Arc<Semaphore>)
        ensures
            **result == self@,
    {
        &self.permits
    }
}

/// Returns the failure of an action whose throttle has no permits any more.
pub fn throttle_closed() -> (result: CatgaError)
    ensures
        result@ == error::plain_error(ErrorCode::Cancelled, "flow throttle is closed"@),
{
    CatgaError::new(ErrorCode::Cancelled, "flow throttle is closed")
}

} // verus!
