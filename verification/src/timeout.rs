//! Deadlines of waiting flows.

use vstd::prelude::*;

use crate::continuation::FlowContinuation;
use crate::error;
use crate::error::{CatgaError, CatgaResult, ErrorCode};
use crate::suspension;
use crate::time::Timestamp;

verus! {

/// Nanoseconds in whole milliseconds, a started millisecond counting as a whole one.
pub open spec fn millis_rounded_up(nanos: int) -> int {
    (nanos + 999_999) / 1_000_000
}

/// The deadline of a wait, in milliseconds since the epoch, or why it has none.
pub open spec fn deadline_of(wait: Option<suspension::WaitView>) -> Result<
    Option<int>,
    error::ErrorView,
> {
    match wait {
        None => Ok(None),
        Some(wait) => {
            let deadline = wait.created_at + wait.timeout;
            let millis = millis_rounded_up(deadline);
            if crate::time::valid_timestamp(deadline) && i64::MIN <= millis <= i64::MAX {
                Ok(Some(millis))
            } else {
                Err(
                    error::validation("flow wait deadline exceeds the supported time range"@),
                )
            }
        },
    }
}

/// The instant at which a continuation's wait expires, in milliseconds from the Unix epoch.
///
/// Fractional milliseconds count as a whole one, so a poll at the returned millisecond never
/// comes before the deadline. A continuation that waits for nothing has no deadline.
pub fn flow_timeout_deadline_unix_ms(value: &FlowContinuation) -> (result: CatgaResult<Option<i64>>)
    ensures
        match (deadline_of(value@.wait), result) {
            (Ok(expected), Ok(found)) => match (expected, found) {
                (Some(millis), Some(found)) => found == millis,
                (None, None) => true,
                _ => false,
            },
            (Err(expected), Err(failure)) => failure@ == expected,
            _ => false,
        },
{
    let wait = match value.wait() {
        Some(wait) => wait,
        None => {
            return Ok(None);
        },
    };
    let deadline: Option<Timestamp> = wait.created_at().checked_add(wait.timeout());
    let millis: Option<i64> = match deadline {
        Some(deadline) => deadline.unix_millis_rounded_up(),
        None => None,
    };
    match millis {
        Some(millis) => Ok(Some(millis)),
        None => Err(
            CatgaError::new(
                ErrorCode::Validation,
                "flow wait deadline exceeds the supported time range",
            ),
        ),
    }
}

/// A deadline is the first whole millisecond that is not before the end of the wait; a flow that waits
/// for nothing has none.
pub proof fn lemma_deadlines_do_not_come_early(wait: suspension::WaitView, millis: int)
    requires
        deadline_of(Some(wait)) == Ok::<Option<int>, error::ErrorView>(Some(millis)),
    ensures
        1_000_000 * millis >= wait.created_at + wait.timeout,
        1_000_000 * (millis - 1) < wait.created_at + wait.timeout,
        deadline_of(None) == Ok::<Option<int>, error::ErrorView>(None),
{
}

} // verus!
