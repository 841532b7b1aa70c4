//! Schedules for delayed flows whose schedule identity was never stored.
//!
//! Each method of [`FlowRuntime`] here takes what an effect returned and answers with the next
//! [`ReconcileStep`] for one flow.

use vstd::prelude::*;

use crate::continuation;
use crate::continuation::FlowContinuation;
use crate::error;
use crate::error::{CatgaError, CatgaResult};
use crate::runtime;
use crate::runtime::FlowRuntime;
use crate::state;
use crate::state::FlowStatus;
use crate::suspension_store;
use crate::suspension_store::FlowQuery;
use crate::text::same_text;
use crate::time::Timestamp;

verus! {

/// The next effect for one flow.
#[derive(Debug)]
pub enum ReconcileStep {
    /// Schedule the resume of the flow, then call [`FlowRuntime::reconcile_scheduled`].
    Schedule { pending: FlowContinuation, due_at: Timestamp },
    /// Replace the record of the expected version, then call
    /// [`FlowRuntime::reconcile_recorded`].
    Record { expected_version: i64, scheduled: FlowContinuation },
    /// Go on with the next flow.
    Next { reconciled: usize },
    /// The whole reconciliation ends with this failure.
    Fail(CatgaError),
}

/// Mathematical model of a [`ReconcileStep`].
pub enum ReconcileStepView {
    Schedule { pending: continuation::ContinuationView, due_at: int },
    Record { expected_version: i64, scheduled: continuation::ContinuationView },
    Next { reconciled: usize },
    Fail(error::ErrorView),
}

impl View for ReconcileStep {
    type V = ReconcileStepView;

    open spec fn view(&self) -> ReconcileStepView {
        match *self {
            ReconcileStep::Schedule { pending, due_at } => ReconcileStepView::Schedule {
                pending: pending@,
                due_at: due_at@,
            },
            ReconcileStep::Record { expected_version, scheduled } => ReconcileStepView::Record {
                expected_version,
                scheduled: scheduled@,
            },
            ReconcileStep::Next { reconciled } => ReconcileStepView::Next { reconciled },
            ReconcileStep::Fail(failure) => ReconcileStepView::Fail(failure@),
        }
    }
}

/// Whether a flow of a definition waits for an instant without a stored schedule.
pub open spec fn lacks_schedule(
    runtime: runtime::RuntimeView,
    value: continuation::ContinuationView,
) -> bool {
    &&& value.state.status == FlowStatus::Suspended
    &&& value.state.flow_type == runtime.definition.name
    &&& value.schedule_id is None
    &&& value.resume_at is Some
}

/// What is done with a loaded flow.
pub open spec fn reconcile_loaded_step(
    runtime: runtime::RuntimeView,
    loaded: Result<Option<continuation::ContinuationView>, error::ErrorView>,
    reconciled: usize,
) -> ReconcileStepView {
    match loaded {
        Err(failure) => ReconcileStepView::Fail(failure),
        Ok(None) => ReconcileStepView::Next { reconciled },
        Ok(Some(value)) => if !value.valid() {
            ReconcileStepView::Fail(value.rejection())
        } else if lacks_schedule(runtime, value) {
            ReconcileStepView::Schedule { pending: value, due_at: value.resume_at->0 }
        } else {
            ReconcileStepView::Next { reconciled }
        },
    }
}

/// What is done once a flow is scheduled.
pub open spec fn reconcile_scheduled_step(
    pending: continuation::ContinuationView,
    schedule: Result<Seq<char>, error::ErrorView>,
    now: int,
) -> ReconcileStepView {
    match schedule {
        Err(failure) => ReconcileStepView::Fail(failure),
        Ok(schedule_id) => if pending.state.can_advance() {
            ReconcileStepView::Record {
                expected_version: pending.state.version,
                scheduled: pending.with_state(pending.state.advanced(), now).with_schedule_id(
                    schedule_id,
                    now,
                ),
            }
        } else {
            ReconcileStepView::Fail(state::version_exhausted())
        },
    }
}

/// What is done once a schedule identity is stored, or another writer was faster.
pub open spec fn reconcile_recorded_step(
    reconciled: usize,
    result: Result<bool, error::ErrorView>,
) -> ReconcileStepView {
    match result {
        Err(failure) => ReconcileStepView::Fail(failure),
        Ok(false) => ReconcileStepView::Next { reconciled },
        Ok(true) => ReconcileStepView::Next {
            reconciled: if reconciled < usize::MAX {
                (reconciled + 1) as usize
            } else {
                reconciled
            },
        },
    }
}

impl FlowRuntime {
    /// Creates the bounded query for suspended flows of this runtime's definition.
    pub fn reconcile_delayed_suspensions(&self, max_results: usize, max_scan: usize) -> (result:
        CatgaResult<FlowQuery>)
        ensures
            match result {
                Ok(query) => suspension_store::query_limits_valid(max_results, max_scan) && query@
                    == (suspension_store::QueryView {
                    max_results,
                    max_scan,
                    status: Some(FlowStatus::Suspended),
                    flow_type: Some(self@.definition.name),
                    created_at: None,
                }),
                Err(failure) => !suspension_store::query_limits_valid(max_results, max_scan)
                    && failure@ == suspension_store::query_rejected(),
            },
    {
        match FlowQuery::new(max_results, max_scan) {
            Ok(query) => Ok(
                query.with_status(FlowStatus::Suspended).with_flow_type(self.definition().name()),
            ),
            Err(failure) => Err(failure),
        }
    }

    /// Goes on after a flow that the query found was loaded.
    pub fn reconcile_loaded(
        &self,
        loaded: CatgaResult<Option<FlowContinuation>>,
        reconciled: usize,
    ) -> (step: ReconcileStep)
        ensures
            step@ == reconcile_loaded_step(self@, runtime::load_view(loaded), reconciled),
    {
        let value: FlowContinuation = match loaded {
            Err(failure) => {
                return ReconcileStep::Fail(failure);
            },
            Ok(None) => {
                return ReconcileStep::Next { reconciled };
            },
            Ok(Some(value)) => value,
        };
        match value.validate() {
            Err(failure) => {
                return ReconcileStep::Fail(failure);
            },
            Ok(_) => {},
        }
        if value.state().status() != FlowStatus::Suspended || !same_text(
            value.state().flow_type(),
            self.definition().name(),
        ) || value.schedule_id().is_some() {
            return ReconcileStep::Next { reconciled };
        }
        match value.resume_at() {
            Some(due_at) => ReconcileStep::Schedule { pending: value, due_at },
            None => ReconcileStep::Next { reconciled },
        }
    }

    /// Goes on after the scheduler was asked to resume a flow.
    pub fn reconcile_scheduled(
        &self,
        pending: FlowContinuation,
        schedule: CatgaResult<String>,
        now: Timestamp,
    ) -> (step: ReconcileStep)
        ensures
            step@ == reconcile_scheduled_step(pending@, runtime::text_view(schedule), now@),
    {
        match schedule {
            Err(failure) => ReconcileStep::Fail(failure),
            Ok(schedule_id) => match pending.state().clone().next_version() {
                Ok(next_state) => ReconcileStep::Record {
                    expected_version: pending.state().version(),
                    scheduled: pending.with_state(next_state, now).with_schedule_id(
                        schedule_id.as_str(),
                        now,
                    ),
                },
                Err(failure) => ReconcileStep::Fail(failure),
            },
        }
    }

    /// Goes on after the schedule identity was stored, or the flow had changed.
    pub fn reconcile_recorded(&self, reconciled: usize, result: CatgaResult<bool>) -> (step:
        ReconcileStep)
        ensures
            step@ == reconcile_recorded_step(reconciled, error::flag_result(result)),
    {
        match result {
            Err(failure) => ReconcileStep::Fail(failure),
            Ok(stored) => {
                if stored && reconciled < usize::MAX {
                    ReconcileStep::Next { reconciled: reconciled + 1 }
                } else {
                    ReconcileStep::Next { reconciled }
                }
            },
        }
    }
}

/// A flow gets one schedule identity: once it is stored, a later reconciliation passes it over,
/// and it is stored at the following version of the same flow.
pub proof fn lemma_one_schedule_identity(
    runtime: runtime::RuntimeView,
    pending: continuation::ContinuationView,
    schedule_id: Seq<char>,
    reconciled: usize,
    now: int,
)
    ensures
        reconcile_scheduled_step(pending, Ok(schedule_id), now) matches ReconcileStepView::Record {
            expected_version,
            scheduled,
        } ==> {
            &&& scheduled.state.version == expected_version + 1
            &&& runtime::same_flow(pending, scheduled)
            &&& scheduled.schedule_id == Some(schedule_id)
            &&& scheduled.valid() ==> reconcile_loaded_step(
                runtime,
                Ok(Some(scheduled)),
                reconciled,
            ) == (ReconcileStepView::Next { reconciled })
        },
{
}

} // verus!
