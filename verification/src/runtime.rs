//! Decisions of the durable flow runtime.
//!
//! A [`FlowRuntime`] performs no effect itself. Each of its methods takes what an effect returned
//! and answers with the next [`RuntimeStep`]; a driver performs that step and calls the method
//! that the step names, until the step is [`RuntimeStep::Finish`].

use vstd::prelude::*;

use crate::continuation;
use crate::continuation::FlowContinuation;
use crate::definition;
use crate::definition::{FlowDefinition, FlowStepOutcome};
use crate::error;
use crate::error::{CatgaError, CatgaResult, ErrorCode};
use crate::runtime_wait;
use crate::runtime_wait::{evaluate_wait, is_stale, WaitEvaluation};
use crate::state;
use crate::state::{FlowState, FlowStatus};
use crate::suspension;
use crate::tag_policy;
use crate::tag_policy::FlowTagPolicy;
use crate::text::same_text;
use crate::time::{Duration, Timestamp};

verus! {

/// The observable state after starting, resuming, or recording a durable flow trigger.
#[derive(Debug)]
pub struct FlowRuntimeResult {
    state: FlowState,
}

impl View for FlowRuntimeResult {
    type V = state::FlowStateView;

    closed spec fn view(&self) -> state::FlowStateView {
        self.state@
    }
}

impl FlowRuntimeResult {
    /// Wraps an observed state.
    pub fn new(state: FlowState) -> (result: Self)
        ensures
            result@ == state@,
    {
        FlowRuntimeResult { state }
    }

    /// Returns the flow's immutable durable state.
    pub fn state(&self) -> (result: &FlowState)
        ensures
            result@ == self@,
    {
        &self.state
    }

    /// Returns whether execution is waiting for a scheduler or child result.
    pub fn is_suspended(&self) -> (result: bool)
        ensures
            result == (self@.status == FlowStatus::Suspended),
    {
        self.state.status() == FlowStatus::Suspended
    }

    /// Returns whether the flow reached a successful terminal state.
    pub fn is_success(&self) -> (result: bool)
        ensures
            result == (self@.status == FlowStatus::Done),
    {
        self.state.status() == FlowStatus::Done
    }

    /// Returns whether the flow reached a failed terminal state.
    pub fn is_failure(&self) -> (result: bool)
        ensures
            result == (self@.status == FlowStatus::Failed),
    {
        self.state.status() == FlowStatus::Failed
    }

    /// Returns whether cancellation reached a terminal flow state.
    pub fn is_cancelled(&self) -> (result: bool)
        ensures
            result == (self@.status == FlowStatus::Cancelled),
    {
        self.state.status() == FlowStatus::Cancelled
    }

    /// Returns whether another executor currently owns active execution.
    pub fn is_running(&self) -> (result: bool)
        ensures
            result == (self@.status == FlowStatus::Running),
    {
        self.state.status() == FlowStatus::Running
    }

    /// Returns whether the runtime is durably retrying rollback actions.
    pub fn is_compensating(&self) -> (result: bool)
        ensures
            result == (self@.status == FlowStatus::Compensating),
    {
        self.state.status() == FlowStatus::Compensating
    }
}

/// What follows a conditional store update.
#[derive(Clone, Copy, Debug, PartialEq, Eq, Structural)]
pub enum AfterUpdate {
    /// The stored state is the result.
    Return,
    /// The stored continuation is claimed and executed.
    Claim,
    /// The stored delay is handed to the scheduler.
    Schedule,
    /// The stored rollbacks are executed.
    Compensate,
}

/// The next effect of a runtime operation.
#[derive(Debug)]
pub enum RuntimeStep {
    /// Create the continuation in the store, then call [`FlowRuntime::created`].
    Create { continuation: FlowContinuation },
    /// Load the continuation, then call [`FlowRuntime::loaded`].
    Load { flow_id: String },
    /// Load the continuation, then call [`FlowRuntime::current_result`].
    Reload { flow_id: String },
    /// Replace `expected` by `next` in the store, then call [`FlowRuntime::claimed`].
    Claim { expected: FlowContinuation, next: FlowContinuation },
    /// Run the step that the continuation names, then call [`FlowRuntime::executed`].
    Execute { continuation: FlowContinuation, attempt: usize },
    /// Renew the claim before another attempt, then call [`FlowRuntime::retry_renewed`].
    RenewForRetry { continuation: FlowContinuation, attempt: usize },
    /// Update the store from `expected_version`, then call [`FlowRuntime::updated`].
    Update { expected_version: i64, next: FlowContinuation, after: AfterUpdate },
    /// Schedule the resume of a delayed flow, then call [`FlowRuntime::scheduled`].
    Schedule { pending: FlowContinuation, due_at: Timestamp },
    /// Store the schedule identity, then call [`FlowRuntime::schedule_recorded`].
    RecordSchedule { pending: FlowContinuation, scheduled: FlowContinuation },
    /// Run the rollback of `step_name`, then call [`FlowRuntime::compensated`].
    Compensate { continuation: FlowContinuation, step_name: String },
    /// Update the store from `expected_version`, then call [`FlowRuntime::cancel_stored`].
    StoreCancelled {
        expected_version: i64,
        cancelled: FlowContinuation,
        schedule: Option<String>,
    },
    /// Cancel the schedule, whatever comes of it, then finish with the state.
    CancelSchedule { schedule_id: String, state: FlowState },
    /// Store a child's payload, then call [`FlowRuntime::wait_recorded`].
    RecordSuccess { flow_id: String, version: i64, child_id: String, payload: Vec<u8> },
    /// Store a child's failure, then call [`FlowRuntime::wait_recorded`].
    RecordFailure { flow_id: String, version: i64, child_id: String, failure: CatgaError },
    /// The operation is over.
    Finish(CatgaResult<FlowRuntimeResult>),
}

/// Mathematical model of a [`RuntimeStep`].
pub enum RuntimeStepView {
    Create { continuation: continuation::ContinuationView },
    Load { flow_id: Seq<char> },
    Reload { flow_id: Seq<char> },
    Claim { expected: continuation::ContinuationView, next: continuation::ContinuationView },
    Execute { continuation: continuation::ContinuationView, attempt: usize },
    RenewForRetry { continuation: continuation::ContinuationView, attempt: usize },
    Update { expected_version: i64, next: continuation::ContinuationView, after: AfterUpdate },
    Schedule { pending: continuation::ContinuationView, due_at: int },
    RecordSchedule {
        pending: continuation::ContinuationView,
        scheduled: continuation::ContinuationView,
    },
    Compensate { continuation: continuation::ContinuationView, step_name: Seq<char> },
    StoreCancelled {
        expected_version: i64,
        cancelled: continuation::ContinuationView,
        schedule: Option<Seq<char>>,
    },
    CancelSchedule { schedule_id: Seq<char>, state: state::FlowStateView },
    RecordSuccess { flow_id: Seq<char>, version: i64, child_id: Seq<char>, payload: Seq<u8> },
    RecordFailure {
        flow_id: Seq<char>,
        version: i64,
        child_id: Seq<char>,
        failure: error::ErrorView,
    },
    Finish(Result<state::FlowStateView, error::ErrorView>),
}

/// The model of a runtime result.
pub open spec fn finish_view(result: CatgaResult<FlowRuntimeResult>) -> Result<
    state::FlowStateView,
    error::ErrorView,
> {
    match result {
        Ok(value) => Ok(value@),
        Err(failure) => Err(failure@),
    }
}

/// The model of a load.
pub open spec fn load_view(result: CatgaResult<Option<FlowContinuation>>) -> Result<
    Option<continuation::ContinuationView>,
    error::ErrorView,
> {
    match result {
        Ok(Some(value)) => Ok(Some(value@)),
        Ok(None) => Ok(None),
        Err(failure) => Err(failure@),
    }
}

/// The model of a step execution.
pub open spec fn execution_view(result: CatgaResult<FlowStepOutcome>) -> Result<
    definition::OutcomeView,
    error::ErrorView,
> {
    match result {
        Ok(outcome) => Ok(outcome@),
        Err(failure) => Err(failure@),
    }
}

/// The model of a text that an effect returned.
pub open spec fn text_view(result: CatgaResult<String>) -> Result<Seq<char>, error::ErrorView> {
    match result {
        Ok(value) => Ok(value@),
        Err(failure) => Err(failure@),
    }
}

impl View for RuntimeStep {
    type V = RuntimeStepView;

    open spec fn view(&self) -> RuntimeStepView {
        match *self {
            RuntimeStep::Create { continuation } => RuntimeStepView::Create {
                continuation: continuation@,
            },
            RuntimeStep::Load { flow_id } => RuntimeStepView::Load { flow_id: flow_id@ },
            RuntimeStep::Reload { flow_id } => RuntimeStepView::Reload { flow_id: flow_id@ },
            RuntimeStep::Claim { expected, next } => RuntimeStepView::Claim {
                expected: expected@,
                next: next@,
            },
            RuntimeStep::Execute { continuation, attempt } => RuntimeStepView::Execute {
                continuation: continuation@,
                attempt,
            },
            RuntimeStep::RenewForRetry { continuation, attempt } =>
                RuntimeStepView::RenewForRetry { continuation: continuation@, attempt },
            RuntimeStep::Update { expected_version, next, after } => RuntimeStepView::Update {
                expected_version,
                next: next@,
                after,
            },
            RuntimeStep::Schedule { pending, due_at } => RuntimeStepView::Schedule {
                pending: pending@,
                due_at: due_at@,
            },
            RuntimeStep::RecordSchedule { pending, scheduled } =>
                RuntimeStepView::RecordSchedule { pending: pending@, scheduled: scheduled@ },
            RuntimeStep::Compensate { continuation, step_name } => RuntimeStepView::Compensate {
                continuation: continuation@,
                step_name: step_name@,
            },
            RuntimeStep::StoreCancelled { expected_version, cancelled, schedule } =>
                RuntimeStepView::StoreCancelled {
                expected_version,
                cancelled: cancelled@,
                schedule: error::text_option(schedule),
            },
            RuntimeStep::CancelSchedule { schedule_id, state } => RuntimeStepView::CancelSchedule {
                schedule_id: schedule_id@,
                state: state@,
            },
            RuntimeStep::RecordSuccess { flow_id, version, child_id, payload } =>
                RuntimeStepView::RecordSuccess {
                flow_id: flow_id@,
                version,
                child_id: child_id@,
                payload: payload@,
            },
            RuntimeStep::RecordFailure { flow_id, version, child_id, failure } =>
                RuntimeStepView::RecordFailure {
                flow_id: flow_id@,
                version,
                child_id: child_id@,
                failure: failure@,
            },
            RuntimeStep::Finish(result) => RuntimeStepView::Finish(finish_view(result)),
        }
    }
}

pub open spec fn missing_flow() -> error::ErrorView {
    error::plain_error(ErrorCode::NotFound, "flow does not exist"@)
}

pub open spec fn foreign_definition() -> error::ErrorView {
    error::validation("flow continuation belongs to a different definition"@)
}

pub open spec fn lost_update() -> error::ErrorView {
    error::plain_error(
        ErrorCode::Transient,
        "flow continuation changed before it could be persisted"@,
    )
}

pub open spec fn lost_before_retry() -> error::ErrorView {
    error::plain_error(
        ErrorCode::Conflict,
        "flow execution ownership was lost before a tagged retry"@,
    )
}

/// The step that ends an operation with a failure.
pub open spec fn failure_step(failure: error::ErrorView) -> RuntimeStepView {
    RuntimeStepView::Finish(Err(failure))
}

/// The step that ends an operation with an observed state.
pub open spec fn result_step(state: state::FlowStateView) -> RuntimeStepView {
    RuntimeStepView::Finish(Ok(state))
}

/// The update to a state at the following version, where there is one.
pub open spec fn update_step(
    base: continuation::ContinuationView,
    expected_version: i64,
    state: state::FlowStateView,
    after: AfterUpdate,
    now: int,
) -> RuntimeStepView {
    if state.can_advance() {
        RuntimeStepView::Update {
            expected_version,
            next: base.with_state(state.advanced(), now),
            after,
        }
    } else {
        failure_step(state::version_exhausted())
    }
}

/// How a flow with a failed step goes on: completed steps are rolled back first.
pub open spec fn fail_step(
    value: continuation::ContinuationView,
    failure: error::ErrorView,
    now: int,
) -> RuntimeStepView {
    if value.compensations.len() > 0 {
        update_step(
            value.ready(now),
            value.state.version,
            value.state.with_error(failure).compensating(),
            AfterUpdate::Compensate,
            now,
        )
    } else {
        update_step(
            value.ready(now),
            value.state.version,
            value.state.failed(failure),
            AfterUpdate::Return,
            now,
        )
    }
}

/// How a flow that is being rolled back goes on.
pub open spec fn compensate_step(
    value: continuation::ContinuationView,
    now: int,
) -> RuntimeStepView {
    match value.next_compensation() {
        Some(step_name) => RuntimeStepView::Compensate { continuation: value, step_name },
        None => match value.state.error {
            Some(failure) => update_step(
                value.ready(now),
                value.state.version,
                value.state.failed(failure),
                AfterUpdate::Return,
                now,
            ),
            None => failure_step(
                error::plain_error(
                    ErrorCode::Internal,
                    "a compensating flow is missing its original failure"@,
                ),
            ),
        },
    }
}

/// How a flow goes on after a rollback.
pub open spec fn compensated_step(
    value: continuation::ContinuationView,
    result: Result<(), error::ErrorView>,
    now: int,
) -> RuntimeStepView {
    match result {
        Ok(_) => update_step(
            value.complete_compensation(now),
            value.state.version,
            value.state.compensating(),
            AfterUpdate::Compensate,
            now,
        ),
        Err(failure) => failure_step(failure),
    }
}

/// How a delayed flow goes on once its suspension is stored.
pub open spec fn schedule_step(pending: continuation::ContinuationView) -> RuntimeStepView {
    match pending.resume_at {
        Some(due_at) => RuntimeStepView::Schedule { pending, due_at },
        None => result_step(pending.state),
    }
}

/// What is observed of a flow that another writer has changed.
pub open spec fn observed_step(
    loaded: Result<Option<continuation::ContinuationView>, error::ErrorView>,
) -> RuntimeStepView {
    match loaded {
        Ok(Some(value)) => if value.valid() {
            result_step(value.state)
        } else {
            failure_step(value.rejection())
        },
        Ok(None) => failure_step(missing_flow()),
        Err(failure) => failure_step(failure),
    }
}

/// Mathematical model of a [`FlowRuntime`].
pub struct RuntimeView {
    pub definition: definition::DefinitionView,
    pub owner: Seq<char>,
    pub stale_after: int,
    pub tag_policy: Option<tag_policy::TagPolicyView>,
}

impl RuntimeView {
    /// Why the runtime cannot work on a continuation.
    pub open spec fn definition_failure(
        self,
        value: continuation::ContinuationView,
    ) -> Option<error::ErrorView> {
        if !value.valid() {
            Some(value.rejection())
        } else if value.state.flow_type != self.definition.name {
            Some(foreign_definition())
        } else {
            None
        }
    }

    /// The state under which this runtime claims a flow.
    pub open spec fn claimed_state(self, state: state::FlowStateView, now: int) -> state::FlowStateView {
        let claimed = state.claimed_by(self.owner, now);
        if state.status == FlowStatus::Compensating {
            claimed.compensating()
        } else {
            claimed.running()
        }
    }

    pub open spec fn claim_step(
        self,
        value: continuation::ContinuationView,
        now: int,
    ) -> RuntimeStepView {
        if value.state.can_advance() {
            RuntimeStepView::Claim {
                expected: value,
                next: value.ready(now).with_state(
                    self.claimed_state(value.state, now).advanced(),
                    now,
                ),
            }
        } else {
            failure_step(state::version_exhausted())
        }
    }

    /// Whether another process may still be working on the flow.
    pub open spec fn owned_elsewhere(self, state: state::FlowStateView, at: int) -> bool {
        (state.status == FlowStatus::Running || state.status == FlowStatus::Compensating)
            && !runtime_wait::stale(state.heartbeat, at, self.stale_after)
    }

    /// How a loaded flow is resumed: a terminal or owned flow is only observed, a pending wait or
    /// delay keeps it suspended, a failed wait fails it, and otherwise it is claimed. Claims, waits
    /// and delays are judged at the instant `at`; what is written is stamped with `now`.
    pub open spec fn resume_step(
        self,
        loaded: Result<Option<continuation::ContinuationView>, error::ErrorView>,
        at: int,
        now: int,
    ) -> RuntimeStepView {
        match loaded {
            Err(failure) => failure_step(failure),
            Ok(None) => failure_step(missing_flow()),
            Ok(Some(value)) => match self.definition_failure(value) {
                Some(failure) => failure_step(failure),
                None => if value.state.status.spec_is_terminal() || self.owned_elsewhere(
                    value.state,
                    at,
                ) {
                    result_step(value.state)
                } else if value.state.status != FlowStatus::Suspended {
                    self.claim_step(value, now)
                } else {
                    match value.wait {
                        Some(wait) => match runtime_wait::wait_outcome(wait, at) {
                            runtime_wait::EvaluationView::Pending => result_step(value.state),
                            runtime_wait::EvaluationView::Failed(failure) => fail_step(
                                value,
                                failure,
                                now,
                            ),
                            runtime_wait::EvaluationView::Ready => self.due_step(value, at, now),
                        },
                        None => self.due_step(value, at, now),
                    }
                },
            },
        }
    }

    /// A suspended flow is claimed once its delay is over.
    pub open spec fn due_step(
        self,
        value: continuation::ContinuationView,
        at: int,
        now: int,
    ) -> RuntimeStepView {
        match value.resume_at {
            Some(due_at) => if due_at > at {
                result_step(value.state)
            } else {
                self.claim_step(value, now)
            },
            None => self.claim_step(value, now),
        }
    }

    pub open spec fn claimed_step(
        self,
        next: continuation::ContinuationView,
        result: Result<bool, error::ErrorView>,
        now: int,
    ) -> RuntimeStepView {
        match result {
            Err(failure) => failure_step(failure),
            Ok(false) => RuntimeStepView::Reload { flow_id: next.state.id },
            Ok(true) => if next.state.status == FlowStatus::Compensating {
                compensate_step(next, now)
            } else {
                RuntimeStepView::Execute { continuation: next, attempt: 0 }
            },
        }
    }

    /// How often a failed attempt of a step is repeated.
    pub open spec fn retries(self, step_name: Seq<char>) -> int {
        match (self.definition.step_tag(step_name), self.tag_policy) {
            (Some(tag), Some(policy)) => policy.retries_for(tag) as int,
            _ => 0,
        }
    }

    /// The continuation after a step that may have to be rolled back.
    pub open spec fn with_compensation(
        self,
        value: continuation::ContinuationView,
        now: int,
    ) -> continuation::ContinuationView {
        if self.definition.has_compensation(value.step_name) {
            value.record_compensation(value.step_name, now)
        } else {
            value
        }
    }

    /// Whether the rollback of the current step can be retained.
    pub open spec fn can_record(self, value: continuation::ContinuationView) -> bool {
        self.definition.has_compensation(value.step_name) ==> value.can_record_compensation()
    }

    /// A finished flow.
    pub open spec fn complete_step(
        self,
        value: continuation::ContinuationView,
        now: int,
    ) -> RuntimeStepView {
        update_step(
            value,
            value.state.version,
            value.state.done(value.state.following_step()),
            AfterUpdate::Return,
            now,
        )
    }

    /// The move of `compensated` to a following step.
    pub open spec fn move_step(
        self,
        compensated: continuation::ContinuationView,
        step_name: Seq<char>,
        after: AfterUpdate,
        now: int,
    ) -> RuntimeStepView {
        update_step(
            compensated.at_step(step_name, now),
            compensated.state.version,
            compensated.state.at_step(compensated.state.following_step()).suspended(),
            after,
            now,
        )
    }

    /// A step whose rollback cannot be retained ends the operation.
    pub open spec fn guarded(
        self,
        value: continuation::ContinuationView,
        step: RuntimeStepView,
    ) -> RuntimeStepView {
        if self.can_record(value) {
            step
        } else {
            failure_step(continuation::compensation_overflow())
        }
    }

    /// How a flow goes on after the outcome of its current step.
    pub open spec fn outcome_step(
        self,
        value: continuation::ContinuationView,
        outcome: definition::OutcomeView,
        now: int,
    ) -> RuntimeStepView {
        let compensated = self.with_compensation(value, now);
        let following = self.definition.next_step_name(value.step_name);
        match outcome {
            definition::OutcomeView::Complete => self.complete_step(value, now),
            definition::OutcomeView::Fail(failure) => fail_step(value, failure, now),
            definition::OutcomeView::Advance => self.guarded(
                value,
                match following {
                    Some(step_name) => self.move_step(
                        compensated,
                        step_name,
                        AfterUpdate::Claim,
                        now,
                    ),
                    None => self.complete_step(value, now),
                },
            ),
            definition::OutcomeView::Goto(step_name) => self.guarded(
                value,
                if self.definition.has_step(step_name) {
                    self.move_step(compensated, step_name, AfterUpdate::Claim, now)
                } else {
                    fail_step(
                        compensated,
                        error::plain_error(
                            ErrorCode::NotFound,
                            "a flow transition references an unregistered step"@,
                        ),
                        now,
                    )
                },
            ),
            definition::OutcomeView::SuspendUntil(resume_at) => self.guarded(
                value,
                match following {
                    Some(step_name) => self.delay_step(compensated, step_name, resume_at, now),
                    None => fail_step(
                        compensated,
                        error::validation("a delayed flow step requires a following step"@),
                        now,
                    ),
                },
            ),
            definition::OutcomeView::Wait(wait) => self.guarded(
                value,
                match following {
                    Some(step_name) => if wait.valid() {
                        self.wait_step(compensated, step_name, wait, now)
                    } else {
                        fail_step(compensated, wait.rejection(), now)
                    },
                    None => fail_step(
                        compensated,
                        error::validation("a waiting flow step requires a following step"@),
                        now,
                    ),
                },
            ),
        }
    }

    /// The suspension of `compensated` until an instant.
    pub open spec fn delay_step(
        self,
        compensated: continuation::ContinuationView,
        step_name: Seq<char>,
        resume_at: int,
        now: int,
    ) -> RuntimeStepView {
        match self.move_step(compensated, step_name, AfterUpdate::Schedule, now) {
            RuntimeStepView::Update { expected_version, next, after } => RuntimeStepView::Update {
                expected_version,
                next: next.delayed_until(resume_at, now),
                after,
            },
            other => other,
        }
    }

    /// The suspension of `compensated` until child results arrive.
    pub open spec fn wait_step(
        self,
        compensated: continuation::ContinuationView,
        step_name: Seq<char>,
        wait: suspension::WaitView,
        now: int,
    ) -> RuntimeStepView {
        match self.move_step(compensated, step_name, AfterUpdate::Return, now) {
            RuntimeStepView::Update { expected_version, next, after } => RuntimeStepView::Update {
                expected_version,
                next: next.with_wait(wait, now),
                after,
            },
            other => other,
        }
    }

    /// How a flow goes on after one attempt of its current step.
    pub open spec fn executed_step(
        self,
        value: continuation::ContinuationView,
        attempt: usize,
        result: Result<definition::OutcomeView, error::ErrorView>,
        now: int,
    ) -> RuntimeStepView {
        match result {
            Ok(outcome) => self.outcome_step(value, outcome, now),
            Err(failure) => if failure.code == ErrorCode::Transient && attempt < self.retries(
                value.step_name,
            ) {
                RuntimeStepView::RenewForRetry { continuation: value, attempt }
            } else {
                fail_step(value, failure, now)
            },
        }
    }

    /// How a step is repeated once its claim was renewed.
    pub open spec fn renewed_step(
        self,
        value: continuation::ContinuationView,
        attempt: usize,
        result: Result<bool, error::ErrorView>,
        now: int,
    ) -> RuntimeStepView {
        match result {
            Ok(true) => RuntimeStepView::Execute {
                continuation: value,
                attempt: if attempt < usize::MAX {
                    (attempt + 1) as usize
                } else {
                    attempt
                },
            },
            Ok(false) => fail_step(value, lost_before_retry(), now),
            Err(failure) => fail_step(value, failure, now),
        }
    }

    pub open spec fn updated_step(
        self,
        next: continuation::ContinuationView,
        after: AfterUpdate,
        result: Result<bool, error::ErrorView>,
        now: int,
    ) -> RuntimeStepView {
        match result {
            Err(failure) => failure_step(failure),
            Ok(false) => failure_step(lost_update()),
            Ok(true) => match after {
                AfterUpdate::Return => result_step(next.state),
                AfterUpdate::Claim => self.claim_step(next, now),
                AfterUpdate::Schedule => schedule_step(next),
                AfterUpdate::Compensate => compensate_step(next, now),
            },
        }
    }

    /// A failed scheduling leaves the stored delay in place, to be reconciled later.
    pub open spec fn scheduled_step(
        self,
        pending: continuation::ContinuationView,
        result: Result<Seq<char>, error::ErrorView>,
        now: int,
    ) -> RuntimeStepView {
        match result {
            Ok(schedule_id) => if pending.state.can_advance() {
                RuntimeStepView::RecordSchedule {
                    pending,
                    scheduled: pending.with_state(pending.state.advanced(), now).with_schedule_id(
                        schedule_id,
                        now,
                    ),
                }
            } else {
                result_step(pending.state)
            },
            Err(_) => result_step(pending.state),
        }
    }

    /// How a flow is cancelled.
    pub open spec fn cancel_step(
        self,
        loaded: Result<Option<continuation::ContinuationView>, error::ErrorView>,
        now: int,
    ) -> RuntimeStepView {
        match loaded {
            Err(failure) => failure_step(failure),
            Ok(None) => failure_step(missing_flow()),
            Ok(Some(value)) => match self.definition_failure(value) {
                Some(failure) => failure_step(failure),
                None => if value.state.status.spec_is_terminal() {
                    result_step(value.state)
                } else if value.state.status == FlowStatus::Compensating {
                    failure_step(
                        error::plain_error(
                            ErrorCode::Conflict,
                            "a compensating flow cannot be cancelled before its rollback completes"@,
                        ),
                    )
                } else if !value.state.can_advance() {
                    failure_step(state::version_exhausted())
                } else {
                    RuntimeStepView::StoreCancelled {
                        expected_version: value.state.version,
                        cancelled: value.ready(now).with_state(
                            value.state.cancelled().advanced(),
                            now,
                        ),
                        schedule: value.schedule_id,
                    }
                },
            },
        }
    }

    /// Whether a loaded flow accepts a result of a child; `Err` holds what the caller is told.
    pub open spec fn wait_admission(
        self,
        loaded: Result<Option<continuation::ContinuationView>, error::ErrorView>,
        child_id: Seq<char>,
    ) -> Result<continuation::ContinuationView, RuntimeStepView> {
        match loaded {
            Err(failure) => Err(failure_step(failure)),
            Ok(None) => Err(failure_step(missing_flow())),
            Ok(Some(value)) => if value.state.status.spec_is_terminal() {
                Err(result_step(value.state))
            } else {
                match self.definition_failure(value) {
                    Some(failure) => Err(failure_step(failure)),
                    None => match value.wait {
                        None => Err(
                            failure_step(
                                error::validation("flow is not waiting for child results"@),
                            ),
                        ),
                        Some(wait) => if wait.accepts_child(child_id) {
                            Ok(value)
                        } else {
                            Err(
                                failure_step(
                                    error::validation(
                                        "child result does not belong to this flow wait"@,
                                    ),
                                ),
                            )
                        },
                    },
                }
            },
        }
    }

    /// How a new flow starts.
    pub open spec fn start_step(self, flow_id: Seq<char>, data: Seq<u8>, now: int) -> RuntimeStepView {
        match self.definition.first_step_name() {
            None => failure_step(
                error::validation(
                    "a flow definition requires at least one registered step"@,
                ),
            ),
            Some(step_name) => if data.len() > state::MAX_FLOW_DATA_BYTES {
                failure_step(state::oversized_data())
            } else {
                RuntimeStepView::Create {
                    continuation: continuation::ContinuationView::new(
                        state::FlowStateView::initial(
                            flow_id,
                            self.definition.name,
                            data,
                            self.owner,
                            now,
                        ).suspended(),
                        step_name,
                        now,
                    ),
                }
            },
        }
    }

    /// How a flow goes on after the store was asked to create it.
    pub open spec fn created_step(
        self,
        value: continuation::ContinuationView,
        result: Result<bool, error::ErrorView>,
    ) -> RuntimeStepView {
        match result {
            Err(failure) => failure_step(failure),
            Ok(false) => failure_step(
                error::plain_error(
                    ErrorCode::Conflict,
                    "a flow with this identity already exists"@,
                ),
            ),
            Ok(true) => RuntimeStepView::Load { flow_id: value.state.id },
        }
    }

    /// How a loaded flow is resumed by a schedule that was made for one of its steps.
    pub open spec fn scheduled_resume_step(
        self,
        flow_id: Seq<char>,
        loaded: Result<Option<continuation::ContinuationView>, error::ErrorView>,
        state_id: Seq<char>,
    ) -> RuntimeStepView {
        match loaded {
            Err(failure) => failure_step(failure),
            Ok(None) => failure_step(missing_flow()),
            Ok(Some(value)) => match self.definition_failure(value) {
                Some(failure) => failure_step(failure),
                None => if value.step_name != state_id {
                    failure_step(
                        error::plain_error(
                            ErrorCode::Conflict,
                            "scheduled resume targets a stale flow state"@,
                        ),
                    )
                } else {
                    RuntimeStepView::Load { flow_id }
                },
            },
        }
    }

    /// What is observed after the identity of a schedule was stored, or could not be.
    pub open spec fn schedule_recorded_step(
        self,
        pending: continuation::ContinuationView,
        scheduled: continuation::ContinuationView,
        result: Result<bool, error::ErrorView>,
    ) -> RuntimeStepView {
        match result {
            Ok(true) => result_step(scheduled.state),
            _ => result_step(pending.state),
        }
    }

    /// How a cancellation goes on after the store was asked for it.
    pub open spec fn cancel_stored_step(
        self,
        cancelled: continuation::ContinuationView,
        schedule: Option<Seq<char>>,
        result: Result<bool, error::ErrorView>,
    ) -> RuntimeStepView {
        match result {
            Err(failure) => failure_step(failure),
            Ok(false) => RuntimeStepView::Reload { flow_id: cancelled.state.id },
            Ok(true) => match schedule {
                Some(schedule_id) => RuntimeStepView::CancelSchedule {
                    schedule_id,
                    state: cancelled.state,
                },
                None => result_step(cancelled.state),
            },
        }
    }

    /// How a flow goes on after a child result was stored, or lost against another writer.
    pub open spec fn wait_recorded_step(
        self,
        flow_id: Seq<char>,
        result: Result<bool, error::ErrorView>,
    ) -> RuntimeStepView {
        match result {
            Err(failure) => failure_step(failure),
            Ok(false) => RuntimeStepView::Reload { flow_id },
            Ok(true) => RuntimeStepView::Load { flow_id },
        }
    }

    /// How the success of a child is recorded.
    pub open spec fn record_success_step(
        self,
        flow_id: Seq<char>,
        loaded: Result<Option<continuation::ContinuationView>, error::ErrorView>,
        child_id: Seq<char>,
        payload: Seq<u8>,
    ) -> RuntimeStepView {
        match self.wait_admission(loaded, child_id) {
            Err(step) => step,
            Ok(value) => if payload.len() > suspension::MAX_WAIT_RESULT_BYTES {
                failure_step(
                    error::validation("flow child result payload exceeds the supported bound"@),
                )
            } else {
                RuntimeStepView::RecordSuccess {
                    flow_id,
                    version: value.state.version,
                    child_id,
                    payload,
                }
            },
        }
    }

    /// How the failure of a child is recorded.
    pub open spec fn record_failure_step(
        self,
        flow_id: Seq<char>,
        loaded: Result<Option<continuation::ContinuationView>, error::ErrorView>,
        child_id: Seq<char>,
        failure: error::ErrorView,
    ) -> RuntimeStepView {
        match self.wait_admission(loaded, child_id) {
            Err(step) => step,
            Ok(value) => RuntimeStepView::RecordFailure {
                flow_id,
                version: value.state.version,
                child_id,
                failure,
            },
        }
    }
}

/// Executes named flow definitions against a durable continuation store.
///
/// While a step handler is pending, the driver refreshes its durable heartbeat every
/// [`FlowRuntime::heartbeat_interval`]. External effects remain at-least-once and must be
/// idempotent.
#[derive(Debug)]
pub struct FlowRuntime {
    definition: FlowDefinition,
    owner: String,
    stale_after: Duration,
    tag_policy: Option<FlowTagPolicy>,
}

impl View for FlowRuntime {
    type V = RuntimeView;

    closed spec fn view(&self) -> RuntimeView {
        RuntimeView {
            definition: self.definition@,
            owner: self.owner@,
            stale_after: self.stale_after@,
            tag_policy: match self.tag_policy {
                Some(policy) => Some(policy@),
                None => None,
            },
        }
    }
}

fn failure(code: ErrorCode, message: &str) -> (result: RuntimeStep)
    ensures
        result@ == failure_step(error::plain_error(code, message@)),
{
    RuntimeStep::Finish(Err(CatgaError::new(code, message)))
}

fn fail_with(error: CatgaError) -> (result: RuntimeStep)
    ensures
        result@ == failure_step(error@),
{
    RuntimeStep::Finish(Err(error))
}

fn finish(state: FlowState) -> (result: RuntimeStep)
    ensures
        result@ == result_step(state@),
{
    RuntimeStep::Finish(Ok(FlowRuntimeResult::new(state)))
}

fn update(
    base: FlowContinuation,
    expected_version: i64,
    state: FlowState,
    after: AfterUpdate,
    now: Timestamp,
) -> (result: RuntimeStep)
    ensures
        result@ == update_step(base@, expected_version, state@, after, now@),
{
    match state.next_version() {
        Ok(next_state) => RuntimeStep::Update {
            expected_version,
            next: base.with_state(next_state, now),
            after,
        },
        Err(error) => fail_with(error),
    }
}

fn fail(value: FlowContinuation, error: CatgaError, now: Timestamp) -> (result: RuntimeStep)
    ensures
        result@ == fail_step(value@, error@, now@),
{
    let state: FlowState = value.state().clone();
    let version: i64 = state.version();
    let steps: &Vec<String> = value.compensation_steps();
    assert(steps.deep_view().len() == steps@.len());
    let rollback: bool = steps.len() > 0;
    if rollback {
        update(
            value.ready(now),
            version,
            state.with_error(error).compensating(),
            AfterUpdate::Compensate,
            now,
        )
    } else {
        update(value.ready(now), version, state.failed(error), AfterUpdate::Return, now)
    }
}

fn compensate(value: FlowContinuation, now: Timestamp) -> (result: RuntimeStep)
    ensures
        result@ == compensate_step(value@, now@),
{
    let next: Option<String> = match value.next_compensation() {
        Some(step_name) => Some(step_name.to_owned()),
        None => None,
    };
    match next {
        Some(step_name) => RuntimeStep::Compensate { continuation: value, step_name },
        None => {
            let state: FlowState = value.state().clone();
            let version: i64 = state.version();
            let original: Option<CatgaError> = match state.error() {
                Some(error) => Some(error.clone()),
                None => None,
            };
            match original {
                Some(error) => update(
                    value.ready(now),
                    version,
                    state.failed(error),
                    AfterUpdate::Return,
                    now,
                ),
                None => failure(
                    ErrorCode::Internal,
                    "a compensating flow is missing its original failure",
                ),
            }
        },
    }
}

impl FlowRuntime {
    /// Creates a runtime for one registered definition.
    pub fn new(definition: FlowDefinition, owner: &str) -> (result: Self)
        ensures
            result@ == (RuntimeView {
                definition: definition@,
                owner: owner@,
                stale_after: 30_000_000_000,
                tag_policy: None,
            }),
    {
        FlowRuntime {
            definition,
            owner: owner.to_owned(),
            stale_after: Duration::from_secs(30),
            tag_policy: None,
        }
    }

    /// Sets how long an unheartbeated running continuation remains exclusively owned.
    ///
    /// Positive durations also control automatic handler renewal at half this interval. Zero
    /// disables automatic renewal.
    pub fn with_stale_after(self, stale_after: Duration) -> (result: Self)
        ensures
            result@ == (RuntimeView { stale_after: stale_after@, ..self@ }),
    {
        FlowRuntime { stale_after, ..self }
    }

    /// Applies timeout and retry rules to explicitly tagged durable steps.
    ///
    /// Only transient execution errors retry, and every durable transition remains persisted
    /// regardless of policy persistence markers.
    pub fn with_tag_policy(self, tag_policy: FlowTagPolicy) -> (result: Self)
        ensures
            result@ == (RuntimeView { tag_policy: Some(tag_policy@), ..self@ }),
    {
        FlowRuntime { tag_policy: Some(tag_policy), ..self }
    }

    /// Returns the definition that this runtime executes.
    pub fn definition(&self) -> (result: &FlowDefinition)
        ensures
            result@ == self@.definition,
    {
        &self.definition
    }

    /// Returns the identity under which this runtime claims flows.
    pub fn owner(&self) -> (result: &str)
        ensures
            result@ == self@.owner,
    {
        self.owner.as_str()
    }

    /// Returns how long a claimed child launch is exclusive: the staleness bound, but never less
    /// than one nanosecond.
    pub fn claim_duration(&self) -> (result: Duration)
        ensures
            result@ == if self@.stale_after == 0 {
                1
            } else {
                self@.stale_after
            },
    {
        self.stale_after.at_least_one_nano()
    }

    /// Returns how often the claim is renewed while a handler runs, unless renewal is disabled.
    pub fn heartbeat_interval(&self) -> (result: Option<Duration>)
        ensures
            match result {
                Some(interval) => self@.stale_after > 0 && interval@ == if self@.stale_after == 1 {
                    1
                } else {
                    self@.stale_after / 2
                },
                None => self@.stale_after == 0,
            },
    {
        proof {
            use_type_invariant(&self.stale_after);
            self.stale_after.lemma_in_range();
        }
        if self.stale_after.is_zero() {
            None
        } else {
            Some(self.stale_after.half().at_least_one_nano())
        }
    }

    /// Returns the time that one attempt of a tagged step may take.
    pub fn step_timeout(&self, step_name: &str) -> (result: Option<Duration>)
        ensures
            match (self@.definition.step_tag(step_name@), self@.tag_policy) {
                (Some(tag), Some(policy)) => result matches Some(timeout) && timeout@
                    == policy.timeout_for(tag),
                _ => result is None,
            },
    {
        match (self.definition.step_tag(step_name), &self.tag_policy) {
            (Some(tag), Some(policy)) => Some(policy.timeout_for(tag)),
            _ => None,
        }
    }

    fn retries(&self, step_name: &str) -> (result: usize)
        ensures
            result == self@.retries(step_name@),
    {
        match (self.definition.step_tag(step_name), &self.tag_policy) {
            (Some(tag), Some(policy)) => policy.retries_for(tag),
            _ => 0,
        }
    }

    /// Starts a new flow at the first registered step.
    pub fn start(&self, flow_id: &str, data: Vec<u8>, now: Timestamp) -> (result: RuntimeStep)
        ensures
            result@ == self@.start_step(flow_id@, data@, now@),
    {
        let first_step: &str = match self.definition.first_step_name() {
            Some(first_step) => first_step,
            None => {
                return failure(
                    ErrorCode::Validation,
                    "a flow definition requires at least one registered step",
                );
            },
        };
        let state: FlowState = FlowState::new(
            flow_id,
            self.definition.name(),
            data,
            self.owner.as_str(),
            now,
        ).suspended();
        match state.validate() {
            Ok(_) => RuntimeStep::Create {
                continuation: FlowContinuation::new(state, first_step, now),
            },
            Err(error) => fail_with(error),
        }
    }

    /// Goes on after the store was asked to create a flow.
    pub fn created(&self, continuation: FlowContinuation, result: CatgaResult<bool>) -> (step:
        RuntimeStep)
        ensures
            step@ == self@.created_step(continuation@, error::flag_result(result)),
    {
        match result {
            Err(error) => fail_with(error),
            Ok(created) => if created {
                RuntimeStep::Load { flow_id: continuation.state().id().to_owned() }
            } else {
                failure(ErrorCode::Conflict, "a flow with this identity already exists")
            },
        }
    }

    /// Resumes a previously suspended flow from its persisted named step.
    pub fn resume(&self, flow_id: &str) -> (result: RuntimeStep)
        ensures
            result@ == (RuntimeStepView::Load { flow_id: flow_id@ }),
    {
        RuntimeStep::Load { flow_id: flow_id.to_owned() }
    }

    /// Resumes a loaded flow only when its persisted suspended state still matches `state_id`.
    ///
    /// A stale job cannot resume a flow that has already advanced to another named step.
    pub fn resume_scheduled(
        &self,
        flow_id: &str,
        loaded: CatgaResult<Option<FlowContinuation>>,
        state_id: &str,
    ) -> (result: RuntimeStep)
        ensures
            result@ == self@.scheduled_resume_step(flow_id@, load_view(loaded), state_id@),
    {
        let value: FlowContinuation = match loaded {
            Err(error) => {
                return fail_with(error);
            },
            Ok(None) => {
                return failure(ErrorCode::NotFound, "flow does not exist");
            },
            Ok(Some(value)) => value,
        };
        match self.ensure_definition(&value) {
            Ok(_) => {},
            Err(error) => {
                return fail_with(error);
            },
        }
        if !same_text(value.step_name(), state_id) {
            return failure(ErrorCode::Conflict, "scheduled resume targets a stale flow state");
        }
        RuntimeStep::Load { flow_id: flow_id.to_owned() }
    }

    /// Returns why this runtime cannot work on a continuation.
    pub fn ensure_definition(&self, value: &FlowContinuation) -> (result: CatgaResult<()>)
        ensures
            match (result, self@.definition_failure(value@)) {
                (Ok(_), None) => true,
                (Err(error), Some(failure)) => error@ == failure,
                _ => false,
            },
    {
        match value.validate() {
            Ok(_) => {},
            Err(error) => {
                return Err(error);
            },
        }
        if same_text(value.state().flow_type(), self.definition.name()) {
            Ok(())
        } else {
            Err(
                CatgaError::new(
                    ErrorCode::Validation,
                    "flow continuation belongs to a different definition",
                ),
            )
        }
    }

    fn claim(&self, value: FlowContinuation, now: Timestamp) -> (result: RuntimeStep)
        ensures
            result@ == self@.claim_step(value@, now@),
    {
        let state: FlowState = value.state().clone();
        let compensating: bool = state.status() == FlowStatus::Compensating;
        let claimed: FlowState = state.claimed_by(self.owner.as_str(), now);
        let claimed: FlowState = if compensating {
            claimed.compensating()
        } else {
            claimed.running()
        };
        match claimed.next_version() {
            Ok(next_state) => {
                let next: FlowContinuation = value.clone().ready(now).with_state(next_state, now);
                RuntimeStep::Claim { expected: value, next }
            },
            Err(error) => fail_with(error),
        }
    }

    fn claim_when_due(&self, value: FlowContinuation, at: Timestamp, now: Timestamp) -> (result:
        RuntimeStep)
        ensures
            result@ == self@.due_step(value@, at@, now@),
    {
        match value.resume_at() {
            Some(due_at) => if at.is_before(due_at) {
                finish(value.state().clone())
            } else {
                self.claim(value, now)
            },
            None => self.claim(value, now),
        }
    }

    /// Resumes a loaded flow, judging its owner, its delay and its wait at the instant `at`.
    ///
    /// What is written is stamped with the time of the clock, `now`.
    pub fn loaded(
        &self,
        loaded: CatgaResult<Option<FlowContinuation>>,
        at: Timestamp,
        now: Timestamp,
    ) -> (result: RuntimeStep)
        ensures
            result@ == self@.resume_step(load_view(loaded), at@, now@),
    {
        let value: FlowContinuation = match loaded {
            Err(error) => {
                return fail_with(error);
            },
            Ok(None) => {
                return failure(ErrorCode::NotFound, "flow does not exist");
            },
            Ok(Some(value)) => value,
        };
        match self.ensure_definition(&value) {
            Ok(_) => {},
            Err(error) => {
                return fail_with(error);
            },
        }
        let status: FlowStatus = value.state().status();
        if status.is_terminal() {
            return finish(value.state().clone());
        }
        if status == FlowStatus::Running || status == FlowStatus::Compensating {
            if !is_stale(value.state().heartbeat(), at, self.stale_after) {
                return finish(value.state().clone());
            }
            return self.claim(value, now);
        }
        let evaluation: WaitEvaluation = match value.wait() {
            Some(wait) => evaluate_wait(wait, at),
            None => WaitEvaluation::Ready,
        };
        match evaluation {
            WaitEvaluation::Pending => finish(value.state().clone()),
            WaitEvaluation::Failed(error) => fail(value, error, now),
            WaitEvaluation::Ready => self.claim_when_due(value, at, now),
        }
    }

    /// Goes on after the store was asked to replace a continuation by its claimed form.
    pub fn claimed(&self, next: FlowContinuation, result: CatgaResult<bool>, now: Timestamp) -> (step:
        RuntimeStep)
        ensures
            step@ == self@.claimed_step(next@, error::flag_result(result), now@),
    {
        match result {
            Err(error) => fail_with(error),
            Ok(claimed) => if !claimed {
                RuntimeStep::Reload { flow_id: next.state().id().to_owned() }
            } else if next.state().status() == FlowStatus::Compensating {
                compensate(next, now)
            } else {
                RuntimeStep::Execute { continuation: next, attempt: 0 }
            },
        }
    }

    /// Ends an operation with the state that another writer left.
    pub fn current_result(&self, loaded: CatgaResult<Option<FlowContinuation>>) -> (result:
        RuntimeStep)
        ensures
            result@ == observed_step(load_view(loaded)),
    {
        match loaded {
            Err(error) => fail_with(error),
            Ok(None) => failure(ErrorCode::NotFound, "flow does not exist"),
            Ok(Some(value)) => match value.validate() {
                Ok(_) => finish(value.state().clone()),
                Err(error) => fail_with(error),
            },
        }
    }

    fn move_to(
        &self,
        compensated: FlowContinuation,
        step_name: &str,
        after: AfterUpdate,
        now: Timestamp,
    ) -> (result: RuntimeStep)
        ensures
            result@ == self@.move_step(compensated@, step_name@, after, now@),
    {
        let state: FlowState = compensated.state().clone();
        let version: i64 = state.version();
        let completed: u32 = state.following_step();
        update(
            compensated.at_step(step_name, now),
            version,
            state.at_step(completed).suspended(),
            after,
            now,
        )
    }

    fn complete(&self, value: FlowContinuation, now: Timestamp) -> (result: RuntimeStep)
        ensures
            result@ == self@.complete_step(value@, now@),
    {
        let state: FlowState = value.state().clone();
        let version: i64 = state.version();
        let completed: u32 = state.following_step();
        update(value, version, state.done(completed), AfterUpdate::Return, now)
    }

    fn record_step_compensation(&self, value: &FlowContinuation, now: Timestamp) -> (result:
        CatgaResult<FlowContinuation>)
        ensures
            match result {
                Ok(next) => self@.can_record(value@) && next@ == self@.with_compensation(
                    value@,
                    now@,
                ),
                Err(error) => !self@.can_record(value@) && error@
                    == continuation::compensation_overflow(),
            },
    {
        if self.definition.has_compensation(value.step_name()) {
            return value.clone().record_compensation(value.step_name(), now);
        }
        Ok(value.clone())
    }

    fn after_outcome(&self, value: FlowContinuation, outcome: FlowStepOutcome, now: Timestamp) -> (result:
        RuntimeStep)
        ensures
            result@ == self@.outcome_step(value@, outcome@, now@),
    {
        match outcome {
            FlowStepOutcome::Complete => {
                return self.complete(value, now);
            },
            FlowStepOutcome::Fail(error) => {
                return fail(value, error, now);
            },
            _ => {},
        }
        let compensated: FlowContinuation = match self.record_step_compensation(&value, now) {
            Ok(compensated) => compensated,
            Err(error) => {
                return fail_with(error);
            },
        };
        let following: Option<String> = match self.definition.next_step_name(value.step_name()) {
            Some(step_name) => Some(step_name.to_owned()),
            None => None,
        };
        match outcome {
            FlowStepOutcome::Goto(step_name) => {
                if !self.definition.has_step(step_name.as_str()) {
                    return fail(
                        compensated,
                        CatgaError::new(
                            ErrorCode::NotFound,
                            "a flow transition references an unregistered step",
                        ),
                        now,
                    );
                }
                self.move_to(compensated, step_name.as_str(), AfterUpdate::Claim, now)
            },
            FlowStepOutcome::SuspendUntil(resume_at) => match following {
                Some(step_name) => match self.move_to(
                    compensated,
                    step_name.as_str(),
                    AfterUpdate::Schedule,
                    now,
                ) {
                    RuntimeStep::Update { expected_version, next, after } => RuntimeStep::Update {
                        expected_version,
                        next: next.delayed_until(resume_at, now),
                        after,
                    },
                    other => other,
                },
                None => fail(
                    compensated,
                    CatgaError::new(
                        ErrorCode::Validation,
                        "a delayed flow step requires a following step",
                    ),
                    now,
                ),
            },
            FlowStepOutcome::Wait(wait) => match following {
                Some(step_name) => {
                    match wait.validate() {
                        Ok(_) => {},
                        Err(error) => {
                            return fail(compensated, error, now);
                        },
                    }
                    match self.move_to(compensated, step_name.as_str(), AfterUpdate::Return, now) {
                        RuntimeStep::Update { expected_version, next, after } => {
                            RuntimeStep::Update {
                                expected_version,
                                next: next.with_wait(wait, now),
                                after,
                            }
                        },
                        other => other,
                    }
                },
                None => fail(
                    compensated,
                    CatgaError::new(
                        ErrorCode::Validation,
                        "a waiting flow step requires a following step",
                    ),
                    now,
                ),
            },
            _ => match following {
                Some(step_name) => self.move_to(
                    compensated,
                    step_name.as_str(),
                    AfterUpdate::Claim,
                    now,
                ),
                None => self.complete(value, now),
            },
        }
    }

    /// Goes on after one attempt of the current step.
    pub fn executed(
        &self,
        value: FlowContinuation,
        attempt: usize,
        result: CatgaResult<FlowStepOutcome>,
        now: Timestamp,
    ) -> (step: RuntimeStep)
        ensures
            step@ == self@.executed_step(value@, attempt, execution_view(result), now@),
    {
        match result {
            Ok(outcome) => self.after_outcome(value, outcome, now),
            Err(error) => if error.code() == ErrorCode::Transient && attempt < self.retries(
                value.step_name(),
            ) {
                RuntimeStep::RenewForRetry { continuation: value, attempt }
            } else {
                fail(value, error, now)
            },
        }
    }

    /// Goes on after the claim was renewed for another attempt.
    pub fn retry_renewed(
        &self,
        value: FlowContinuation,
        attempt: usize,
        result: CatgaResult<bool>,
        now: Timestamp,
    ) -> (step: RuntimeStep)
        ensures
            step@ == self@.renewed_step(value@, attempt, error::flag_result(result), now@),
    {
        match result {
            Ok(renewed) => if renewed {
                let attempt: usize = if attempt < usize::MAX {
                    attempt + 1
                } else {
                    attempt
                };
                RuntimeStep::Execute { continuation: value, attempt }
            } else {
                fail(
                    value,
                    CatgaError::new(
                        ErrorCode::Conflict,
                        "flow execution ownership was lost before a tagged retry",
                    ),
                    now,
                )
            },
            Err(error) => fail(value, error, now),
        }
    }

    /// Goes on after a conditional store update.
    pub fn updated(
        &self,
        next: FlowContinuation,
        after: AfterUpdate,
        result: CatgaResult<bool>,
        now: Timestamp,
    ) -> (step: RuntimeStep)
        ensures
            step@ == self@.updated_step(next@, after, error::flag_result(result), now@),
    {
        match result {
            Err(error) => fail_with(error),
            Ok(stored) => if !stored {
                failure(
                    ErrorCode::Transient,
                    "flow continuation changed before it could be persisted",
                )
            } else {
                match after {
                    AfterUpdate::Return => finish(next.state().clone()),
                    AfterUpdate::Claim => self.claim(next, now),
                    AfterUpdate::Schedule => match next.resume_at() {
                        Some(due_at) => RuntimeStep::Schedule { pending: next, due_at },
                        None => finish(next.state().clone()),
                    },
                    AfterUpdate::Compensate => compensate(next, now),
                }
            },
        }
    }

    /// Goes on after the scheduler was asked to resume a delayed flow.
    pub fn scheduled(
        &self,
        pending: FlowContinuation,
        result: CatgaResult<String>,
        now: Timestamp,
    ) -> (step: RuntimeStep)
        ensures
            step@ == self@.scheduled_step(pending@, text_view(result), now@),
    {
        match result {
            Ok(schedule_id) => match pending.state().clone().next_version() {
                Ok(next_state) => {
                    let scheduled: FlowContinuation = pending.clone().with_state(
                        next_state,
                        now,
                    ).with_schedule_id(schedule_id.as_str(), now);
                    RuntimeStep::RecordSchedule { pending, scheduled }
                },
                Err(_) => finish(pending.state().clone()),
            },
            Err(_) => finish(pending.state().clone()),
        }
    }

    /// Goes on after the schedule identity was stored, or could not be.
    pub fn schedule_recorded(
        &self,
        pending: FlowContinuation,
        scheduled: FlowContinuation,
        result: CatgaResult<bool>,
    ) -> (step: RuntimeStep)
        ensures
            step@ == self@.schedule_recorded_step(
                pending@,
                scheduled@,
                error::flag_result(result),
            ),
    {
        match result {
            Ok(stored) => if stored {
                finish(scheduled.state().clone())
            } else {
                finish(pending.state().clone())
            },
            Err(_) => finish(pending.state().clone()),
        }
    }

    /// Goes on after the rollback of one step.
    pub fn compensated(&self, value: FlowContinuation, result: CatgaResult<()>, now: Timestamp) -> (step:
        RuntimeStep)
        ensures
            step@ == compensated_step(value@, error::unit_result(result), now@),
    {
        match result {
            Ok(_) => {
                let state: FlowState = value.state().clone();
                let version: i64 = state.version();
                update(
                    value.complete_compensation(now),
                    version,
                    state.compensating(),
                    AfterUpdate::Compensate,
                    now,
                )
            },
            Err(error) => fail_with(error),
        }
    }

    /// Cancels a loaded flow unless it has already reached a terminal state.
    ///
    /// A flow that is durably compensating cannot be cancelled because cancellation would abandon
    /// rollback actions that are required to restore its previously completed effects.
    pub fn cancel(&self, loaded: CatgaResult<Option<FlowContinuation>>, now: Timestamp) -> (result:
        RuntimeStep)
        ensures
            result@ == self@.cancel_step(load_view(loaded), now@),
    {
        let value: FlowContinuation = match loaded {
            Err(error) => {
                return fail_with(error);
            },
            Ok(None) => {
                return failure(ErrorCode::NotFound, "flow does not exist");
            },
            Ok(Some(value)) => value,
        };
        match self.ensure_definition(&value) {
            Ok(_) => {},
            Err(error) => {
                return fail_with(error);
            },
        }
        if value.state().status().is_terminal() {
            return finish(value.state().clone());
        }
        if value.state().status() == FlowStatus::Compensating {
            return failure(
                ErrorCode::Conflict,
                "a compensating flow cannot be cancelled before its rollback completes",
            );
        }
        let schedule: Option<String> = match value.schedule_id() {
            Some(schedule_id) => Some(schedule_id.to_owned()),
            None => None,
        };
        let expected_version: i64 = value.state().version();
        match value.state().clone().cancelled().next_version() {
            Ok(next_state) => RuntimeStep::StoreCancelled {
                expected_version,
                cancelled: value.ready(now).with_state(next_state, now),
                schedule,
            },
            Err(error) => fail_with(error),
        }
    }

    /// Goes on after the store was asked to cancel a flow.
    pub fn cancel_stored(
        &self,
        cancelled: FlowContinuation,
        schedule: Option<String>,
        result: CatgaResult<bool>,
    ) -> (step: RuntimeStep)
        ensures
            step@ == self@.cancel_stored_step(
                cancelled@,
                error::text_option(schedule),
                error::flag_result(result),
            ),
    {
        match result {
            Err(error) => fail_with(error),
            Ok(stored) => if !stored {
                RuntimeStep::Reload { flow_id: cancelled.state().id().to_owned() }
            } else {
                match schedule {
                    Some(schedule_id) => RuntimeStep::CancelSchedule {
                        schedule_id,
                        state: cancelled.state().clone(),
                    },
                    None => finish(cancelled.state().clone()),
                }
            },
        }
    }

    fn admit_child(&self, loaded: CatgaResult<Option<FlowContinuation>>, child_id: &str) -> (result:
        Result<FlowContinuation, RuntimeStep>)
        ensures
            match (result, self@.wait_admission(load_view(loaded), child_id@)) {
                (Ok(value), Ok(model)) => value@ == model && model.wait is Some,
                (Err(step), Err(model)) => step@ == model,
                _ => false,
            },
    {
        let value: FlowContinuation = match loaded {
            Err(error) => {
                return Err(fail_with(error));
            },
            Ok(None) => {
                return Err(failure(ErrorCode::NotFound, "flow does not exist"));
            },
            Ok(Some(value)) => value,
        };
        if value.state().status().is_terminal() {
            return Err(finish(value.state().clone()));
        }
        match self.ensure_definition(&value) {
            Ok(_) => {},
            Err(error) => {
                return Err(fail_with(error));
            },
        }
        let accepted: bool = match value.wait() {
            Some(wait) => wait.accepts_child(child_id),
            None => {
                return Err(
                    failure(ErrorCode::Validation, "flow is not waiting for child results"),
                );
            },
        };
        if !accepted {
            return Err(
                failure(ErrorCode::Validation, "child result does not belong to this flow wait"),
            );
        }
        Ok(value)
    }

    /// Records one successful child result of a loaded flow.
    pub fn record_wait_success(
        &self,
        flow_id: &str,
        loaded: CatgaResult<Option<FlowContinuation>>,
        child_id: &str,
        payload: Vec<u8>,
    ) -> (result: RuntimeStep)
        ensures
            result@ == self@.record_success_step(flow_id@, load_view(loaded), child_id@, payload@),
    {
        let value: FlowContinuation = match self.admit_child(loaded, child_id) {
            Ok(value) => value,
            Err(step) => {
                return step;
            },
        };
        let fits: bool = match value.wait() {
            Some(wait) => wait.accepts_payload_len(payload.len()),
            None => false,
        };
        if !fits {
            return failure(
                ErrorCode::Validation,
                "flow child result payload exceeds the supported bound",
            );
        }
        RuntimeStep::RecordSuccess {
            flow_id: flow_id.to_owned(),
            version: value.state().version(),
            child_id: child_id.to_owned(),
            payload,
        }
    }

    /// Records one failed child result of a loaded flow.
    pub fn record_wait_failure(
        &self,
        flow_id: &str,
        loaded: CatgaResult<Option<FlowContinuation>>,
        child_id: &str,
        error: CatgaError,
    ) -> (result: RuntimeStep)
        ensures
            result@ == self@.record_failure_step(flow_id@, load_view(loaded), child_id@, error@),
    {
        let value: FlowContinuation = match self.admit_child(loaded, child_id) {
            Ok(value) => value,
            Err(step) => {
                return step;
            },
        };
        RuntimeStep::RecordFailure {
            flow_id: flow_id.to_owned(),
            version: value.state().version(),
            child_id: child_id.to_owned(),
            failure: error,
        }
    }

    /// Turns a lookup by wait correlation into the flow to record against.
    pub fn correlated_flow(&self, found: CatgaResult<Option<FlowContinuation>>) -> (result:
        CatgaResult<String>)
        ensures
            text_view(result) == match load_view(found) {
                Err(failure) => Err(failure),
                Ok(None) => Err(
                    error::plain_error(
                        ErrorCode::NotFound,
                        "flow wait correlation does not exist"@,
                    ),
                ),
                Ok(Some(value)) => Ok::<Seq<char>, error::ErrorView>(value.state.id),
            },
    {
        match found {
            Err(error) => Err(error),
            Ok(None) => Err(
                CatgaError::new(ErrorCode::NotFound, "flow wait correlation does not exist"),
            ),
            Ok(Some(value)) => Ok(value.state().id().to_owned()),
        }
    }

    /// Goes on after a child result was stored, or lost against another writer.
    pub fn wait_recorded(&self, flow_id: &str, result: CatgaResult<bool>) -> (step: RuntimeStep)
        ensures
            step@ == self@.wait_recorded_step(flow_id@, error::flag_result(result)),
    {
        match result {
            Err(error) => fail_with(error),
            Ok(recorded) => if recorded {
                RuntimeStep::Load { flow_id: flow_id.to_owned() }
            } else {
                RuntimeStep::Reload { flow_id: flow_id.to_owned() }
            },
        }
    }
}

/// The version that a step writes is the successor of the version that it expects.
pub open spec fn is_fenced(step: RuntimeStepView) -> bool {
    match step {
        RuntimeStepView::Create { continuation } => continuation.state.version == 0,
        RuntimeStepView::Claim { expected, next } => next.state.version == expected.state.version
            + 1,
        RuntimeStepView::Update { expected_version, next, .. } => next.state.version
            == expected_version + 1,
        RuntimeStepView::RecordSchedule { pending, scheduled } => scheduled.state.version
            == pending.state.version + 1,
        RuntimeStepView::StoreCancelled { expected_version, cancelled, .. } =>
            cancelled.state.version == expected_version + 1,
        _ => true,
    }
}

/// Whether a written continuation is still the same flow with the same input.
pub open spec fn same_flow(
    before: continuation::ContinuationView,
    after: continuation::ContinuationView,
) -> bool {
    &&& after.state.id == before.state.id
    &&& after.state.flow_type == before.state.flow_type
    &&& after.state.data == before.state.data
    &&& after.created_at == before.created_at
}

/// Whether whatever a step writes is still the same flow with the same input.
pub open spec fn keeps_flow(
    value: continuation::ContinuationView,
    step: RuntimeStepView,
) -> bool {
    match step {
        RuntimeStepView::Claim { next, .. } => same_flow(value, next),
        RuntimeStepView::Update { next, .. } => same_flow(value, next),
        RuntimeStepView::RecordSchedule { scheduled, .. } => same_flow(value, scheduled),
        RuntimeStepView::StoreCancelled { cancelled, .. } => same_flow(value, cancelled),
        _ => true,
    }
}

/// Every write of the runtime advances the version by one and keeps the identity, type, input
/// and creation time of its flow.
pub proof fn lemma_writes_are_fenced(
    runtime: RuntimeView,
    value: continuation::ContinuationView,
    attempt: usize,
    after: AfterUpdate,
    flag: Result<bool, error::ErrorView>,
    executed: Result<definition::OutcomeView, error::ErrorView>,
    schedule: Result<Seq<char>, error::ErrorView>,
    rollback: Result<(), error::ErrorView>,
    at: int,
    now: int,
)
    ensures
        ({
            let loaded = Ok::<Option<continuation::ContinuationView>, error::ErrorView>(
                Some(value),
            );
            let resumed = runtime.resume_step(loaded, at, now);
            let cancelled = runtime.cancel_step(loaded, now);
            let claimed = runtime.claimed_step(value, flag, now);
            let stepped = runtime.executed_step(value, attempt, executed, now);
            let renewed = runtime.renewed_step(value, attempt, flag, now);
            let updated = runtime.updated_step(value, after, flag, now);
            let scheduled = runtime.scheduled_step(value, schedule, now);
            let compensated = compensated_step(value, rollback, now);
            &&& is_fenced(resumed) && keeps_flow(value, resumed)
            &&& is_fenced(cancelled) && keeps_flow(value, cancelled)
            &&& is_fenced(claimed) && keeps_flow(value, claimed)
            &&& is_fenced(stepped) && keeps_flow(value, stepped)
            &&& is_fenced(renewed) && keeps_flow(value, renewed)
            &&& is_fenced(updated) && keeps_flow(value, updated)
            &&& is_fenced(scheduled) && keeps_flow(value, scheduled)
            &&& is_fenced(compensated) && keeps_flow(value, compensated)
        }),
{
}

/// A terminal flow is only observed: resuming it, cancelling it or recording a child result
/// writes nothing and returns the stored state.
pub proof fn lemma_terminal_flows_never_change(
    runtime: RuntimeView,
    value: continuation::ContinuationView,
    child_id: Seq<char>,
    at: int,
    now: int,
)
    requires
        value.state.status.spec_is_terminal(),
        runtime.definition_failure(value) is None,
    ensures
        ({
            let loaded = Ok::<Option<continuation::ContinuationView>, error::ErrorView>(
                Some(value),
            );
            &&& runtime.resume_step(loaded, at, now) == result_step(value.state)
            &&& runtime.cancel_step(loaded, now) == result_step(value.state)
            &&& runtime.wait_admission(loaded, child_id) == Err::<
                continuation::ContinuationView,
                RuntimeStepView,
            >(result_step(value.state))
        }),
{
}

/// Whether a pending wait, or a delay that has not passed, keeps a suspended flow from going on.
pub open spec fn is_held_back(value: continuation::ContinuationView, at: int) -> bool {
    match (value.wait, value.resume_at) {
        (Some(wait), _) => runtime_wait::wait_outcome(wait, at)
            == runtime_wait::EvaluationView::Pending,
        (None, Some(due_at)) => due_at > at,
        (None, None) => false,
    }
}

/// A suspended flow whose delay has not passed, or whose wait is pending, stays as it is.
pub proof fn lemma_early_resume_changes_nothing(
    runtime: RuntimeView,
    value: continuation::ContinuationView,
    at: int,
    now: int,
)
    requires
        value.state.status == FlowStatus::Suspended,
        runtime.definition_failure(value) is None,
        is_held_back(value, at),
    ensures
        runtime.resume_step(
            Ok::<Option<continuation::ContinuationView>, error::ErrorView>(Some(value)),
            at,
            now,
        ) == result_step(value.state),
{
}

/// What a resumption writes is stamped with the time of the clock, whatever instant it is judged
/// at: a claim is never stored as stale before its time.
pub proof fn lemma_resumption_is_stamped_with_the_clock(
    runtime: RuntimeView,
    value: continuation::ContinuationView,
    at: int,
    now: int,
)
    ensures
        ({
            let step = runtime.resume_step(
                Ok::<Option<continuation::ContinuationView>, error::ErrorView>(Some(value)),
                at,
                now,
            );
            &&& step matches RuntimeStepView::Claim { next, .. } ==> next.state.heartbeat == now
                && next.updated_at == now
            &&& step matches RuntimeStepView::Update { next, .. } ==> next.updated_at == now
        }),
{
}

/// The rollbacks that a flow runs, one after the other, while each succeeds and is stored.
pub open spec fn rollback_order(value: continuation::ContinuationView, now: int) -> Seq<Seq<char>>
    decreases value.compensations.len(),
{
    match compensate_step(value, now) {
        RuntimeStepView::Compensate { step_name, .. } => match compensated_step(
            value,
            Ok(()),
            now,
        ) {
            RuntimeStepView::Update { next, .. } => if next.compensations.len()
                < value.compensations.len() {
                seq![step_name] + rollback_order(next, now)
            } else {
                seq![step_name]
            },
            _ => seq![step_name],
        },
        _ => Seq::empty(),
    }
}

/// The step after the last rollback, while each succeeds and is stored.
pub open spec fn rollback_end(value: continuation::ContinuationView, now: int) -> RuntimeStepView
    decreases value.compensations.len(),
{
    match compensate_step(value, now) {
        RuntimeStepView::Compensate { .. } => match compensated_step(value, Ok(()), now) {
            RuntimeStepView::Update { next, .. } => if next.compensations.len()
                < value.compensations.len() {
                rollback_end(next, now)
            } else {
                compensated_step(value, Ok(()), now)
            },
            other => other,
        },
        other => other,
    }
}

/// A failing flow rolls its completed steps back in reverse order and then stores the original
/// failure.
pub proof fn lemma_rollback_is_in_reverse(
    value: continuation::ContinuationView,
    failure: error::ErrorView,
    now: int,
)
    requires
        value.state.error == Some(failure),
        value.state.version + value.compensations.len() < i64::MAX,
    ensures
        rollback_order(value, now) == value.compensations.reverse(),
        rollback_end(value, now) matches RuntimeStepView::Update { next, after, .. }
            && next.state.status == FlowStatus::Failed && next.state.error == Some(failure) && after
            == AfterUpdate::Return && next.compensations.len() == 0,
    decreases value.compensations.len(),
{
    if value.compensations.len() == 0 {
        assert(value.compensations.reverse() =~= Seq::empty());
        assert(rollback_order(value, now) =~= Seq::empty());
    } else {
        let last = value.compensations.last();
        let init = value.compensations.drop_last();
        let next = value.complete_compensation(now).with_state(
            value.state.compensating().advanced(),
            now,
        );
        assert(compensated_step(value, Ok(()), now) == (RuntimeStepView::Update {
            expected_version: value.state.version,
            next,
            after: AfterUpdate::Compensate,
        }));
        lemma_rollback_is_in_reverse(next, failure, now);
        assert(seq![last] + init.reverse() =~= value.compensations.reverse());
    }
}

} // verus!
