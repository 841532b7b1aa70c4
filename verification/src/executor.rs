//! Durable flows that run as one unit of work under optimistic ownership.
//!
//! Each method of [`FlowExecutor`] takes what the last effect returned and answers with the next
//! [`ExecutorStep`].

use vstd::prelude::*;

use crate::error;
use crate::error::{CatgaError, CatgaResult, ErrorCode};
use crate::local;
use crate::local::FlowResult;
use crate::runtime_wait;
use crate::runtime_wait::is_stale;
use crate::state;
use crate::state::{FlowState, FlowStatus};
use crate::text::same_text;
use crate::time::{Duration, Timestamp};

verus! {

/// Executes durable flows with optimistic ownership and explicit heartbeats.
#[derive(Debug)]
pub struct FlowExecutor {
    owner: String,
    stale_after: Duration,
}

/// Mathematical model of a [`FlowExecutor`].
pub struct ExecutorView {
    pub owner: Seq<char>,
    pub stale_after: int,
}

impl View for FlowExecutor {
    type V = ExecutorView;

    closed spec fn view(&self) -> ExecutorView {
        ExecutorView { owner: self.owner@, stale_after: self.stale_after@ }
    }
}

/// Policy for supervised durable-flow heartbeats.
#[derive(Clone, Copy, Debug, PartialEq, Eq, Structural)]
pub struct FlowHeartbeatOptions {
    /// Longest time between ownership heartbeats while work is pending.
    pub interval: Duration,
}

impl FlowHeartbeatOptions {
    /// Validates and creates a heartbeat policy.
    pub fn new(interval: Duration) -> (result: CatgaResult<Self>)
        ensures
            match result {
                Ok(options) => interval@ != 0 && options.interval == interval,
                Err(failure) => interval@ == 0 && failure@ == error::validation(
                    "flow heartbeat interval must be greater than zero"@,
                ),
            },
    {
        if interval.is_zero() {
            return Err(
                CatgaError::new(
                    ErrorCode::Validation,
                    "flow heartbeat interval must be greater than zero",
                ),
            );
        }
        Ok(FlowHeartbeatOptions { interval })
    }
}

/// Bounded stale-flow recovery policy.
#[derive(Clone, Copy, Debug, PartialEq, Eq, Structural)]
pub struct FlowRecoveryOptions {
    /// Largest number of stale flows claimed in one recovery sweep.
    pub max_claims: usize,
    /// Delay between successful recovery sweeps.
    pub poll_interval: Duration,
}

/// Why a recovery policy is rejected, or `None` where it is not.
pub open spec fn recovery_failure(max_claims: usize, poll_interval: int) -> Option<Seq<char>> {
    if max_claims == 0 {
        Some("flow recovery max_claims must be greater than zero"@)
    } else if poll_interval == 0 {
        Some("flow recovery poll_interval must be greater than zero"@)
    } else {
        None
    }
}

impl FlowRecoveryOptions {
    /// Validates and creates a bounded recovery policy.
    pub fn new(max_claims: usize, poll_interval: Duration) -> (result: CatgaResult<Self>)
        ensures
            match (result, recovery_failure(max_claims, poll_interval@)) {
                (Ok(options), None) => options == (FlowRecoveryOptions {
                    max_claims,
                    poll_interval,
                }),
                (Err(failure), Some(message)) => failure@ == error::validation(message),
                _ => false,
            },
    {
        if max_claims == 0 {
            return Err(
                CatgaError::new(
                    ErrorCode::Validation,
                    "flow recovery max_claims must be greater than zero",
                ),
            );
        }
        if poll_interval.is_zero() {
            return Err(
                CatgaError::new(
                    ErrorCode::Validation,
                    "flow recovery poll_interval must be greater than zero",
                ),
            );
        }
        Ok(FlowRecoveryOptions { max_claims, poll_interval })
    }
}

/// The next effect of a recovery sweep.
#[derive(Debug)]
pub enum RecoveryStep {
    /// Claim one stale flow, then call [`RecoverySweep::claimed`].
    Claim(RecoverySweep),
    /// Run the work on the claimed flow and store its result, then call
    /// [`RecoverySweep::recovered`].
    Run { sweep: RecoverySweep, state: FlowState },
    /// The sweep ends with the number of recovered flows.
    Finish(CatgaResult<usize>),
}

/// Mathematical model of a [`RecoveryStep`].
pub enum RecoveryStepView {
    Claim(RecoverySweep),
    Run { sweep: RecoverySweep, state: state::FlowStateView },
    Finish(Result<usize, error::ErrorView>),
}

impl View for RecoveryStep {
    type V = RecoveryStepView;

    open spec fn view(&self) -> RecoveryStepView {
        match *self {
            RecoveryStep::Claim(sweep) => RecoveryStepView::Claim(sweep),
            RecoveryStep::Run { sweep, state } => RecoveryStepView::Run { sweep, state: state@ },
            RecoveryStep::Finish(Ok(recovered)) => RecoveryStepView::Finish(Ok(recovered)),
            RecoveryStep::Finish(Err(failure)) => RecoveryStepView::Finish(Err(failure@)),
        }
    }
}

/// A bounded sweep over stale flows.
#[derive(Clone, Copy, Debug, PartialEq, Eq, Structural)]
pub struct RecoverySweep {
    pub recovered: usize,
    pub max_claims: usize,
}

impl RecoverySweep {
    /// What a sweep does after some flows.
    pub open spec fn step_at(self) -> RecoveryStepView {
        if self.recovered < self.max_claims {
            RecoveryStepView::Claim(self)
        } else {
            RecoveryStepView::Finish(Ok(self.recovered))
        }
    }

    /// What follows the attempt to claim a flow.
    pub open spec fn after_claim(
        self,
        result: Result<Option<state::FlowStateView>, error::ErrorView>,
    ) -> RecoveryStepView {
        match result {
            Err(failure) => RecoveryStepView::Finish(Err(failure)),
            Ok(None) => RecoveryStepView::Finish(Ok(self.recovered)),
            Ok(Some(state)) => RecoveryStepView::Run { sweep: self, state },
        }
    }

    /// What follows the work on a claimed flow, whose own failure is a result.
    pub open spec fn after_run(
        self,
        result: Result<local::FlowResultView, error::ErrorView>,
    ) -> RecoveryStepView {
        match result {
            Err(failure) => RecoveryStepView::Finish(Err(failure)),
            Ok(_) => RecoverySweep {
                recovered: if self.recovered < usize::MAX {
                    (self.recovered + 1) as usize
                } else {
                    self.recovered
                },
                ..self
            }.step_at(),
        }
    }

    fn step(self) -> (step: RecoveryStep)
        ensures
            step@ == self.step_at(),
    {
        if self.recovered < self.max_claims {
            RecoveryStep::Claim(self)
        } else {
            RecoveryStep::Finish(Ok(self.recovered))
        }
    }

    /// Goes on after the attempt to claim a flow.
    pub fn claimed(self, result: CatgaResult<Option<FlowState>>) -> (step: RecoveryStep)
        ensures
            step@ == self.after_claim(state_result(result)),
    {
        match result {
            Err(failure) => RecoveryStep::Finish(Err(failure)),
            Ok(None) => RecoveryStep::Finish(Ok(self.recovered)),
            Ok(Some(state)) => RecoveryStep::Run { sweep: self, state },
        }
    }

    /// Goes on after the result of a claimed flow was stored, or could not be.
    pub fn recovered(self, result: CatgaResult<FlowResult>) -> (step: RecoveryStep)
        ensures
            step@ == self.after_run(execution_result(result)),
    {
        match result {
            Err(failure) => RecoveryStep::Finish(Err(failure)),
            Ok(_) => {
                let recovered: usize = if self.recovered < usize::MAX {
                    self.recovered + 1
                } else {
                    self.recovered
                };
                RecoverySweep { recovered, max_claims: self.max_claims }.step()
            },
        }
    }
}

/// A whole sweep in which every claim succeeds and every result is stored.
pub open spec fn whole_sweep(step: RecoveryStepView, stored: spec_fn(int) -> bool) -> nat
    decreases
            match step {
                RecoveryStepView::Claim(sweep) => sweep.max_claims - sweep.recovered,
                _ => 0,
            },
{
    match step {
        RecoveryStepView::Claim(sweep) if sweep.recovered < sweep.max_claims => if stored(
            sweep.recovered as int,
        ) {
            let next = sweep.after_run(Ok(local::FlowResultView::success(0)));
            1 + whole_sweep(next, stored)
        } else {
            1
        },
        _ => 0,
    }
}

/// A sweep claims at most the permitted number of flows.
pub proof fn lemma_sweeps_are_bounded(sweep: RecoverySweep, stored: spec_fn(int) -> bool)
    requires
        sweep.recovered <= sweep.max_claims,
    ensures
        whole_sweep(sweep.step_at(), stored) <= sweep.max_claims - sweep.recovered,
    decreases sweep.max_claims - sweep.recovered,
{
    if sweep.recovered < sweep.max_claims && stored(sweep.recovered as int) {
        let next = RecoverySweep { recovered: (sweep.recovered + 1) as usize, ..sweep };
        lemma_sweeps_are_bounded(next, stored);
    }
}

/// The next effect of an execution.
#[derive(Debug)]
pub enum ExecutorStep {
    /// Create the state unless its flow exists, then call [`FlowExecutor::created`].
    Create { initial: FlowState },
    /// Load the flow, then call [`FlowExecutor::existing_loaded`].
    Load { initial: FlowState },
    /// Replace the state of the expected version by the claim, then call
    /// [`FlowExecutor::claim_stored`].
    StoreClaim { expected_version: i64, claimed: FlowState },
    /// Load the flow, then call [`FlowExecutor::lost_claim_loaded`].
    LoadLostClaim { id: String },
    /// Run the work, then call [`FlowExecutor::work_finished`]; or, while the liveness of the
    /// owner is recorded, call [`FlowExecutor::work_supervised`] with each event.
    Run { state: FlowState },
    /// Replace the state of the expected version by `next`, then call
    /// [`FlowExecutor::result_stored`].
    StoreResult { state: FlowState, next: FlowState, result: FlowResult },
    /// Load the flow, then call [`FlowExecutor::result_reloaded`].
    LoadForResult { state: FlowState, result: FlowResult },
    /// The execution ends with this result.
    Finish(CatgaResult<FlowResult>),
}

/// Mathematical model of an [`ExecutorStep`].
pub enum ExecutorStepView {
    Create { initial: state::FlowStateView },
    Load { initial: state::FlowStateView },
    StoreClaim { expected_version: i64, claimed: state::FlowStateView },
    LoadLostClaim { id: Seq<char> },
    Run { state: state::FlowStateView },
    StoreResult {
        state: state::FlowStateView,
        next: state::FlowStateView,
        result: local::FlowResultView,
    },
    LoadForResult { state: state::FlowStateView, result: local::FlowResultView },
    Finish(Result<local::FlowResultView, error::ErrorView>),
}

/// The model of the result of an execution.
pub open spec fn execution_result(result: CatgaResult<FlowResult>) -> Result<
    local::FlowResultView,
    error::ErrorView,
> {
    match result {
        Ok(result) => Ok(result@),
        Err(failure) => Err(failure@),
    }
}

/// The model of a loaded state.
pub open spec fn state_result(result: CatgaResult<Option<FlowState>>) -> Result<
    Option<state::FlowStateView>,
    error::ErrorView,
> {
    match result {
        Ok(Some(state)) => Ok(Some(state@)),
        Ok(None) => Ok(None),
        Err(failure) => Err(failure@),
    }
}

impl View for ExecutorStep {
    type V = ExecutorStepView;

    open spec fn view(&self) -> ExecutorStepView {
        match *self {
            ExecutorStep::Create { initial } => ExecutorStepView::Create { initial: initial@ },
            ExecutorStep::Load { initial } => ExecutorStepView::Load { initial: initial@ },
            ExecutorStep::StoreClaim { expected_version, claimed } =>
                ExecutorStepView::StoreClaim { expected_version, claimed: claimed@ },
            ExecutorStep::LoadLostClaim { id } => ExecutorStepView::LoadLostClaim { id: id@ },
            ExecutorStep::Run { state } => ExecutorStepView::Run { state: state@ },
            ExecutorStep::StoreResult { state, next, result } => ExecutorStepView::StoreResult {
                state: state@,
                next: next@,
                result: result@,
            },
            ExecutorStep::LoadForResult { state, result } => ExecutorStepView::LoadForResult {
                state: state@,
                result: result@,
            },
            ExecutorStep::Finish(result) => ExecutorStepView::Finish(execution_result(result)),
        }
    }
}

/// The step that ends with a failure that a later attempt may not meet.
pub open spec fn transient(message: Seq<char>) -> ExecutorStepView {
    ExecutorStepView::Finish(Err(error::plain_error(ErrorCode::Transient, message)))
}

fn fail(code: ErrorCode, message: &str) -> (step: ExecutorStep)
    ensures
        step@ == ExecutorStepView::Finish(Err(error::plain_error(code, message@))),
{
    ExecutorStep::Finish(Err(CatgaError::new(code, message)))
}

/// The terminal state that keeps a result, before it gets its version.
pub open spec fn terminal_state(
    state: state::FlowStateView,
    result: local::FlowResultView,
) -> state::FlowStateView {
    match result.error {
        Some(failure) => state.at_step(result.completed_steps).failed(failure),
        None => state.done(result.completed_steps),
    }
}

/// The result that a terminal state keeps, where the state is terminal.
pub open spec fn terminal_result(state: state::FlowStateView) -> Option<
    Result<local::FlowResultView, error::ErrorView>,
> {
    match state.status {
        FlowStatus::Done => Some(Ok(local::FlowResultView::success(state.step))),
        FlowStatus::Failed => match state.error {
            Some(failure) => Some(Ok(local::FlowResultView::failure(state.step, failure))),
            None => Some(
                Err(
                    error::plain_error(
                        ErrorCode::Internal,
                        "a failed flow has no stored error"@,
                    ),
                ),
            ),
        },
        FlowStatus::Cancelled => Some(
            Ok(
                local::FlowResultView::failure(
                    state.step,
                    error::plain_error(ErrorCode::Cancelled, "flow was cancelled"@),
                ),
            ),
        ),
        FlowStatus::Running | FlowStatus::Compensating | FlowStatus::Suspended => None,
    }
}

/// Stores a result in a terminal state at the following version.
fn finished_state(state: &FlowState, result: &FlowResult) -> (next: CatgaResult<FlowState>)
    ensures
        match next {
            Ok(next) => state@.can_advance() && next@ == terminal_state(
                state@,
                result@,
            ).advanced(),
            Err(failure) => !state@.can_advance() && failure@ == state::version_exhausted(),
        },
{
    match result.error() {
        Some(failure) => state.clone().at_step(result.completed_steps()).failed(
            failure.clone(),
        ).next_version(),
        None => state.clone().done(result.completed_steps()).next_version(),
    }
}

/// Reads the result that a terminal state keeps.
fn stored_result(state: &FlowState) -> (result: Option<CatgaResult<FlowResult>>)
    ensures
        match (result, terminal_result(state@)) {
            (Some(result), Some(expected)) => execution_result(result) == expected,
            (None, None) => true,
            _ => false,
        },
{
    match state.status() {
        FlowStatus::Done => Some(Ok(FlowResult::success(state.step()))),
        FlowStatus::Failed => match state.error() {
            Some(failure) => Some(Ok(FlowResult::failure(state.step(), failure.clone()))),
            None => Some(
                Err(CatgaError::new(ErrorCode::Internal, "a failed flow has no stored error")),
            ),
        },
        FlowStatus::Cancelled => Some(
            Ok(
                FlowResult::failure(
                    state.step(),
                    CatgaError::new(ErrorCode::Cancelled, "flow was cancelled"),
                ),
            ),
        ),
        FlowStatus::Running | FlowStatus::Compensating | FlowStatus::Suspended => None,
    }
}

/// What follows work that returned a result.
pub open spec fn store_step(
    state: state::FlowStateView,
    result: local::FlowResultView,
) -> ExecutorStepView {
    if state.can_advance() {
        ExecutorStepView::StoreResult {
            state,
            next: terminal_state(state, result).advanced(),
            result,
        }
    } else {
        ExecutorStepView::Finish(Err(state::version_exhausted()))
    }
}

/// The result of work that ran on a state: a failure of the work is a result of the flow.
pub open spec fn work_result(
    state: state::FlowStateView,
    outcome: Result<local::FlowResultView, error::ErrorView>,
) -> local::FlowResultView {
    match outcome {
        Ok(result) => result,
        Err(failure) => local::FlowResultView::failure(state.step, failure),
    }
}

/// What happened while supervised work ran.
#[derive(Debug)]
pub enum WorkEvent {
    /// The work returned.
    Finished(CatgaResult<FlowResult>),
    /// The caller cancelled it.
    Cancelled,
    /// The liveness of the owner was recorded, or could not be.
    Heartbeat(CatgaResult<bool>),
}

/// Mathematical model of a [`WorkEvent`].
pub enum WorkEventView {
    Finished(Result<local::FlowResultView, error::ErrorView>),
    Cancelled,
    Heartbeat(Result<bool, error::ErrorView>),
}

impl View for WorkEvent {
    type V = WorkEventView;

    open spec fn view(&self) -> WorkEventView {
        match *self {
            WorkEvent::Finished(outcome) => WorkEventView::Finished(execution_result(outcome)),
            WorkEvent::Cancelled => WorkEventView::Cancelled,
            WorkEvent::Heartbeat(result) => WorkEventView::Heartbeat(error::flag_result(result)),
        }
    }
}

/// How supervised work goes on.
#[derive(Debug)]
pub enum WorkStep {
    /// Wait for the next event.
    Continue { state: FlowState },
    /// Drop the work; the execution goes on with this step.
    End(ExecutorStep),
}

/// Mathematical model of a [`WorkStep`].
pub enum WorkStepView {
    Continue { state: state::FlowStateView },
    End(ExecutorStepView),
}

impl View for WorkStep {
    type V = WorkStepView;

    open spec fn view(&self) -> WorkStepView {
        match *self {
            WorkStep::Continue { state } => WorkStepView::Continue { state: state@ },
            WorkStep::End(step) => WorkStepView::End(step@),
        }
    }
}

/// What follows an event of supervised work.
pub open spec fn after_work_event(state: state::FlowStateView, event: WorkEventView) -> WorkStepView {
    match event {
        WorkEventView::Finished(outcome) => WorkStepView::End(
            store_step(state, work_result(state, outcome)),
        ),
        WorkEventView::Cancelled => WorkStepView::End(
            ExecutorStepView::Finish(
                Err(error::plain_error(ErrorCode::Cancelled, "durable flow work was cancelled"@)),
            ),
        ),
        WorkEventView::Heartbeat(Ok(true)) => WorkStepView::Continue { state },
        WorkEventView::Heartbeat(Ok(false)) => WorkStepView::End(
            ExecutorStepView::Finish(
                Err(
                    error::plain_error(
                        ErrorCode::Conflict,
                        "durable flow ownership was lost while heartbeating"@,
                    ),
                ),
            ),
        ),
        WorkEventView::Heartbeat(Err(failure)) => WorkStepView::End(
            ExecutorStepView::Finish(Err(failure)),
        ),
    }
}

impl ExecutorView {
    /// What follows the creation of a flow.
    pub open spec fn after_create(
        self,
        initial: state::FlowStateView,
        result: Result<bool, error::ErrorView>,
    ) -> ExecutorStepView {
        match result {
            Err(failure) => ExecutorStepView::Finish(Err(failure)),
            Ok(true) => ExecutorStepView::Run { state: initial },
            Ok(false) => ExecutorStepView::Load { initial },
        }
    }

    /// What follows the load of a flow that existed: a terminal flow is answered with its result,
    /// and only a stale one is claimed.
    pub open spec fn after_load(
        self,
        initial: state::FlowStateView,
        loaded: Result<Option<state::FlowStateView>, error::ErrorView>,
        now: int,
    ) -> ExecutorStepView {
        match loaded {
            Err(failure) => ExecutorStepView::Finish(Err(failure)),
            Ok(None) => transient("flow disappeared before it could be loaded"@),
            Ok(Some(current)) => if current.flow_type != initial.flow_type {
                ExecutorStepView::Finish(
                    Err(
                        error::plain_error(
                            ErrorCode::Conflict,
                            "a flow with this identity has a different type"@,
                        ),
                    ),
                )
            } else if let Some(result) = terminal_result(current) {
                ExecutorStepView::Finish(result)
            } else if !runtime_wait::stale(current.heartbeat, now, self.stale_after) {
                transient("flow is already running on another owner"@)
            } else if !current.can_advance() {
                ExecutorStepView::Finish(Err(state::version_exhausted()))
            } else {
                ExecutorStepView::StoreClaim {
                    expected_version: current.version,
                    claimed: current.claimed_by(self.owner, now).advanced(),
                }
            },
        }
    }

    /// What follows the storing of a claim.
    pub open spec fn after_claim(
        self,
        claimed: state::FlowStateView,
        result: Result<bool, error::ErrorView>,
    ) -> ExecutorStepView {
        match result {
            Err(failure) => ExecutorStepView::Finish(Err(failure)),
            Ok(true) => ExecutorStepView::Run { state: claimed },
            Ok(false) => ExecutorStepView::LoadLostClaim { id: claimed.id },
        }
    }

    /// What follows the load of a flow that another owner claimed first.
    pub open spec fn after_lost_claim(
        self,
        loaded: Result<Option<state::FlowStateView>, error::ErrorView>,
    ) -> ExecutorStepView {
        match loaded {
            Err(failure) => ExecutorStepView::Finish(Err(failure)),
            Ok(None) => transient("flow disappeared while ownership was changing"@),
            Ok(Some(current)) => match terminal_result(current) {
                Some(result) => ExecutorStepView::Finish(result),
                None => transient("flow ownership changed before execution began"@),
            },
        }
    }

    /// What follows the storing of a result.
    pub open spec fn after_result(
        self,
        state: state::FlowStateView,
        outcome: local::FlowResultView,
        result: Result<bool, error::ErrorView>,
    ) -> ExecutorStepView {
        match result {
            Err(failure) => ExecutorStepView::Finish(Err(failure)),
            Ok(true) => ExecutorStepView::Finish(Ok(outcome)),
            Ok(false) => ExecutorStepView::LoadForResult { state, result: outcome },
        }
    }

    /// What follows the load of a flow whose result could not be stored. A flow that this
    /// executor still owns was only renewed by a heartbeat, so the result is stored once more.
    pub open spec fn after_reload(
        self,
        state: state::FlowStateView,
        outcome: local::FlowResultView,
        loaded: Result<Option<state::FlowStateView>, error::ErrorView>,
    ) -> ExecutorStepView {
        match loaded {
            Err(failure) => ExecutorStepView::Finish(Err(failure)),
            Ok(None) => transient("flow disappeared while saving its result"@),
            Ok(Some(observed)) => if let Some(result) = terminal_result(observed) {
                ExecutorStepView::Finish(result)
            } else if observed.status == FlowStatus::Running && observed.owner == Some(self.owner)
                && observed.version == state.version {
                store_step(observed, outcome)
            } else {
                transient("flow ownership changed before its result was saved"@)
            },
        }
    }
}

impl FlowExecutor {
    /// Creates an executor owned by `owner`.
    pub fn new(owner: &str, stale_after: Duration) -> (result: Self)
        ensures
            result@ == (ExecutorView { owner: owner@, stale_after: stale_after@ }),
    {
        FlowExecutor { owner: owner.to_owned(), stale_after }
    }

    /// Returns the owner.
    pub fn owner(&self) -> (result: &str)
        ensures
            result@ == self@.owner,
    {
        self.owner.as_str()
    }

    /// Returns how long an unheartbeated flow remains exclusively owned.
    pub fn stale_after(&self) -> (result: Duration)
        ensures
            result@ == self@.stale_after,
    {
        self.stale_after
    }

    /// Starts to execute a new flow, or one that exists.
    pub fn execute(&self, id: &str, flow_type: &str, data: Vec<u8>, now: Timestamp) -> (step:
        ExecutorStep)
        ensures
            step@ == (ExecutorStepView::Create {
                initial: state::FlowStateView::initial(
                    id@,
                    flow_type@,
                    data@,
                    self@.owner,
                    now@,
                ),
            }),
    {
        ExecutorStep::Create {
            initial: FlowState::new(id, flow_type, data, self.owner.as_str(), now),
        }
    }

    /// Goes on after the flow was created, or existed.
    pub fn created(&self, initial: FlowState, result: CatgaResult<bool>) -> (step: ExecutorStep)
        ensures
            step@ == self@.after_create(initial@, error::flag_result(result)),
    {
        match result {
            Err(failure) => ExecutorStep::Finish(Err(failure)),
            Ok(created) => {
                if created {
                    ExecutorStep::Run { state: initial }
                } else {
                    ExecutorStep::Load { initial }
                }
            },
        }
    }

    /// Goes on after the existing flow was loaded.
    pub fn existing_loaded(
        &self,
        initial: FlowState,
        loaded: CatgaResult<Option<FlowState>>,
        now: Timestamp,
    ) -> (step: ExecutorStep)
        ensures
            step@ == self@.after_load(initial@, state_result(loaded), now@),
    {
        let current: FlowState = match loaded {
            Err(failure) => {
                return ExecutorStep::Finish(Err(failure));
            },
            Ok(None) => {
                return fail(ErrorCode::Transient, "flow disappeared before it could be loaded");
            },
            Ok(Some(current)) => current,
        };
        if !same_text(current.flow_type(), initial.flow_type()) {
            return fail(
                ErrorCode::Conflict,
                "a flow with this identity has a different type",
            );
        }
        match stored_result(&current) {
            Some(result) => {
                return ExecutorStep::Finish(result);
            },
            None => {},
        }
        if !is_stale(current.heartbeat(), now, self.stale_after) {
            return fail(ErrorCode::Transient, "flow is already running on another owner");
        }
        let expected_version: i64 = current.version();
        match current.claimed_by(self.owner.as_str(), now).next_version() {
            Err(failure) => ExecutorStep::Finish(Err(failure)),
            Ok(claimed) => ExecutorStep::StoreClaim { expected_version, claimed },
        }
    }

    /// Goes on after the claim was stored, or lost against another owner.
    pub fn claim_stored(&self, claimed: FlowState, result: CatgaResult<bool>) -> (step:
        ExecutorStep)
        ensures
            step@ == self@.after_claim(claimed@, error::flag_result(result)),
    {
        match result {
            Err(failure) => ExecutorStep::Finish(Err(failure)),
            Ok(stored) => {
                if stored {
                    ExecutorStep::Run { state: claimed }
                } else {
                    ExecutorStep::LoadLostClaim { id: claimed.id().to_owned() }
                }
            },
        }
    }

    /// Goes on after a flow was loaded that another owner claimed first.
    pub fn lost_claim_loaded(&self, loaded: CatgaResult<Option<FlowState>>) -> (step: ExecutorStep)
        ensures
            step@ == self@.after_lost_claim(state_result(loaded)),
    {
        match loaded {
            Err(failure) => ExecutorStep::Finish(Err(failure)),
            Ok(None) => fail(
                ErrorCode::Transient,
                "flow disappeared while ownership was changing",
            ),
            Ok(Some(current)) => match stored_result(&current) {
                Some(result) => ExecutorStep::Finish(result),
                None => fail(
                    ErrorCode::Transient,
                    "flow ownership changed before execution began",
                ),
            },
        }
    }

    fn store(&self, state: FlowState, result: FlowResult) -> (step: ExecutorStep)
        ensures
            step@ == store_step(state@, result@),
    {
        match finished_state(&state, &result) {
            Ok(next) => ExecutorStep::StoreResult { state, next, result },
            Err(failure) => ExecutorStep::Finish(Err(failure)),
        }
    }

    /// Goes on after the work ran on a state.
    pub fn work_finished(&self, state: FlowState, outcome: CatgaResult<FlowResult>) -> (step:
        ExecutorStep)
        ensures
            step@ == store_step(state@, work_result(state@, execution_result(outcome))),
    {
        let result: FlowResult = match outcome {
            Ok(result) => result,
            Err(failure) => FlowResult::failure(state.step(), failure),
        };
        self.store(state, result)
    }

    /// Goes on after the result was stored, or the record had changed.
    pub fn result_stored(
        &self,
        state: FlowState,
        outcome: FlowResult,
        result: CatgaResult<bool>,
    ) -> (step: ExecutorStep)
        ensures
            step@ == self@.after_result(state@, outcome@, error::flag_result(result)),
    {
        match result {
            Err(failure) => ExecutorStep::Finish(Err(failure)),
            Ok(stored) => {
                if stored {
                    ExecutorStep::Finish(Ok(outcome))
                } else {
                    ExecutorStep::LoadForResult { state, result: outcome }
                }
            },
        }
    }

    /// Goes on after a flow was loaded whose result could not be stored.
    pub fn result_reloaded(
        &self,
        state: FlowState,
        outcome: FlowResult,
        loaded: CatgaResult<Option<FlowState>>,
    ) -> (step: ExecutorStep)
        ensures
            step@ == self@.after_reload(state@, outcome@, state_result(loaded)),
    {
        let observed: FlowState = match loaded {
            Err(failure) => {
                return ExecutorStep::Finish(Err(failure));
            },
            Ok(None) => {
                return fail(ErrorCode::Transient, "flow disappeared while saving its result");
            },
            Ok(Some(observed)) => observed,
        };
        match stored_result(&observed) {
            Some(result) => {
                return ExecutorStep::Finish(result);
            },
            None => {},
        }
        if observed.status() == FlowStatus::Running && observed.is_owned_by(self.owner.as_str())
            && observed.version() == state.version() {
            return self.store(observed, outcome);
        }
        fail(ErrorCode::Transient, "flow ownership changed before its result was saved")
    }

    /// Starts a bounded sweep over stale flows.
    pub fn recover_stale(&self, options: FlowRecoveryOptions) -> (step: RecoveryStep)
        ensures
            step@ == (RecoverySweep { recovered: 0, max_claims: options.max_claims }).step_at(),
    {
        RecoverySweep { recovered: 0, max_claims: options.max_claims }.step()
    }

    /// Decides how work goes on while the liveness of its owner is recorded.
    ///
    /// Interrupted work stores nothing: its flow stays claimed until the claim is stale.
    pub fn work_supervised(&self, state: FlowState, event: WorkEvent) -> (step: WorkStep)
        ensures
            step@ == after_work_event(state@, event@),
    {
        match event {
            WorkEvent::Finished(outcome) => WorkStep::End(self.work_finished(state, outcome)),
            WorkEvent::Cancelled => WorkStep::End(
                fail(ErrorCode::Cancelled, "durable flow work was cancelled"),
            ),
            WorkEvent::Heartbeat(Err(failure)) => WorkStep::End(ExecutorStep::Finish(Err(failure))),
            WorkEvent::Heartbeat(Ok(owned)) => {
                if owned {
                    WorkStep::Continue { state }
                } else {
                    WorkStep::End(
                        fail(
                            ErrorCode::Conflict,
                            "durable flow ownership was lost while heartbeating",
                        ),
                    )
                }
            },
        }
    }
}

/// Work that ends for another reason than its own result stores nothing and fails, so that its
/// flow can be recovered once its claim is stale.
pub proof fn lemma_interrupted_work_stores_nothing(
    state: state::FlowStateView,
    event: WorkEventView,
)
    requires
        !(event is Finished),
    ensures
        match after_work_event(state, event) {
            WorkStepView::Continue { state: continued } => continued == state,
            WorkStepView::End(step) => step matches ExecutorStepView::Finish(Err(_)),
        },
{
}

/// A stored result is read back with its completed steps and its error, and without the time that
/// it took; a flow that has one is answered with it: its work is not run again.
pub proof fn lemma_results_are_kept(
    executor: ExecutorView,
    initial: state::FlowStateView,
    state: state::FlowStateView,
    result: local::FlowResultView,
    now: int,
)
    requires
        initial.flow_type == state.flow_type,
    ensures
        ({
            let stored = terminal_state(state, result).advanced();
            let kept = local::FlowResultView { elapsed: 0, ..result };
            &&& stored.status.spec_is_terminal()
            &&& terminal_result(stored) == Some(
                Ok::<local::FlowResultView, error::ErrorView>(kept),
            )
            &&& executor.after_load(initial, Ok(Some(stored)), now) == ExecutorStepView::Finish(
                Ok(kept),
            )
            &&& executor.after_lost_claim(Ok(Some(stored))) == ExecutorStepView::Finish(Ok(kept))
        }),
{
}

/// Every claim and every stored result follows the version that it replaces, and belongs to the
/// same flow with the same input; only a flow whose owner has been silent is claimed.
pub proof fn lemma_executor_writes_are_fenced(
    executor: ExecutorView,
    initial: state::FlowStateView,
    current: state::FlowStateView,
    result: local::FlowResultView,
    now: int,
)
    ensures
        executor.after_load(initial, Ok(Some(current)), now) matches ExecutorStepView::StoreClaim {
            expected_version,
            claimed,
        } ==> {
            &&& expected_version == current.version
            &&& claimed.version == current.version + 1
            &&& claimed.id == current.id && claimed.flow_type == current.flow_type && claimed.data
                == current.data
            &&& claimed.owner == Some(executor.owner)
            &&& !current.status.spec_is_terminal()
            &&& runtime_wait::stale(current.heartbeat, now, executor.stale_after)
        },
        store_step(current, result) matches ExecutorStepView::StoreResult { state, next, .. } ==> {
            &&& state == current
            &&& next.version == current.version + 1
            &&& next.id == current.id && next.flow_type == current.flow_type && next.data
                == current.data
            &&& next.status.spec_is_terminal()
        },
{
}

} // verus!
