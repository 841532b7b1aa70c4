//! Durable flow continuations.

use vstd::prelude::*;

use crate::error;
use crate::error::{clone_text_option, CatgaError, CatgaResult, ErrorCode};
use crate::record::Record;
use crate::state;
use crate::state::FlowState;
use crate::suspension;
use crate::suspension::{WaitCondition, MAX_FLOW_COMPENSATIONS};
use crate::time::Timestamp;

verus! {

/// Immutable flow state plus the named step needed to resume it.
#[derive(Debug)]
pub struct FlowContinuation {
    state: FlowState,
    step_name: String,
    wait: Option<WaitCondition>,
    resume_at: Option<Timestamp>,
    schedule_id: Option<String>,
    compensations: Vec<String>,
    created_at: Timestamp,
    updated_at: Timestamp,
}

/// Mathematical model of a [`FlowContinuation`].
pub struct ContinuationView {
    pub state: state::FlowStateView,
    pub step_name: Seq<char>,
    pub wait: Option<suspension::WaitView>,
    pub resume_at: Option<int>,
    pub schedule_id: Option<Seq<char>>,
    pub compensations: Seq<Seq<char>>,
    pub created_at: int,
    pub updated_at: int,
}

impl View for FlowContinuation {
    type V = ContinuationView;

    closed spec fn view(&self) -> ContinuationView {
        ContinuationView {
            state: self.state@,
            step_name: self.step_name@,
            wait: self.wait.deep_view(),
            resume_at: self.resume_at.deep_view(),
            schedule_id: error::text_option(self.schedule_id),
            compensations: self.compensations.deep_view(),
            created_at: self.created_at@,
            updated_at: self.updated_at@,
        }
    }
}

impl DeepView for FlowContinuation {
    type V = ContinuationView;

    open spec fn deep_view(&self) -> ContinuationView {
        self@
    }
}

impl ContinuationView {
    pub open spec fn new(state: state::FlowStateView, step_name: Seq<char>, now: int) -> Self {
        ContinuationView {
            state,
            step_name,
            wait: None,
            resume_at: None,
            schedule_id: None,
            compensations: Seq::empty(),
            created_at: now,
            updated_at: now,
        }
    }

    pub open spec fn delayed_until(self, resume_at: int, now: int) -> Self {
        ContinuationView {
            resume_at: Some(resume_at),
            wait: None,
            schedule_id: None,
            updated_at: now,
            ..self
        }
    }

    pub open spec fn with_schedule_id(self, schedule_id: Seq<char>, now: int) -> Self {
        ContinuationView { schedule_id: Some(schedule_id), updated_at: now, ..self }
    }

    pub open spec fn with_wait(self, wait: suspension::WaitView, now: int) -> Self {
        ContinuationView {
            wait: Some(wait),
            resume_at: None,
            schedule_id: None,
            updated_at: now,
            ..self
        }
    }

    pub open spec fn at_step(self, step_name: Seq<char>, now: int) -> Self {
        ContinuationView {
            step_name,
            wait: None,
            resume_at: None,
            schedule_id: None,
            updated_at: now,
            ..self
        }
    }

    pub open spec fn ready(self, now: int) -> Self {
        ContinuationView {
            wait: None,
            resume_at: None,
            schedule_id: None,
            updated_at: now,
            ..self
        }
    }

    pub open spec fn with_state(self, state: state::FlowStateView, now: int) -> Self {
        ContinuationView { state, updated_at: now, ..self }
    }

    /// Whether another rollback can be retained.
    pub open spec fn can_record_compensation(self) -> bool {
        self.compensations.len() != MAX_FLOW_COMPENSATIONS
    }

    pub open spec fn record_compensation(self, step_name: Seq<char>, now: int) -> Self {
        ContinuationView {
            compensations: self.compensations.push(step_name),
            updated_at: now,
            ..self
        }
    }

    /// The rollback that is due next: that of the step that completed last.
    pub open spec fn next_compensation(self) -> Option<Seq<char>> {
        if self.compensations.len() == 0 {
            None
        } else {
            Some(self.compensations.last())
        }
    }

    pub open spec fn complete_compensation(self, now: int) -> Self {
        ContinuationView {
            compensations: if self.compensations.len() == 0 {
                self.compensations
            } else {
                self.compensations.drop_last()
            },
            updated_at: now,
            ..self
        }
    }

    /// Whether the continuation may be persisted and decoded.
    pub open spec fn valid(self) -> bool {
        self.state.valid() && match self.wait {
            Some(wait) => wait.valid(),
            None => true,
        }
    }

    /// Why an invalid continuation is rejected.
    pub open spec fn rejection(self) -> error::ErrorView {
        if !self.state.valid() {
            state::oversized_data()
        } else {
            match self.wait {
                Some(wait) => wait.rejection(),
                None => state::oversized_data(),
            }
        }
    }
}

/// The rejection of a rollback beyond the retained bound.
pub open spec fn compensation_overflow() -> error::ErrorView {
    error::validation("flow compensation stack exceeds the supported bound"@)
}

fn clone_steps(steps: &Vec<String>) -> (copy: Vec<String>)
    ensures
        copy.deep_view() == steps.deep_view(),
{
    let copy: Vec<String> = steps.clone();
    assert(copy.deep_view() =~= steps.deep_view());
    copy
}

impl Clone for FlowContinuation {
    fn clone(&self) -> (result: Self)
        ensures
            result@ == self@,
    {
        FlowContinuation {
            state: self.state.clone(),
            step_name: self.step_name.clone(),
            wait: match &self.wait {
                Some(wait) => Some(wait.clone()),
                None => None,
            },
            resume_at: self.resume_at,
            schedule_id: clone_text_option(&self.schedule_id),
            compensations: clone_steps(&self.compensations),
            created_at: self.created_at,
            updated_at: self.updated_at,
        }
    }
}

impl FlowContinuation {
    /// Creates a continuation ready to execute `step_name`.
    pub fn new(state: FlowState, step_name: &str, now: Timestamp) -> (result: Self)
        ensures
            result@ == ContinuationView::new(state@, step_name@, now@),
    {
        let compensations: Vec<String> = Vec::new();
        assert(compensations.deep_view() =~= Seq::empty());
        FlowContinuation {
            state,
            step_name: step_name.to_owned(),
            wait: None,
            resume_at: None,
            schedule_id: None,
            compensations,
            created_at: now,
            updated_at: now,
        }
    }

    /// Creates a continuation suspended on `wait` at `step_name`.
    pub fn waiting(state: FlowState, step_name: &str, wait: WaitCondition, now: Timestamp) -> (result:
        Self)
        ensures
            result@ == (ContinuationView {
                wait: Some(wait@),
                ..ContinuationView::new(state@, step_name@, now@)
            }),
    {
        let compensations: Vec<String> = Vec::new();
        assert(compensations.deep_view() =~= Seq::empty());
        FlowContinuation {
            state,
            step_name: step_name.to_owned(),
            wait: Some(wait),
            resume_at: None,
            schedule_id: None,
            compensations,
            created_at: now,
            updated_at: now,
        }
    }

    /// Validates the durable continuation shape before it crosses a persistence boundary.
    pub fn validate(&self) -> (result: CatgaResult<()>)
        ensures
            match result {
                Ok(_) => self@.valid(),
                Err(failure) => !self@.valid() && failure@ == self@.rejection(),
            },
    {
        match self.state.validate() {
            Ok(_) => {},
            Err(failure) => {
                return Err(failure);
            },
        }
        match &self.wait {
            Some(wait) => wait.validate(),
            None => Ok(()),
        }
    }

    /// Returns the immutable durable flow state.
    pub fn state(&self) -> (result: &FlowState)
        ensures
            result@ == self@.state,
    {
        &self.state
    }

    /// Returns the registered step name to execute or resume.
    pub fn step_name(&self) -> (result: &str)
        ensures
            result@ == self@.step_name,
    {
        self.step_name.as_str()
    }

    /// Returns the active wait condition, when this continuation is waiting.
    pub fn wait(&self) -> (result: Option<&WaitCondition>)
        ensures
            match (result, self@.wait) {
                (Some(wait), Some(model)) => wait@ == model,
                (None, None) => true,
                _ => false,
            },
    {
        match &self.wait {
            Some(wait) => Some(wait),
            None => None,
        }
    }

    /// Returns the requested resume time, when this continuation is delayed.
    pub fn resume_at(&self) -> (result: Option<Timestamp>)
        ensures
            result.deep_view() == self@.resume_at,
    {
        self.resume_at
    }

    /// Returns when this durable continuation was created.
    pub fn created_at(&self) -> (result: Timestamp)
        ensures
            result@ == self@.created_at,
    {
        self.created_at
    }

    /// Returns when this durable continuation was most recently changed.
    pub fn updated_at(&self) -> (result: Timestamp)
        ensures
            result@ == self@.updated_at,
    {
        self.updated_at
    }

    /// Returns the cancellation identity of the delayed resume, when it has been scheduled.
    pub fn schedule_id(&self) -> (result: Option<&str>)
        ensures
            match (result, self@.schedule_id) {
                (Some(schedule_id), Some(model)) => schedule_id@ == model,
                (None, None) => true,
                _ => false,
            },
    {
        match &self.schedule_id {
            Some(schedule_id) => Some(schedule_id.as_str()),
            None => None,
        }
    }

    /// Returns forward steps whose rollback action is still required, in completion order.
    ///
    /// The runtime consumes the last entry first.
    pub fn compensation_steps(&self) -> (result: &Vec<String>)
        ensures
            result.deep_view() == self@.compensations,
    {
        &self.compensations
    }

    /// Returns a delayed copy that will resume at `resume_at`.
    pub fn delayed_until(self, resume_at: Timestamp, now: Timestamp) -> (result: Self)
        ensures
            result@ == self@.delayed_until(resume_at@, now@),
    {
        FlowContinuation {
            resume_at: Some(resume_at),
            wait: None,
            schedule_id: None,
            updated_at: now,
            ..self
        }
    }

    /// Returns a copy that retains the identity of its scheduled resume.
    pub fn with_schedule_id(self, schedule_id: &str, now: Timestamp) -> (result: Self)
        ensures
            result@ == self@.with_schedule_id(schedule_id@, now@),
    {
        FlowContinuation { schedule_id: Some(schedule_id.to_owned()), updated_at: now, ..self }
    }

    /// Returns a copy waiting on `wait`.
    pub fn with_wait(self, wait: WaitCondition, now: Timestamp) -> (result: Self)
        ensures
            result@ == self@.with_wait(wait@, now@),
    {
        FlowContinuation {
            wait: Some(wait),
            resume_at: None,
            schedule_id: None,
            updated_at: now,
            ..self
        }
    }

    /// Returns a ready-to-run copy at the next registered step.
    pub fn at_step(self, step_name: &str, now: Timestamp) -> (result: Self)
        ensures
            result@ == self@.at_step(step_name@, now@),
    {
        FlowContinuation {
            step_name: step_name.to_owned(),
            wait: None,
            resume_at: None,
            schedule_id: None,
            updated_at: now,
            ..self
        }
    }

    /// Clears delay and wait metadata before executing a ready continuation.
    pub fn ready(self, now: Timestamp) -> (result: Self)
        ensures
            result@ == self@.ready(now@),
    {
        FlowContinuation {
            wait: None,
            resume_at: None,
            schedule_id: None,
            updated_at: now,
            ..self
        }
    }

    /// Returns a copy whose flow state has been atomically advanced by a store.
    pub fn with_state(self, state: FlowState, now: Timestamp) -> (result: Self)
        ensures
            result@ == self@.with_state(state@, now@),
    {
        FlowContinuation { state, updated_at: now, ..self }
    }

    /// Retains a completed step whose rollback may be required.
    pub fn record_compensation(self, step_name: &str, now: Timestamp) -> (result: CatgaResult<
        Self,
    >)
        ensures
            match result {
                Ok(next) => self@.can_record_compensation() && next@ == self@.record_compensation(
                    step_name@,
                    now@,
                ),
                Err(failure) => !self@.can_record_compensation() && failure@
                    == compensation_overflow(),
            },
    {
        assert(self.compensations.deep_view().len() == self.compensations@.len());
        if self.compensations.len() == MAX_FLOW_COMPENSATIONS {
            return Err(
                CatgaError::new(
                    ErrorCode::Validation,
                    "flow compensation stack exceeds the supported bound",
                ),
            );
        }
        let mut compensations: Vec<String> = clone_steps(&self.compensations);
        let ghost before = compensations.deep_view();
        let step: String = step_name.to_owned();
        compensations.push(step);
        assert(compensations.deep_view() =~= before.push(step_name@));
        Ok(FlowContinuation { compensations, updated_at: now, ..self })
    }

    /// Returns the step whose rollback is due next.
    pub fn next_compensation(&self) -> (result: Option<&str>)
        ensures
            match (result, self@.next_compensation()) {
                (Some(step_name), Some(model)) => step_name@ == model,
                (None, None) => true,
                _ => false,
            },
    {
        if self.compensations.len() == 0 {
            None
        } else {
            Some(self.compensations[self.compensations.len() - 1].as_str())
        }
    }

    /// Drops the rollback that was due next.
    pub fn complete_compensation(self, now: Timestamp) -> (result: Self)
        ensures
            result@ == self@.complete_compensation(now@),
    {
        let mut compensations: Vec<String> = clone_steps(&self.compensations);
        let ghost before = compensations.deep_view();
        let _finished: Option<String> = compensations.pop();
        proof {
            if before.len() > 0 {
                assert(compensations.deep_view() =~= before.drop_last());
            } else {
                assert(compensations.deep_view() =~= before);
            }
        }
        FlowContinuation { compensations, updated_at: now, ..self }
    }
}

/// Rollbacks are consumed in the reverse order of their completion: what is recorded last is due
/// first, and completing it restores the rollbacks before it.
pub proof fn lemma_compensations_are_a_stack(
    continuation: ContinuationView,
    step_name: Seq<char>,
    now: int,
)
    ensures
        continuation.record_compensation(step_name, now).next_compensation() == Some(step_name),
        continuation.record_compensation(step_name, now).complete_compensation(now).compensations
            == continuation.compensations,
{
    assert(continuation.compensations.push(step_name).drop_last()
        =~= continuation.compensations);
}

/// The fields of a continuation, in their order.
pub type ContinuationFields = (
    (FlowState, (String, (Option<WaitCondition>, Option<Timestamp>))),
    (Option<String>, (Vec<String>, (Timestamp, Timestamp))),
);

/// The fields of a modelled continuation.
pub open spec fn continuation_fields(value: ContinuationView) -> (
    (state::FlowStateView, (Seq<char>, (Option<suspension::WaitView>, Option<int>))),
    (Option<Seq<char>>, (Seq<Seq<char>>, (int, int))),
) {
    (
        (value.state, (value.step_name, (value.wait, value.resume_at))),
        (value.schedule_id, (value.compensations, (value.created_at, value.updated_at))),
    )
}

/// A continuation is its fields in order; a reader rejects an invalid one.
impl Record for FlowContinuation {
    open spec fn fits(value: ContinuationView) -> bool {
        <ContinuationFields as Record>::fits(continuation_fields(value))
    }

    open spec fn valid(value: ContinuationView) -> bool {
        value.valid()
    }

    open spec fn layout(value: ContinuationView) -> Seq<u8> {
        <ContinuationFields as Record>::layout(continuation_fields(value))
    }

    open spec fn parse(bytes: Seq<u8>, at: int) -> Option<(ContinuationView, int)> {
        match <ContinuationFields as Record>::parse(bytes, at) {
            Some((fields, next)) => {
                let ((state, (step_name, (wait, resume_at))), rest) = fields;
                let (schedule_id, (compensations, (created_at, updated_at))) = rest;
                let continuation = ContinuationView {
                    state,
                    step_name,
                    wait,
                    resume_at,
                    schedule_id,
                    compensations,
                    created_at,
                    updated_at,
                };
                if continuation.valid() {
                    Some((continuation, next))
                } else {
                    None
                }
            },
            None => None,
        }
    }

    proof fn lemma_round_trip(value: ContinuationView, bytes: Seq<u8>, at: int) {
        <ContinuationFields as Record>::lemma_round_trip(continuation_fields(value), bytes, at);
    }

    proof fn lemma_progress(bytes: Seq<u8>, at: int) {
        <ContinuationFields as Record>::lemma_progress(bytes, at);
    }

    fn write(&self, out: &mut Vec<u8>) -> (written: bool) {
        let copy: FlowContinuation = self.clone();
        let fields: ContinuationFields = (
            (copy.state, (copy.step_name, (copy.wait, copy.resume_at))),
            (copy.schedule_id, (copy.compensations, (copy.created_at, copy.updated_at))),
        );
        assert(fields.deep_view() == continuation_fields(self@));
        fields.write(out)
    }

    fn read(bytes: &[u8], at: usize) -> (result: Option<(Self, usize)>) {
        match <ContinuationFields as Record>::read(bytes, at) {
            Some((fields, next)) => {
                let ((state, (step_name, (wait, resume_at))), rest) = fields;
                let (schedule_id, (compensations, (created_at, updated_at))) = rest;
                let continuation = FlowContinuation {
                    state,
                    step_name,
                    wait,
                    resume_at,
                    schedule_id,
                    compensations,
                    created_at,
                    updated_at,
                };
                match continuation.validate() {
                    Ok(_) => Some((continuation, next)),
                    Err(_) => None,
                }
            },
            None => None,
        }
    }
}

/// The changes of a flow: each sets what it is named after and the time of the change. A delay, a wait
/// and a step take the place of each other, so that a flow never waits for two things.
pub proof fn lemma_flows_wait_for_one_thing(
    value: ContinuationView,
    wait: suspension::WaitView,
    step_name: Seq<char>,
    schedule_id: Seq<char>,
    resume_at: int,
    now: int,
)
    ensures
        ({
            let delayed = value.delayed_until(resume_at, now);
            &&& delayed.resume_at == Some(resume_at)
            &&& delayed.wait is None
            &&& delayed.schedule_id is None
            &&& delayed.step_name == value.step_name
            &&& delayed.compensations == value.compensations
            &&& delayed.updated_at == now
        }),
        ({
            let waiting = value.with_wait(wait, now);
            &&& waiting.wait == Some(wait)
            &&& waiting.resume_at is None
            &&& waiting.schedule_id is None
            &&& waiting.step_name == value.step_name
            &&& waiting.compensations == value.compensations
            &&& waiting.updated_at == now
        }),
        ({
            let moved = value.at_step(step_name, now);
            &&& moved.step_name == step_name
            &&& moved.wait is None
            &&& moved.resume_at is None
            &&& moved.schedule_id is None
            &&& moved.compensations == value.compensations
            &&& moved.updated_at == now
        }),
        ({
            let ready = value.ready(now);
            &&& ready.wait is None
            &&& ready.resume_at is None
            &&& ready.schedule_id is None
            &&& ready.step_name == value.step_name
            &&& ready.compensations == value.compensations
            &&& ready.updated_at == now
        }),
        ({
            let scheduled = value.with_schedule_id(schedule_id, now);
            &&& scheduled.schedule_id == Some(schedule_id)
            &&& scheduled.resume_at == value.resume_at
            &&& scheduled.wait == value.wait
            &&& scheduled.step_name == value.step_name
            &&& scheduled.updated_at == now
        }),
{
}

/// Rollbacks are undone in the reverse of the order in which they were recorded: the one recorded last
/// comes next, and completing it brings back those that were there before. At most 1024 are recorded.
pub proof fn lemma_rollbacks_come_in_reverse(value: ContinuationView, step_name: Seq<char>, now: int)
    ensures
        value.record_compensation(step_name, now).next_compensation() == Some(step_name),
        value.record_compensation(step_name, now).complete_compensation(now).compensations
            =~= value.compensations,
        value.compensations.len() == 0 ==> value.next_compensation() is None,
        value.compensations.len() == 1024 ==> !value.can_record_compensation(),
        value.compensations.len() < 1024 ==> value.can_record_compensation(),
{
}

} // verus!
