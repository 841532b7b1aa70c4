//! What holds of every run of the durable flow runtime.
//!
//! The laws speak of the fields of stored continuations and of the registered steps of a
//! definition: which step runs next, what is stored, and who owns a flow.

use vstd::prelude::*;

use crate::continuation;
use crate::definition;
use crate::error;
use crate::error::ErrorCode;
use crate::runtime;
use crate::runtime::AfterUpdate;
use crate::runtime_wait;
use crate::search;
use crate::state;
use crate::state::FlowStatus;
use crate::suspension;
use crate::suspension::{WaitPolicy, MAX_FLOW_COMPENSATIONS};

verus! {

/// Whether a step only observes a flow: it ends with the stored state and writes nothing.
pub open spec fn only_observes(
    value: continuation::ContinuationView,
    step: runtime::RuntimeStepView,
) -> bool {
    step == runtime::RuntimeStepView::Finish(Ok(value.state))
}

/// Whether a step ends an operation with a failure of a kind, and writes nothing.
pub open spec fn refuses(code: ErrorCode, step: runtime::RuntimeStepView) -> bool {
    &&& step is Finish
    &&& step->Finish_0 is Err
    &&& step->Finish_0->Err_0.code == code
}

/// Whether a step takes a flow over for an owner: the flow keeps its place, its input and its
/// rollbacks, is no longer suspended, and is stored at the next version.
pub open spec fn takes_over(
    owner: Seq<char>,
    value: continuation::ContinuationView,
    now: int,
    step: runtime::RuntimeStepView,
) -> bool {
    &&& step is Claim
    &&& step->expected == value
    &&& step->Claim_next == continuation::ContinuationView {
        state: state::FlowStateView {
            status: if value.state.status == FlowStatus::Compensating {
                FlowStatus::Compensating
            } else {
                FlowStatus::Running
            },
            owner: Some(owner),
            heartbeat: now,
            version: (value.state.version + 1) as i64,
            ..value.state
        },
        wait: None,
        resume_at: None,
        schedule_id: None,
        updated_at: now,
        ..value
    }
}

/// Whether a step fails a flow: with rollbacks the flow is stored as compensating and rolled back,
/// without any it is stored as failed; either way with the failure and with its rollbacks.
pub open spec fn fails(
    value: continuation::ContinuationView,
    failure: error::ErrorView,
    now: int,
    step: runtime::RuntimeStepView,
) -> bool {
    &&& step is Update
    &&& step->Update_expected_version == value.state.version
    &&& step->Update_next.state.version == value.state.version + 1
    &&& step->Update_next.state.error == Some(failure)
    &&& step->Update_next.compensations == value.compensations
    &&& step->Update_next.step_name == value.step_name
    &&& step->Update_next.wait is None
    &&& step->Update_next.resume_at is None
    &&& step->Update_next.updated_at == now
    &&& if value.compensations.len() > 0 {
        step->Update_next.state.status == FlowStatus::Compensating && step->after
            == AfterUpdate::Compensate
    } else {
        &&& step->Update_next.state.status == FlowStatus::Failed
        &&& step->Update_next.state.owner is None
        &&& step->after == AfterUpdate::Return
    }
}

/// Whether a step completes a flow.
pub open spec fn completes(
    value: continuation::ContinuationView,
    step: runtime::RuntimeStepView,
) -> bool {
    &&& step is Update
    &&& step->Update_expected_version == value.state.version
    &&& step->Update_next.state.version == value.state.version + 1
    &&& step->Update_next.state.status == FlowStatus::Done
    &&& step->Update_next.state.error is None
    &&& step->Update_next.state.owner is None
    &&& step->Update_next.state.data == value.state.data
    &&& step->Update_next.state.step == if value.state.step < u32::MAX {
        (value.state.step + 1) as u32
    } else {
        u32::MAX
    }
    &&& step->Update_next.step_name == value.step_name
    &&& step->Update_next.compensations == value.compensations
    &&& step->after == AfterUpdate::Return
}

/// Whether a step moves a flow to another step, with some rollbacks: the move is stored as
/// suspended, without an owner, and counts one more completed step.
pub open spec fn moves(
    value: continuation::ContinuationView,
    step_name: Seq<char>,
    rollbacks: Seq<Seq<char>>,
    wait: Option<suspension::WaitView>,
    resume_at: Option<int>,
    after: AfterUpdate,
    step: runtime::RuntimeStepView,
) -> bool {
    &&& step is Update
    &&& step->Update_expected_version == value.state.version
    &&& step->Update_next.state.version == value.state.version + 1
    &&& step->Update_next.state.status == FlowStatus::Suspended
    &&& step->Update_next.state.owner is None
    &&& step->Update_next.state.step == if value.state.step < u32::MAX {
        (value.state.step + 1) as u32
    } else {
        u32::MAX
    }
    &&& step->Update_next.step_name == step_name
    &&& step->Update_next.compensations == rollbacks
    &&& step->Update_next.wait == wait
    &&& step->Update_next.resume_at == resume_at
    &&& step->Update_next.schedule_id is None
    &&& step->after == after
}

/// A resumption only observes a flow that has ended, that another owner reports on, that waits for
/// children or whose delay is not over; it takes over a flow whose owner has fallen silent, and a
/// suspended flow whose wait is ready and whose delay is over; and it fails a flow whose wait has
/// failed.
pub proof fn lemma_resumptions_are_decided(
    runtime: runtime::RuntimeView,
    value: continuation::ContinuationView,
    at: int,
    now: int,
)
    requires
        value.valid(),
        value.state.flow_type == runtime.definition.name,
        value.state.version < i64::MAX,
        runtime.stale_after >= 0,
    ensures
        ({
            let step = runtime.resume_step(Ok(Some(value)), at, now);
            let silent = at >= value.state.heartbeat + runtime.stale_after;
            let due = value.resume_at is None || value.resume_at->0 <= at;
            match value.state.status {
                FlowStatus::Done | FlowStatus::Failed | FlowStatus::Cancelled => only_observes(
                    value,
                    step,
                ),
                FlowStatus::Running | FlowStatus::Compensating => if silent {
                    takes_over(runtime.owner, value, now, step)
                } else {
                    only_observes(value, step)
                },
                FlowStatus::Suspended => match value.wait {
                    None => if due {
                        takes_over(runtime.owner, value, now, step)
                    } else {
                        only_observes(value, step)
                    },
                    Some(wait) => match runtime_wait::wait_outcome(wait, at) {
                        runtime_wait::EvaluationView::Pending => only_observes(value, step),
                        runtime_wait::EvaluationView::Failed(failure) => fails(
                            value,
                            failure,
                            now,
                            step,
                        ),
                        runtime_wait::EvaluationView::Ready => if due {
                            takes_over(runtime.owner, value, now, step)
                        } else {
                            only_observes(value, step)
                        },
                    },
                },
            }
        }),
{
}

/// A flow that waits for all its children goes on only once all have reported a success in time;
/// as soon as one has reported a failure it fails with the failure that was recorded first, and is
/// rolled back.
pub proof fn lemma_failed_children_fail_the_flow(
    runtime: runtime::RuntimeView,
    value: continuation::ContinuationView,
    wait: suspension::WaitView,
    first: int,
    at: int,
    now: int,
)
    requires
        value.valid(),
        value.state.flow_type == runtime.definition.name,
        value.state.version < i64::MAX,
        runtime.stale_after >= 0,
        value.state.status == FlowStatus::Suspended,
        value.wait == Some(wait),
        value.resume_at is None,
        wait.policy == WaitPolicy::All,
        at < wait.created_at + wait.timeout,
        0 <= first <= wait.results.len(),
        forall|i: int| 0 <= i < first ==> (#[trigger] wait.results[i]).error is None,
        first < wait.results.len() ==> wait.results[first].error is Some,
    ensures
        ({
            let step = runtime.resume_step(Ok(Some(value)), at, now);
            if first < wait.results.len() {
                fails(value, wait.results[first].error->0, now, step)
            } else if first < wait.expected_count {
                only_observes(value, step)
            } else {
                takes_over(runtime.owner, value, now, step)
            }
        }),
{
    runtime_wait::lemma_all_children_must_succeed(wait, at);
    lemma_resumptions_are_decided(runtime, value, at, now);
}

/// A flow that waits for any of its children goes on with the first success; it fails, and is rolled
/// back, only once all expected children have failed.
pub proof fn lemma_one_successful_child_resumes_the_flow(
    runtime: runtime::RuntimeView,
    value: continuation::ContinuationView,
    wait: suspension::WaitView,
    at: int,
    now: int,
)
    requires
        value.valid(),
        value.state.flow_type == runtime.definition.name,
        value.state.version < i64::MAX,
        runtime.stale_after >= 0,
        value.state.status == FlowStatus::Suspended,
        value.wait == Some(wait),
        value.resume_at is None,
        wait.policy == WaitPolicy::Any,
        at < wait.created_at + wait.timeout,
    ensures
        ({
            let step = runtime.resume_step(Ok(Some(value)), at, now);
            &&& (exists|i: int|
                0 <= i < wait.results.len() && (#[trigger] wait.results[i]).error is None)
                ==> takes_over(runtime.owner, value, now, step)
            &&& (forall|i: int|
                0 <= i < wait.results.len() ==> (#[trigger] wait.results[i]).error is Some) ==> if 0
                < wait.results.len() && wait.results.len() >= wait.expected_count {
                fails(value, wait.results.last().error->0, now, step)
            } else {
                wait.results.len() < wait.expected_count ==> only_observes(value, step)
            }
        }),
{
    runtime_wait::lemma_any_child_may_succeed(wait, at);
    lemma_resumptions_are_decided(runtime, value, at, now);
    if forall|i: int| 0 <= i < wait.results.len() ==> (#[trigger] wait.results[i]).error is Some {
        if wait.results.len() > 0 && wait.results.len() >= wait.expected_count {
            assert(wait.results[0].error is Some);
        }
    }
}

/// A flow that cannot be loaded, does not exist, is invalid or belongs to another definition is
/// neither resumed nor cancelled, and no result of a child is recorded for it: nothing is written.
pub proof fn lemma_unusable_flows_are_refused(
    runtime: runtime::RuntimeView,
    value: continuation::ContinuationView,
    failure: error::ErrorView,
    flow_id: Seq<char>,
    name: Seq<char>,
    at: int,
    now: int,
)
    ensures
        runtime.resume_step(Ok(None), at, now) == runtime.cancel_step(Ok(None), now),
        refuses(ErrorCode::NotFound, runtime.resume_step(Ok(None), at, now)),
        refuses(ErrorCode::NotFound, runtime.scheduled_resume_step(flow_id, Ok(None), name)),
        runtime.resume_step(Err(failure), at, now) == runtime::RuntimeStepView::Finish(Err(failure)),
        runtime.cancel_step(Err(failure), now) == runtime::RuntimeStepView::Finish(Err(failure)),
        !value.valid() || value.state.flow_type != runtime.definition.name ==> {
            &&& runtime.resume_step(Ok(Some(value)), at, now) is Finish
            &&& runtime.resume_step(Ok(Some(value)), at, now)->Finish_0 is Err
            &&& runtime.cancel_step(Ok(Some(value)), now) is Finish
            &&& runtime.cancel_step(Ok(Some(value)), now)->Finish_0 is Err
            &&& runtime.scheduled_resume_step(flow_id, Ok(Some(value)), name) is Finish
            &&& !value.state.status.spec_is_terminal() ==> {
                &&& runtime.wait_admission(Ok(Some(value)), name) is Err
                &&& runtime.wait_admission(Ok(Some(value)), name)->Err_0 is Finish
            }
        },
{
}

/// A flow starts at the first registered step of its definition: it is created with its input,
/// suspended, at version zero and without an owner, and then loaded. A definition without steps and
/// an input that is too large are refused.
pub proof fn lemma_flows_start_at_their_first_step(
    runtime: runtime::RuntimeView,
    flow_id: Seq<char>,
    data: Seq<u8>,
    now: int,
)
    ensures
        ({
            let step = runtime.start_step(flow_id, data, now);
            if runtime.definition.steps.len() == 0 || data.len() > 1048576 {
                refuses(ErrorCode::Validation, step)
            } else {
                &&& step is Create
                &&& step->Create_continuation.step_name == runtime.definition.steps[0].name
                &&& step->Create_continuation.state.id == flow_id
                &&& step->Create_continuation.state.flow_type == runtime.definition.name
                &&& step->Create_continuation.state.data == data
                &&& step->Create_continuation.state.status == FlowStatus::Suspended
                &&& step->Create_continuation.state.owner is None
                &&& step->Create_continuation.state.version == 0
                &&& step->Create_continuation.state.step == 0
                &&& step->Create_continuation.state.error is None
                &&& step->Create_continuation.wait is None
                &&& step->Create_continuation.resume_at is None
                &&& step->Create_continuation.compensations.len() == 0
                &&& step->Create_continuation.created_at == now
                &&& runtime.created_step(step->Create_continuation, Ok(true)) == (
                runtime::RuntimeStepView::Load { flow_id })
                &&& refuses(
                    ErrorCode::Conflict,
                    runtime.created_step(step->Create_continuation, Ok(false)),
                )
            }
        }),
{
}

/// A schedule resumes a flow only while the flow still stands at the step that the schedule was made
/// for.
pub proof fn lemma_stale_schedules_resume_nothing(
    runtime: runtime::RuntimeView,
    value: continuation::ContinuationView,
    flow_id: Seq<char>,
    state_id: Seq<char>,
)
    requires
        value.valid(),
        value.state.flow_type == runtime.definition.name,
    ensures
        value.step_name == state_id ==> runtime.scheduled_resume_step(
            flow_id,
            Ok(Some(value)),
            state_id,
        ) == (runtime::RuntimeStepView::Load { flow_id }),
        value.step_name != state_id ==> refuses(
            ErrorCode::Conflict,
            runtime.scheduled_resume_step(flow_id, Ok(Some(value)), state_id),
        ),
{
}

/// A stored claim is executed from its first attempt on; a flow that was being rolled back goes on
/// with the rollback of the step that completed last. A claim that was lost is only observed.
pub proof fn lemma_claims_are_executed(
    runtime: runtime::RuntimeView,
    next: continuation::ContinuationView,
    failure: error::ErrorView,
    now: int,
)
    ensures
        next.state.status != FlowStatus::Compensating ==> runtime.claimed_step(next, Ok(true), now)
            == (runtime::RuntimeStepView::Execute { continuation: next, attempt: 0 }),
        next.state.status == FlowStatus::Compensating && next.compensations.len() > 0
            ==> runtime.claimed_step(next, Ok(true), now) == (runtime::RuntimeStepView::Compensate {
            continuation: next,
            step_name: next.compensations[next.compensations.len() - 1],
        }),
        runtime.claimed_step(next, Ok(false), now) == (runtime::RuntimeStepView::Reload {
            flow_id: next.state.id,
        }),
        runtime.claimed_step(next, Err(failure), now) == runtime::RuntimeStepView::Finish(
            Err(failure),
        ),
{
}

/// Whether a step is the first registered under its name.
pub open spec fn registered_at(
    definition: definition::DefinitionView,
    name: Seq<char>,
    place: int,
) -> bool {
    &&& 0 <= place < definition.steps.len()
    &&& definition.steps[place].name == name
    &&& forall|i: int| 0 <= i < place ==> (#[trigger] definition.steps[i]).name != name
}

proof fn lemma_place(definition: definition::DefinitionView, name: Seq<char>, place: int)
    requires
        registered_at(definition, name, place),
    ensures
        definition.place(name) == Some(place),
{
    let named = definition::DefinitionView::named(name);
    assert forall|i: int| 0 <= i < place implies !#[trigger] named(definition.steps[i]) by {
        assert(definition.steps[i].name != name);
    }
    search::lemma_first(definition.steps, named, Some(place));
}

/// The rollbacks of a flow after a step completed: those before it, and its own where it has one.
pub open spec fn rollbacks_after(
    value: continuation::ContinuationView,
    completed: definition::StepView,
) -> Seq<Seq<char>> {
    if completed.compensable {
        value.compensations.push(completed.name)
    } else {
        value.compensations
    }
}

/// The outcome of a step decides how its flow goes on: `Advance` moves to the step that was
/// registered next, or completes the flow behind the last; `Goto` moves to the named step, and fails
/// the flow where there is none; a delay and a wait suspend the flow before the next step, and fail
/// it behind the last; `Complete` completes and `Fail` fails it. The rollback of a step is kept from
/// the moment on at which the flow moves behind it.
pub proof fn lemma_outcomes_are_followed(
    runtime: runtime::RuntimeView,
    value: continuation::ContinuationView,
    place: int,
    attempt: usize,
    outcome: definition::OutcomeView,
    now: int,
)
    requires
        registered_at(runtime.definition, value.step_name, place),
        value.state.version < i64::MAX,
        value.compensations.len() < MAX_FLOW_COMPENSATIONS,
    ensures
        ({
            let steps = runtime.definition.steps;
            let step = runtime.executed_step(value, attempt, Ok(outcome), now);
            let kept = rollbacks_after(value, steps[place]);
            let behind = continuation::ContinuationView { compensations: kept, ..value };
            let has_next = place + 1 < steps.len();
            match outcome {
                definition::OutcomeView::Complete => completes(value, step),
                definition::OutcomeView::Fail(failure) => fails(value, failure, now, step),
                definition::OutcomeView::Advance => if has_next {
                    moves(
                        value,
                        steps[place + 1].name,
                        kept,
                        None,
                        None,
                        AfterUpdate::Claim,
                        step,
                    )
                } else {
                    completes(value, step)
                },
                definition::OutcomeView::SuspendUntil(instant) => if has_next {
                    moves(
                        value,
                        steps[place + 1].name,
                        kept,
                        None,
                        Some(instant),
                        AfterUpdate::Schedule,
                        step,
                    )
                } else {
                    exists|failure: error::ErrorView| #[trigger] fails(behind, failure, now, step)
                },
                definition::OutcomeView::Wait(wait) => if has_next && wait.valid() {
                    moves(
                        value,
                        steps[place + 1].name,
                        kept,
                        Some(wait),
                        None,
                        AfterUpdate::Return,
                        step,
                    )
                } else {
                    exists|failure: error::ErrorView| #[trigger] fails(behind, failure, now, step)
                },
                definition::OutcomeView::Goto(name) => {
                    &&& (exists|i: int| 0 <= i < steps.len() && (#[trigger] steps[i]).name == name)
                        ==> moves(value, name, kept, None, None, AfterUpdate::Claim, step)
                    &&& (forall|i: int| 0 <= i < steps.len() ==> (#[trigger] steps[i]).name != name)
                        ==> exists|failure: error::ErrorView|
                        #[trigger] fails(behind, failure, now, step) && failure.code
                            == ErrorCode::NotFound
                },
            }
        }),
{
    let steps = runtime.definition.steps;
    lemma_place(runtime.definition, value.step_name, place);
    let step = runtime.executed_step(value, attempt, Ok(outcome), now);
    let kept = rollbacks_after(value, steps[place]);
    let behind = continuation::ContinuationView { compensations: kept, ..value };
    match outcome {
        definition::OutcomeView::SuspendUntil(_) => {
            assert(fails(
                behind,
                error::validation("a delayed flow step requires a following step"@),
                now,
                step,
            ) || place + 1 < steps.len());
        },
        definition::OutcomeView::Wait(wait) => {
            assert(fails(
                behind,
                error::validation("a waiting flow step requires a following step"@),
                now,
                step,
            ) || place + 1 < steps.len());
            assert(fails(behind, wait.rejection(), now, step) || wait.valid() || place + 1
                >= steps.len());
        },
        definition::OutcomeView::Goto(name) => {
            let named = definition::DefinitionView::named(name);
            let found = runtime.definition.place(name);
            search::lemma_first(steps, named, found);
            assert forall|i: int| 0 <= i < steps.len() implies named(steps[i]) == ((
            #[trigger] steps[i]).name == name) by {}
            if found is None {
                assert(fails(
                    behind,
                    error::plain_error(
                        ErrorCode::NotFound,
                        "a flow transition references an unregistered step"@,
                    ),
                    now,
                    step,
                ));
            } else {
                assert(steps[found->0].name == name);
            }
        },
        _ => {},
    }
}

/// A rollback that can no longer be kept ends the operation before anything is written.
pub proof fn lemma_rollbacks_stay_bounded(
    runtime: runtime::RuntimeView,
    value: continuation::ContinuationView,
    place: int,
    attempt: usize,
    outcome: definition::OutcomeView,
    now: int,
)
    requires
        registered_at(runtime.definition, value.step_name, place),
        runtime.definition.steps[place].compensable,
        value.compensations.len() == MAX_FLOW_COMPENSATIONS,
        !(outcome is Complete) && !(outcome is Fail),
    ensures
        refuses(
            ErrorCode::Validation,
            runtime.executed_step(value, attempt, Ok(outcome), now),
        ),
{
    lemma_place(runtime.definition, value.step_name, place);
}

/// A failed attempt is repeated only where the failure is transient and the policy of the tag of its
/// step permits another; the repetition counts one more attempt of the same step. Otherwise the flow
/// fails with the failure of the attempt.
pub proof fn lemma_failed_attempts_are_repeated_or_final(
    runtime: runtime::RuntimeView,
    value: continuation::ContinuationView,
    place: int,
    attempt: usize,
    failure: error::ErrorView,
    now: int,
)
    requires
        registered_at(runtime.definition, value.step_name, place),
        value.state.version < i64::MAX,
        attempt < usize::MAX,
    ensures
        ({
            let step = runtime.executed_step(value, attempt, Err(failure), now);
            let tag = runtime.definition.steps[place].tag;
            let permitted = if tag is Some && runtime.tag_policy is Some {
                let policy = runtime.tag_policy->0;
                if policy.retries.contains_key(tag->0) {
                    policy.retries[tag->0] as int
                } else {
                    policy.default_retries as int
                }
            } else {
                0
            };
            &&& failure.code == ErrorCode::Transient && attempt < permitted ==> step == (
            runtime::RuntimeStepView::RenewForRetry { continuation: value, attempt })
            &&& failure.code != ErrorCode::Transient || attempt >= permitted ==> fails(
                value,
                failure,
                now,
                step,
            )
            &&& runtime.renewed_step(value, attempt, Ok(true), now) == (
            runtime::RuntimeStepView::Execute {
                continuation: value,
                attempt: (attempt + 1) as usize,
            })
            &&& fails(
                value,
                failure,
                now,
                runtime.renewed_step(value, attempt, Err(failure), now),
            )
            &&& exists|lost: error::ErrorView|
                #[trigger] fails(
                    value,
                    lost,
                    now,
                    runtime.renewed_step(value, attempt, Ok(false), now),
                ) && lost.code == ErrorCode::Conflict
        }),
{
    lemma_place(runtime.definition, value.step_name, place);
    assert(fails(
        value,
        runtime::lost_before_retry(),
        now,
        runtime.renewed_step(value, attempt, Ok(false), now),
    ));
}

/// A write that was stored is followed by what it was made for, and one that was lost or failed by
/// nothing: the operation ends without success.
pub proof fn lemma_stored_writes_lead_on(
    runtime: runtime::RuntimeView,
    next: continuation::ContinuationView,
    after: AfterUpdate,
    failure: error::ErrorView,
    now: int,
)
    requires
        next.state.version < i64::MAX,
    ensures
        ({
            let step = runtime.updated_step(next, after, Ok(true), now);
            match after {
                AfterUpdate::Return => only_observes(next, step),
                AfterUpdate::Claim => takes_over(runtime.owner, next, now, step),
                AfterUpdate::Schedule => match next.resume_at {
                    Some(due_at) => step == (runtime::RuntimeStepView::Schedule {
                        pending: next,
                        due_at,
                    }),
                    None => only_observes(next, step),
                },
                AfterUpdate::Compensate => next.compensations.len() > 0 ==> step == (
                runtime::RuntimeStepView::Compensate {
                    continuation: next,
                    step_name: next.compensations[next.compensations.len() - 1],
                }),
            }
        }),
        refuses(ErrorCode::Transient, runtime.updated_step(next, after, Ok(false), now)),
        runtime.updated_step(next, after, Err(failure), now) == runtime::RuntimeStepView::Finish(
            Err(failure),
        ),
{
}

/// The identity of a schedule is stored with the delay that it was made for, at the next version; a
/// schedule that could not be made or recorded leaves the stored delay as it is.
pub proof fn lemma_schedules_are_recorded(
    runtime: runtime::RuntimeView,
    pending: continuation::ContinuationView,
    schedule_id: Seq<char>,
    failure: error::ErrorView,
    now: int,
)
    requires
        pending.state.version < i64::MAX,
    ensures
        ({
            let step = runtime.scheduled_step(pending, Ok(schedule_id), now);
            &&& step is RecordSchedule
            &&& step->RecordSchedule_pending == pending
            &&& step->scheduled == continuation::ContinuationView {
                state: state::FlowStateView {
                    version: (pending.state.version + 1) as i64,
                    ..pending.state
                },
                schedule_id: Some(schedule_id),
                updated_at: now,
                ..pending
            }
            &&& only_observes(
                step->scheduled,
                runtime.schedule_recorded_step(pending, step->scheduled, Ok(true)),
            )
            &&& only_observes(
                pending,
                runtime.schedule_recorded_step(pending, step->scheduled, Ok(false)),
            )
            &&& only_observes(
                pending,
                runtime.schedule_recorded_step(pending, step->scheduled, Err(failure)),
            )
        }),
        only_observes(pending, runtime.scheduled_step(pending, Err(failure), now)),
{
}

/// A cancellation stores a flow that has not ended as cancelled, without wait, delay and owner, and
/// then cancels the schedule that the flow had; a flow that is being rolled back is not cancelled,
/// and one that has ended is only observed.
pub proof fn lemma_cancellations_end_open_flows(
    runtime: runtime::RuntimeView,
    value: continuation::ContinuationView,
    now: int,
)
    requires
        value.valid(),
        value.state.flow_type == runtime.definition.name,
        value.state.version < i64::MAX,
    ensures
        ({
            let step = runtime.cancel_step(Ok(Some(value)), now);
            match value.state.status {
                FlowStatus::Done | FlowStatus::Failed | FlowStatus::Cancelled => only_observes(
                    value,
                    step,
                ),
                FlowStatus::Compensating => refuses(ErrorCode::Conflict, step),
                FlowStatus::Running | FlowStatus::Suspended => {
                    &&& step is StoreCancelled
                    &&& step->StoreCancelled_expected_version == value.state.version
                    &&& step->schedule == value.schedule_id
                    &&& step->cancelled.state == state::FlowStateView {
                        status: FlowStatus::Cancelled,
                        owner: None,
                        error: None,
                        version: (value.state.version + 1) as i64,
                        ..value.state
                    }
                    &&& step->cancelled.wait is None
                    &&& step->cancelled.resume_at is None
                    &&& step->cancelled.schedule_id is None
                    &&& ({
                        let stored = runtime.cancel_stored_step(
                            step->cancelled,
                            step->schedule,
                            Ok(true),
                        );
                        match value.schedule_id {
                            Some(schedule_id) => stored == (
                            runtime::RuntimeStepView::CancelSchedule {
                                schedule_id,
                                state: step->cancelled.state,
                            }),
                            None => only_observes(step->cancelled, stored),
                        }
                    })
                    &&& runtime.cancel_stored_step(step->cancelled, step->schedule, Ok(false)) == (
                    runtime::RuntimeStepView::Reload { flow_id: value.state.id })
                },
            }
        }),
{
}

/// A result of a child is recorded at the version that was loaded, and only for a flow that is still
/// open and waits for that child; a flow that has ended is only observed. A recorded result leads to
/// a resumption of the flow, and one that was lost to an observation.
pub proof fn lemma_child_results_are_recorded_for_waiting_flows(
    runtime: runtime::RuntimeView,
    value: continuation::ContinuationView,
    flow_id: Seq<char>,
    child_id: Seq<char>,
    payload: Seq<u8>,
    failure: error::ErrorView,
)
    requires
        value.valid(),
        value.state.flow_type == runtime.definition.name,
    ensures
        ({
            let loaded = Ok::<Option<continuation::ContinuationView>, error::ErrorView>(
                Some(value),
            );
            let succeeded = runtime.record_success_step(flow_id, loaded, child_id, payload);
            let failed = runtime.record_failure_step(flow_id, loaded, child_id, failure);
            let ended = value.state.status == FlowStatus::Done || value.state.status
                == FlowStatus::Failed || value.state.status == FlowStatus::Cancelled;
            let awaited = value.wait is Some && (value.wait->0.child_launches.len() == 0 || exists|
                i: int,
            |
                0 <= i < value.wait->0.child_launches.len() && (
                #[trigger] value.wait->0.child_launches[i]).child_id == child_id);
            &&& ended ==> only_observes(value, succeeded) && only_observes(value, failed)
            &&& !ended && !awaited ==> {
                &&& refuses(ErrorCode::Validation, succeeded)
                &&& refuses(ErrorCode::Validation, failed)
            }
            &&& !ended && awaited ==> {
                &&& failed == (runtime::RuntimeStepView::RecordFailure {
                    flow_id,
                    version: value.state.version,
                    child_id,
                    failure,
                })
                &&& payload.len() <= 65536 ==> succeeded == (
                runtime::RuntimeStepView::RecordSuccess {
                    flow_id,
                    version: value.state.version,
                    child_id,
                    payload,
                })
                &&& payload.len() > 65536 ==> refuses(ErrorCode::Validation, succeeded)
            }
        }),
        runtime.wait_recorded_step(flow_id, Ok(true)) == (runtime::RuntimeStepView::Load {
            flow_id,
        }),
        runtime.wait_recorded_step(flow_id, Ok(false)) == (runtime::RuntimeStepView::Reload {
            flow_id,
        }),
        runtime.wait_recorded_step(flow_id, Err(failure)) == runtime::RuntimeStepView::Finish(
            Err(failure),
        ),
{
}

/// A rollback that succeeds is taken off, stored with the following version, and followed by the one
/// recorded before it; one that fails ends the run with its failure and changes nothing. Without
/// rollbacks the flow is stored as failed with its original failure.
pub proof fn lemma_rollbacks_follow_each_other(
    runtime: runtime::RuntimeView,
    value: continuation::ContinuationView,
    failure: error::ErrorView,
    now: int,
)
    requires
        value.state.version < i64::MAX - 1,
    ensures
        runtime::compensated_step(value, Err(failure), now) == runtime::RuntimeStepView::Finish(
            Err(failure),
        ),
        value.compensations.len() > 0 ==> {
            let stored = runtime::compensated_step(value, Ok(()), now);
            &&& runtime::compensate_step(value, now) == (runtime::RuntimeStepView::Compensate {
                continuation: value,
                step_name: value.compensations[value.compensations.len() - 1],
            })
            &&& stored is Update
            &&& stored->Update_expected_version == value.state.version
            &&& stored->Update_next.state.version == value.state.version + 1
            &&& stored->Update_next.state.status == FlowStatus::Compensating
            &&& stored->Update_next.state.error == value.state.error
            &&& stored->Update_next.state.step == value.state.step
            &&& stored->Update_next.step_name == value.step_name
            &&& stored->Update_next.compensations =~= value.compensations.take(
                value.compensations.len() - 1,
            )
            &&& stored->after == AfterUpdate::Compensate
            &&& value.compensations.len() > 1 ==> runtime.updated_step(
                stored->Update_next,
                stored->after,
                Ok(true),
                now,
            ) == (runtime::RuntimeStepView::Compensate {
                continuation: stored->Update_next,
                step_name: value.compensations[value.compensations.len() - 2],
            })
        },
        value.compensations.len() == 0 && value.state.error is Some ==> {
            let stored = runtime::compensate_step(value, now);
            &&& stored is Update
            &&& stored->Update_next.state.status == FlowStatus::Failed
            &&& stored->Update_next.state.error == value.state.error
            &&& stored->Update_next.state.version == value.state.version + 1
            &&& stored->after == AfterUpdate::Return
        },
        value.compensations.len() == 0 && value.state.error is None ==> refuses(
            ErrorCode::Internal,
            runtime::compensate_step(value, now),
        ),
{
}

/// A flow that another writer changed is observed as it is now: its stored state is answered where it is
/// sound, and otherwise why it cannot be.
pub proof fn lemma_changed_flows_are_observed(
    value: continuation::ContinuationView,
    failure: error::ErrorView,
)
    ensures
        value.valid() ==> only_observes(value, runtime::observed_step(Ok(Some(value)))),
        !value.valid() ==> refuses(
            ErrorCode::Validation,
            runtime::observed_step(Ok(Some(value))),
        ),
        refuses(ErrorCode::NotFound, runtime::observed_step(Ok(None))),
        runtime::observed_step(Err(failure)) == runtime::RuntimeStepView::Finish(Err(failure)),
{
}

} // verus!
