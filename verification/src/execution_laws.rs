//! What holds of every durable execution that no other writer interferes with: the work runs under
//! a claim, and the store afterwards holds what the caller was answered.

use vstd::prelude::*;

use crate::error;
use crate::error::ErrorCode;
use crate::executor;
use crate::executor::RecoverySweep;
use crate::local;
use crate::state;
use crate::state::FlowStatus;
use crate::state_machine_execution;
use crate::state_machine_model;

verus! {

/// A durable execution as a driver sees it.
pub struct Execution {
    /// What the store holds in the end.
    pub stored: Option<state::FlowStateView>,
    /// The states that the work ran on, in order.
    pub ran: Seq<state::FlowStateView>,
    /// What the caller is answered, once the execution has ended.
    pub answer: Option<Result<local::FlowResultView, error::ErrorView>>,
}

/// What a driver does from a step on, within a number of effects, on a store that nobody else
/// writes to.
pub open spec fn executed(
    executor: executor::ExecutorView,
    work: spec_fn(state::FlowStateView) -> Result<local::FlowResultView, error::ErrorView>,
    now: int,
    stored: Option<state::FlowStateView>,
    step: executor::ExecutorStepView,
    effects: nat,
) -> Execution
    decreases effects,
{
    if effects == 0 {
        Execution { stored, ran: Seq::empty(), answer: None }
    } else {
        let less = (effects - 1) as nat;
        match step {
            executor::ExecutorStepView::Create { initial } => if stored is None {
                let next = executor.after_create(initial, Ok(true));
                executed(executor, work, now, Some(initial), next, less)
            } else {
                let next = executor.after_create(initial, Ok(false));
                executed(executor, work, now, stored, next, less)
            },
            executor::ExecutorStepView::Load { initial } => {
                let next = executor.after_load(initial, Ok(stored), now);
                executed(executor, work, now, stored, next, less)
            },
            executor::ExecutorStepView::StoreClaim { expected_version, claimed } => if stored
                is Some && stored->0.version == expected_version {
                let next = executor.after_claim(claimed, Ok(true));
                executed(executor, work, now, Some(claimed), next, less)
            } else {
                let next = executor.after_claim(claimed, Ok(false));
                executed(executor, work, now, stored, next, less)
            },
            executor::ExecutorStepView::LoadLostClaim { .. } => {
                let next = executor.after_lost_claim(Ok(stored));
                executed(executor, work, now, stored, next, less)
            },
            executor::ExecutorStepView::Run { state } => {
                let event = executor::WorkEventView::Finished(work(state));
                match executor::after_work_event(state, event) {
                    executor::WorkStepView::Continue { .. } => Execution {
                        stored,
                        ran: seq![state],
                        answer: None,
                    },
                    executor::WorkStepView::End(next) => {
                        let rest = executed(executor, work, now, stored, next, less);
                        Execution { ran: seq![state] + rest.ran, ..rest }
                    },
                }
            },
            executor::ExecutorStepView::StoreResult { state, next, result } => if stored is Some
                && stored->0.version == state.version {
                let end = executor.after_result(state, result, Ok(true));
                executed(executor, work, now, Some(next), end, less)
            } else {
                let end = executor.after_result(state, result, Ok(false));
                executed(executor, work, now, stored, end, less)
            },
            executor::ExecutorStepView::LoadForResult { state, result } => {
                let next = executor.after_reload(state, result, Ok(stored));
                executed(executor, work, now, stored, next, less)
            },
            executor::ExecutorStepView::Finish(answer) => Execution {
                stored,
                ran: Seq::empty(),
                answer: Some(answer),
            },
        }
    }
}

/// Whether a state holds the outcome of work: it is done behind the completed steps, or it failed
/// with the failure of the work at the step that was reached, and nobody owns it any longer.
pub open spec fn holds_outcome(
    stored: state::FlowStateView,
    before: state::FlowStateView,
    outcome: Result<local::FlowResultView, error::ErrorView>,
) -> bool {
    &&& stored.id == before.id
    &&& stored.flow_type == before.flow_type
    &&& stored.data == before.data
    &&& stored.heartbeat == before.heartbeat
    &&& stored.version == before.version + 1
    &&& stored.owner is None
    &&& match outcome {
        Ok(result) => {
            &&& stored.step == result.completed_steps
            &&& stored.error == result.error
            &&& stored.status == if result.error is None {
                FlowStatus::Done
            } else {
                FlowStatus::Failed
            }
        },
        Err(failure) => {
            &&& stored.step == before.step
            &&& stored.error == Some(failure)
            &&& stored.status == FlowStatus::Failed
        },
    }
}

/// Whether an answer is the outcome of work; work that failed as a whole is answered as a flow that
/// failed where it stood.
pub open spec fn answers_outcome(
    answer: Option<Result<local::FlowResultView, error::ErrorView>>,
    before: state::FlowStateView,
    outcome: Result<local::FlowResultView, error::ErrorView>,
) -> bool {
    match outcome {
        Ok(result) => answer == Some(Ok::<local::FlowResultView, error::ErrorView>(result)),
        Err(failure) => {
            &&& answer is Some
            &&& answer->0 is Ok
            &&& answer->0->Ok_0.completed_steps == before.step
            &&& answer->0->Ok_0.error == Some(failure)
        },
    }
}

/// A flow that is not stored is created as running from its first step on, owned by the executor,
/// and its work runs once, on that state. Afterwards the store holds the outcome, and the caller is
/// answered the same outcome.
pub proof fn lemma_new_flows_are_executed_once(
    executor: executor::ExecutorView,
    work: spec_fn(state::FlowStateView) -> Result<local::FlowResultView, error::ErrorView>,
    id: Seq<char>,
    flow_type: Seq<char>,
    data: Seq<u8>,
    now: int,
)
    ensures
        ({
            let initial = state::FlowStateView::initial(id, flow_type, data, executor.owner, now);
            let start = executor::ExecutorStepView::Create { initial };
            let execution = executed(executor, work, now, None, start, 4);
            &&& initial.id == id
            &&& initial.flow_type == flow_type
            &&& initial.data == data
            &&& initial.status == FlowStatus::Running
            &&& initial.step == 0
            &&& initial.version == 0
            &&& initial.owner == Some(executor.owner)
            &&& initial.heartbeat == now
            &&& initial.error is None
            &&& execution.ran =~= seq![initial]
            &&& execution.stored is Some
            &&& holds_outcome(execution.stored->0, initial, work(initial))
            &&& answers_outcome(execution.answer, initial, work(initial))
        }),
{
    reveal_with_fuel(executed, 5);
}

/// A stored flow that is still open and has been silent for the stale period is claimed: its work
/// runs once, on the stored state with the new owner, the new heartbeat and the following version,
/// and the store afterwards holds the outcome.
pub proof fn lemma_silent_flows_are_taken_over(
    executor: executor::ExecutorView,
    work: spec_fn(state::FlowStateView) -> Result<local::FlowResultView, error::ErrorView>,
    initial: state::FlowStateView,
    current: state::FlowStateView,
    now: int,
)
    requires
        current.flow_type == initial.flow_type,
        current.status == FlowStatus::Running || current.status == FlowStatus::Compensating
            || current.status == FlowStatus::Suspended,
        executor.stale_after >= 0,
        now >= current.heartbeat + executor.stale_after,
        current.version < i64::MAX - 1,
    ensures
        ({
            let start = executor::ExecutorStepView::Create { initial };
            let execution = executed(executor, work, now, Some(current), start, 6);
            let ran = execution.ran[0];
            &&& execution.ran.len() == 1
            &&& ran.id == current.id
            &&& ran.flow_type == current.flow_type
            &&& ran.status == current.status
            &&& ran.step == current.step
            &&& ran.data == current.data
            &&& ran.error == current.error
            &&& ran.owner == Some(executor.owner)
            &&& ran.heartbeat == now
            &&& ran.version == current.version + 1
            &&& execution.stored is Some
            &&& holds_outcome(execution.stored->0, ran, work(ran))
            &&& answers_outcome(execution.answer, ran, work(ran))
        }),
{
    reveal_with_fuel(executed, 7);
    let claimed = current.claimed_by(executor.owner, now).advanced();
    let start = executor::ExecutorStepView::Create { initial };
    let execution = executed(executor, work, now, Some(current), start, 6);
    assert(execution.ran =~= seq![claimed]);
}

/// Where a stored flow belongs to another owner that is not silent, has another type or has ended,
/// its work does not run and the store is unchanged. The caller is answered a transient failure, a
/// conflict, or the outcome that is stored.
pub proof fn lemma_other_flows_are_left_alone(
    executor: executor::ExecutorView,
    work: spec_fn(state::FlowStateView) -> Result<local::FlowResultView, error::ErrorView>,
    initial: state::FlowStateView,
    current: state::FlowStateView,
    now: int,
)
    requires
        executor.stale_after >= 0,
    ensures
        ({
            let start = executor::ExecutorStepView::Create { initial };
            let execution = executed(executor, work, now, Some(current), start, 6);
            let ended = current.status == FlowStatus::Done || current.status == FlowStatus::Failed
                || current.status == FlowStatus::Cancelled;
            let left = execution.ran.len() == 0 && execution.stored == Some(current);
            &&& current.flow_type != initial.flow_type ==> {
                &&& left
                &&& execution.answer is Some
                &&& execution.answer->0 is Err
                &&& execution.answer->0->Err_0.code == ErrorCode::Conflict
            }
            &&& current.flow_type == initial.flow_type && !ended && now < current.heartbeat
                + executor.stale_after ==> {
                &&& left
                &&& execution.answer is Some
                &&& execution.answer->0 is Err
                &&& execution.answer->0->Err_0.code == ErrorCode::Transient
            }
            &&& current.flow_type == initial.flow_type && ended ==> {
                &&& left
                &&& execution.answer is Some
                &&& current.status == FlowStatus::Done ==> {
                    &&& execution.answer->0 is Ok
                    &&& execution.answer->0->Ok_0.completed_steps == current.step
                    &&& execution.answer->0->Ok_0.error is None
                }
                &&& current.status == FlowStatus::Failed && current.error is Some ==> {
                    &&& execution.answer->0 is Ok
                    &&& execution.answer->0->Ok_0.completed_steps == current.step
                    &&& execution.answer->0->Ok_0.error == current.error
                }
                &&& current.status == FlowStatus::Failed && current.error is None
                    ==> execution.answer->0 is Err
                &&& current.status == FlowStatus::Cancelled ==> {
                    &&& execution.answer->0 is Ok
                    &&& execution.answer->0->Ok_0.completed_steps == current.step
                    &&& execution.answer->0->Ok_0.error is Some
                    &&& execution.answer->0->Ok_0.error->0.code == ErrorCode::Cancelled
                }
            }
        }),
{
    reveal_with_fuel(executed, 7);
}

/// An outcome that could not be stored is stored again only where the flow is still running under
/// this owner at the same version; where another outcome was stored, the caller is answered that
/// one, and otherwise a transient failure.
pub proof fn lemma_lost_outcomes_are_not_answered(
    executor: executor::ExecutorView,
    before: state::FlowStateView,
    outcome: local::FlowResultView,
    observed: state::FlowStateView,
)
    requires
        observed.version < i64::MAX,
    ensures
        executor.after_result(before, outcome, Ok(false)) == (
        executor::ExecutorStepView::LoadForResult { state: before, result: outcome }),
        ({
            let next = executor.after_reload(before, outcome, Ok(Some(observed)));
            let kept = observed.status == FlowStatus::Running && observed.owner == Some(
                executor.owner,
            ) && observed.version == before.version;
            let ended = observed.status == FlowStatus::Done || observed.status == FlowStatus::Failed
                || observed.status == FlowStatus::Cancelled;
            &&& kept ==> {
                &&& next is StoreResult
                &&& next->StoreResult_state == observed
                &&& next->StoreResult_result == outcome
                &&& holds_outcome(next->next, observed, Ok(outcome))
            }
            &&& !kept && !ended ==> {
                &&& next is Finish
                &&& next->Finish_0 is Err
                &&& next->Finish_0->Err_0.code == ErrorCode::Transient
            }
            &&& observed.status == FlowStatus::Done ==> {
                &&& next is Finish
                &&& next->Finish_0 is Ok
                &&& next->Finish_0->Ok_0.completed_steps == observed.step
                &&& next->Finish_0->Ok_0.error is None
            }
        }),
        ({
            let next = executor.after_reload(before, outcome, Ok(None));
            &&& next is Finish
            &&& next->Finish_0 is Err
            &&& next->Finish_0->Err_0.code == ErrorCode::Transient
        }),
{
}

/// A failure of the store ends an execution with that failure, whatever it was about to do.
pub proof fn lemma_store_failures_are_answered(
    executor: executor::ExecutorView,
    initial: state::FlowStateView,
    outcome: local::FlowResultView,
    failure: error::ErrorView,
    now: int,
)
    ensures
        executor.after_create(initial, Err(failure)) == executor::ExecutorStepView::Finish(
            Err(failure),
        ),
        executor.after_load(initial, Err(failure), now) == executor::ExecutorStepView::Finish(
            Err(failure),
        ),
        executor.after_claim(initial, Err(failure)) == executor::ExecutorStepView::Finish(
            Err(failure),
        ),
        executor.after_lost_claim(Err(failure)) == executor::ExecutorStepView::Finish(Err(failure)),
        executor.after_result(initial, outcome, Err(failure)) == executor::ExecutorStepView::Finish(
            Err(failure),
        ),
        executor.after_reload(initial, outcome, Err(failure)) == executor::ExecutorStepView::Finish(
            Err(failure),
        ),
{
}

/// Work goes on exactly while its heartbeats are accepted; a heartbeat that is refused ends it with a
/// conflict, one that fails with its failure, and a cancellation as cancelled.
pub proof fn lemma_work_goes_on_while_it_is_owned(
    before: state::FlowStateView,
    failure: error::ErrorView,
)
    ensures
        executor::after_work_event(before, executor::WorkEventView::Heartbeat(Ok(true))) == (
        executor::WorkStepView::Continue { state: before }),
        executor::after_work_event(before, executor::WorkEventView::Heartbeat(Err(failure)))
            == executor::WorkStepView::End(executor::ExecutorStepView::Finish(Err(failure))),
        ({
            let refused = executor::after_work_event(
                before,
                executor::WorkEventView::Heartbeat(Ok(false)),
            );
            &&& refused is End
            &&& refused->End_0 is Finish
            &&& refused->End_0->Finish_0 is Err
            &&& refused->End_0->Finish_0->Err_0.code == ErrorCode::Conflict
        }),
        ({
            let cancelled = executor::after_work_event(
                before,
                executor::WorkEventView::Cancelled,
            );
            &&& cancelled is End
            &&& cancelled->End_0 is Finish
            &&& cancelled->End_0->Finish_0 is Err
            &&& cancelled->End_0->Finish_0->Err_0.code == ErrorCode::Cancelled
        }),
{
}

/// What a sweep for stale flows does, with this many flows to be found, within a number of effects.
pub open spec fn swept(
    found: Seq<state::FlowStateView>,
    results: spec_fn(state::FlowStateView) -> local::FlowResultView,
    step: executor::RecoveryStepView,
    effects: nat,
) -> (Seq<state::FlowStateView>, Option<Result<usize, error::ErrorView>>)
    decreases effects,
{
    if effects == 0 {
        (Seq::empty(), None)
    } else {
        let less = (effects - 1) as nat;
        match step {
            executor::RecoveryStepView::Claim(sweep) => if found.len() == 0 {
                swept(found, results, sweep.after_claim(Ok(None)), less)
            } else {
                swept(found, results, sweep.after_claim(Ok(Some(found[0]))), less)
            },
            executor::RecoveryStepView::Run { sweep, state } => {
                let rest = swept(
                    found.drop_first(),
                    results,
                    sweep.after_run(Ok(results(state))),
                    less,
                );
                (seq![state] + rest.0, rest.1)
            },
            executor::RecoveryStepView::Finish(answer) => (Seq::empty(), Some(answer)),
        }
    }
}

/// A sweep runs the stale flows that it finds, each once and in order, until it finds no more or has
/// run as many as it may, and answers how many it ran.
pub proof fn lemma_sweeps_run_what_they_find(
    sweep: RecoverySweep,
    found: Seq<state::FlowStateView>,
    results: spec_fn(state::FlowStateView) -> local::FlowResultView,
    effects: nat,
)
    requires
        sweep.recovered <= sweep.max_claims,
        effects >= 2 * (sweep.max_claims - sweep.recovered) + 2,
    ensures
        ({
            let count = if found.len() < sweep.max_claims - sweep.recovered {
                found.len() as int
            } else {
                sweep.max_claims - sweep.recovered
            };
            let (ran, answer) = swept(found, results, sweep.step_at(), effects);
            &&& ran =~= found.take(count)
            &&& answer == Some(
                Ok::<usize, error::ErrorView>((sweep.recovered + count) as usize),
            )
        }),
    decreases sweep.max_claims - sweep.recovered,
{
    reveal_with_fuel(swept, 3);
    if sweep.recovered < sweep.max_claims && found.len() > 0 {
        let next = RecoverySweep { recovered: (sweep.recovered + 1) as usize, ..sweep };
        let rest = found.drop_first();
        lemma_sweeps_run_what_they_find(next, rest, results, (effects - 2) as nat);
        let count = if found.len() < sweep.max_claims - sweep.recovered {
            found.len() as int
        } else {
            sweep.max_claims - sweep.recovered
        };
        assert(seq![found[0]] + rest.take(count - 1) =~= found.take(count));
    }
}

/// The handling of an event by a stored instance, as a driver sees it.
pub struct Handling<S, K> {
    /// What the store holds in the end.
    pub stored: Option<state_machine_model::SnapshotView<S>>,
    /// The instance that handled the event, where one did.
    pub handled: Option<state_machine_execution::InstanceView<S>>,
    /// What the caller is answered, once the handling has ended.
    pub answer: Option<Result<state_machine_model::ResultView<K>, error::ErrorView>>,
}

/// What a driver does from a step on, within a number of effects, on a store that nobody else
/// writes to; a new instance can be made where `creates` says so.
pub open spec fn instance_driven<S, K>(
    creates: bool,
    result: state_machine_model::ResultView<K>,
    after: S,
    now: int,
    stored: Option<state_machine_model::SnapshotView<S>>,
    step: state_machine_execution::InstanceStepView<S, K>,
    effects: nat,
) -> Handling<S, K>
    decreases effects,
{
    if effects == 0 {
        Handling { stored, handled: None, answer: None }
    } else {
        let less = (effects - 1) as nat;
        match step {
            state_machine_execution::InstanceStepView::CreateInitial { instance_id } => {
                let next = state_machine_execution::after_initial(instance_id, Ok(creates));
                instance_driven(creates, result, after, now, stored, next, less)
            },
            state_machine_execution::InstanceStepView::Handle { instance } => {
                let next = state_machine_execution::after_handling(
                    instance,
                    Ok(result),
                    after,
                    now,
                );
                let rest = instance_driven(creates, result, after, now, stored, next, less);
                Handling { handled: Some(instance), ..rest }
            },
            state_machine_execution::InstanceStepView::Create { snapshot, result: made } => {
                let next = state_machine_execution::after_instance_write(
                    snapshot.instance_id,
                    made,
                    Ok(stored is None),
                    Seq::empty(),
                );
                let kept = if stored is None {
                    Some(snapshot)
                } else {
                    stored
                };
                instance_driven(creates, result, after, now, kept, next, less)
            },
            state_machine_execution::InstanceStepView::Update {
                expected_version,
                next: changed,
                result: made,
            } => {
                let current = stored is Some && stored->0.version == expected_version;
                let next = state_machine_execution::after_instance_write(
                    changed.instance_id,
                    made,
                    Ok(current),
                    Seq::empty(),
                );
                let kept = if current {
                    Some(changed)
                } else {
                    stored
                };
                instance_driven(creates, result, after, now, kept, next, less)
            },
            state_machine_execution::InstanceStepView::Finish(answer) => Handling {
                stored,
                handled: None,
                answer: Some(answer),
            },
        }
    }
}

/// An event goes to the stored instance where there is one, and to a new instance where there is none
/// and one can be made; otherwise the caller is answered that the instance was not found. An event
/// that was handled is stored, with the new state and the following version, and one that was not
/// leaves the store unchanged; both are answered.
pub proof fn lemma_handled_events_are_stored<S, K>(
    creates: bool,
    result: state_machine_model::ResultView<K>,
    instance_id: Seq<char>,
    after: S,
    now: int,
    stored: Option<state_machine_model::SnapshotView<S>>,
)
    requires
        stored matches Some(snapshot) ==> snapshot.version < i64::MAX && snapshot.instance_id
            == instance_id,
    ensures
        ({
            let start = state_machine_execution::after_instance_load::<S, K>(
                instance_id,
                Ok(stored),
            );
            let end = instance_driven(creates, result, after, now, stored, start, 5);
            &&& stored is None && !creates ==> {
                &&& end.stored is None
                &&& end.handled is None
                &&& end.answer is Some
                &&& end.answer->0 is Err
                &&& end.answer->0->Err_0.code == ErrorCode::NotFound
            }
            &&& stored is Some || creates ==> {
                &&& end.answer == Some(
                    Ok::<state_machine_model::ResultView<K>, error::ErrorView>(result),
                )
                &&& end.handled == match stored {
                    Some(snapshot) => Some(
                        state_machine_execution::InstanceView::Existing { snapshot },
                    ),
                    None => Some(state_machine_execution::InstanceView::New { instance_id }),
                }
                &&& !result.handled ==> end.stored == stored
                &&& result.handled ==> {
                    &&& end.stored is Some
                    &&& end.stored->0.instance_id == instance_id
                    &&& end.stored->0.state == after
                    &&& match stored {
                        Some(snapshot) => {
                            &&& end.stored->0.version == snapshot.version + 1
                            &&& end.stored->0.created_at == snapshot.created_at
                            &&& end.stored->0.updated_at == if now < snapshot.updated_at {
                                snapshot.updated_at
                            } else {
                                now
                            }
                        },
                        None => {
                            &&& end.stored->0.version == 0
                            &&& end.stored->0.created_at == now
                            &&& end.stored->0.updated_at == now
                        },
                    }
                }
            }
        }),
{
    reveal_with_fuel(instance_driven, 6);
}

/// An instance that another writer changed is answered as a conflict, and a failure of the store or of
/// the handler as that failure: nothing is answered as handled that is not stored.
pub proof fn lemma_lost_writes_are_conflicts<S, K>(
    instance: state_machine_execution::InstanceView<S>,
    instance_id: Seq<char>,
    result: state_machine_model::ResultView<K>,
    after: S,
    now: int,
    failure: error::ErrorView,
    message: Seq<char>,
)
    ensures
        ({
            let lost = state_machine_execution::after_instance_write::<S, K>(
                instance_id,
                result,
                Ok(false),
                message,
            );
            &&& lost is Finish
            &&& lost->Finish_0 is Err
            &&& lost->Finish_0->Err_0.code == ErrorCode::Conflict
        }),
        state_machine_execution::after_instance_write::<S, K>(
            instance_id,
            result,
            Err(failure),
            message,
        ) == state_machine_execution::InstanceStepView::<S, K>::Finish(Err(failure)),
        state_machine_execution::after_handling::<S, K>(instance, Err(failure), after, now)
            == state_machine_execution::InstanceStepView::<S, K>::Finish(Err(failure)),
        state_machine_execution::after_initial::<S, K>(instance_id, Err(failure))
            == state_machine_execution::InstanceStepView::<S, K>::Finish(Err(failure)),
        state_machine_execution::after_instance_load::<S, K>(instance_id, Err(failure))
            == state_machine_execution::InstanceStepView::<S, K>::Finish(Err(failure)),
{
}

/// A sweep ends with the first failure to claim or to run a flow.
pub proof fn lemma_failures_end_a_sweep(sweep: RecoverySweep, failure: error::ErrorView)
    ensures
        sweep.after_claim(Err(failure)) == executor::RecoveryStepView::Finish(Err(failure)),
        sweep.after_run(Err(failure)) == executor::RecoveryStepView::Finish(Err(failure)),
{
}

/// A claim that another executor won runs nothing: where the other one has stored an outcome, that
/// outcome is answered, and otherwise a transient failure.
pub proof fn lemma_lost_claims_run_nothing(
    executor: executor::ExecutorView,
    claimed: state::FlowStateView,
    current: state::FlowStateView,
)
    ensures
        executor.after_claim(claimed, Ok(false)) == (executor::ExecutorStepView::LoadLostClaim {
            id: claimed.id,
        }),
        ({
            let lost = executor.after_lost_claim(Ok(Some(current)));
            let gone = executor.after_lost_claim(Ok(None));
            &&& gone is Finish
            &&& gone->Finish_0 is Err
            &&& gone->Finish_0->Err_0.code == ErrorCode::Transient
            &&& lost is Finish
            &&& current.status == FlowStatus::Done ==> {
                &&& lost->Finish_0 is Ok
                &&& lost->Finish_0->Ok_0.completed_steps == current.step
                &&& lost->Finish_0->Ok_0.error is None
            }
            &&& current.status == FlowStatus::Failed && current.error is Some ==> {
                &&& lost->Finish_0 is Ok
                &&& lost->Finish_0->Ok_0.completed_steps == current.step
                &&& lost->Finish_0->Ok_0.error == current.error
            }
            &&& current.status == FlowStatus::Running || current.status == FlowStatus::Compensating
                || current.status == FlowStatus::Suspended ==> {
                &&& lost->Finish_0 is Err
                &&& lost->Finish_0->Err_0.code == ErrorCode::Transient
            }
        }),
{
}

} // verus!
