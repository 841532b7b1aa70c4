//! What holds of every run of a checkpointed flow: its items, its parallel branches, its progress
//! records and the events of its top-level steps.

use vstd::prelude::*;

use crate::dsl_checkpoint;
use crate::dsl_checkpoint::CheckpointLevel;
use crate::dsl_fan_out;
use crate::dsl_for_each;
use crate::dsl_lifecycle;
use crate::dsl_lifecycle::DslRunMode;
use crate::dsl_parallel_recovery;
use crate::dsl_progress;
use crate::dsl_progress::DslProgressKind;
use crate::dsl_recovery;
use crate::dsl_step;
use crate::dsl_step::StepGuards;
use crate::dsl_when_any;
use crate::error;
use crate::error::ErrorCode;

verus! {

/// What a driver did with the items of a collection.
pub struct ItemTrace {
    /// The items that were worked on, in order.
    pub worked: Seq<int>,
    /// The items whose failure was handed to the error callback, in order.
    pub handled: Seq<int>,
    /// The cursors that were stored, in order.
    pub stored: Seq<int>,
    /// The step at which the driver stopped.
    pub stopped: dsl_for_each::ItemStepView,
}

/// What a driver does from a step on, within a number of effects, while every cursor can be stored.
pub open spec fn items_driven(
    outcomes: spec_fn(int) -> Result<(), error::ErrorView>,
    handlers: spec_fn(int) -> Result<(), error::ErrorView>,
    step: dsl_for_each::ItemStepView,
    effects: nat,
) -> ItemTrace
    decreases effects,
{
    let stop = ItemTrace {
        worked: Seq::empty(),
        handled: Seq::empty(),
        stored: Seq::empty(),
        stopped: step,
    };
    if effects == 0 {
        stop
    } else {
        let less = (effects - 1) as nat;
        match step {
            dsl_for_each::ItemStepView::Run(run) => {
                let next = run.after_item(outcomes(run.next));
                let rest = items_driven(outcomes, handlers, next, less);
                ItemTrace { worked: seq![run.next] + rest.worked, ..rest }
            },
            dsl_for_each::ItemStepView::HandleError { run, .. } => {
                let next = run.after_handler(handlers(run.next));
                let rest = items_driven(outcomes, handlers, next, less);
                ItemTrace { handled: seq![run.next] + rest.handled, ..rest }
            },
            dsl_for_each::ItemStepView::Save(run) => {
                let rest = items_driven(outcomes, handlers, run.after_save(Ok(())), less);
                ItemTrace { stored: seq![run.next] + rest.stored, ..rest }
            },
            _ => stop,
        }
    }
}

/// Whether an item lets the next one start: it succeeds, or its failure is handled.
pub open spec fn is_settled(
    continues_on_error: bool,
    outcomes: spec_fn(int) -> Result<(), error::ErrorView>,
    handlers: spec_fn(int) -> Result<(), error::ErrorView>,
    item: int,
) -> bool {
    outcomes(item) is Ok || (continues_on_error && handlers(item) is Ok)
}

/// The items before a place, from another on, whose failure is handed to the error callback.
pub open spec fn handed_over(
    outcomes: spec_fn(int) -> Result<(), error::ErrorView>,
    from: int,
    to: int,
) -> Seq<int>
    decreases to - from,
{
    if from >= to {
        Seq::empty()
    } else if outcomes(from) is Err {
        seq![from] + handed_over(outcomes, from + 1, to)
    } else {
        handed_over(outcomes, from + 1, to)
    }
}

proof fn lemma_items_are_driven(
    run: dsl_for_each::ItemRunView,
    outcomes: spec_fn(int) -> Result<(), error::ErrorView>,
    handlers: spec_fn(int) -> Result<(), error::ErrorView>,
    stop: int,
    effects: nat,
)
    requires
        0 <= run.next <= stop <= run.items.len(),
        forall|i: int|
            run.next <= i < stop ==> #[trigger] is_settled(
                run.continues_on_error,
                outcomes,
                handlers,
                i,
            ),
        stop < run.items.len() ==> !is_settled(run.continues_on_error, outcomes, handlers, stop),
        effects >= 3 * (run.items.len() - run.next) + 1,
    ensures
        ({
            let trace = items_driven(outcomes, handlers, run.at_cursor(), effects);
            let failed = stop < run.items.len();
            let count = stop - run.next + if failed {
                1int
            } else {
                0
            };
            &&& trace.worked =~= Seq::new(count as nat, |i: int| run.next + i)
            &&& trace.handled =~= if run.continues_on_error {
                handed_over(outcomes, run.next, run.next + count)
            } else {
                Seq::<int>::empty()
            }
            &&& trace.stored =~= if run.checkpointed {
                Seq::new((stop - run.next) as nat, |i: int| run.next + 1 + i)
            } else {
                Seq::<int>::empty()
            }
            &&& trace.stopped == dsl_for_each::ItemStepView::Finish(
                if !failed {
                    Ok(())
                } else if run.continues_on_error {
                    handlers(stop)
                } else {
                    outcomes(stop)
                },
            )
        }),
    decreases stop - run.next,
{
    let trace = items_driven(outcomes, handlers, run.at_cursor(), effects);
    if run.next < run.items.len() {
        let less = (effects - 1) as nat;
        let after = run.after_item(outcomes(run.next));
        let first = items_driven(outcomes, handlers, after, less);
        assert(trace == ItemTrace { worked: seq![run.next] + first.worked, ..first });
        let handed = outcomes(run.next) is Err && run.continues_on_error;
        let left = if handed {
            (less - 1) as nat
        } else {
            less
        };
        let handled = run.after_handler(handlers(run.next));
        let second = items_driven(outcomes, handlers, handled, left);
        if handed {
            assert(first == ItemTrace { handled: seq![run.next] + second.handled, ..second });
        }
        if run.next < stop {
            assert(is_settled(run.continues_on_error, outcomes, handlers, run.next));
            let moved = dsl_for_each::ItemRunView { next: run.next + 1, ..run };
            assert forall|i: int| moved.next <= i < stop implies #[trigger] is_settled(
                moved.continues_on_error,
                outcomes,
                handlers,
                i,
            ) by {}
            let settled = items_driven(outcomes, handlers, run.settled(), left);
            let last = if run.checkpointed {
                (left - 1) as nat
            } else {
                left
            };
            let rest = items_driven(outcomes, handlers, moved.at_cursor(), last);
            if run.checkpointed {
                assert(settled == ItemTrace { stored: seq![run.next + 1] + rest.stored, ..rest });
            }
            lemma_items_are_driven(moved, outcomes, handlers, stop, last);
        } else {
            assert(handed_over(outcomes, run.next + 1, run.next + 1) =~= Seq::empty());
        }
    }
}

/// Work on items takes them in order, each once, from the cursor on, and goes on behind an item only
/// where it succeeded, or where failures are handed over and its failure was handled. The first item
/// that is not settled ends the work with its failure, or with that of its callback; without one
/// the work succeeds behind the last item. Checkpointed work stores the cursor behind each settled
/// item before the next one starts, and behind no other.
pub proof fn lemma_items_are_taken_in_order(
    run: dsl_for_each::ItemRunView,
    outcomes: spec_fn(int) -> Result<(), error::ErrorView>,
    handlers: spec_fn(int) -> Result<(), error::ErrorView>,
    stop: int,
    effects: nat,
)
    requires
        0 <= run.next <= stop <= run.items.len(),
        forall|i: int|
            run.next <= i < stop ==> #[trigger] is_settled(
                run.continues_on_error,
                outcomes,
                handlers,
                i,
            ),
        stop < run.items.len() ==> !is_settled(run.continues_on_error, outcomes, handlers, stop),
        effects >= 3 * (run.items.len() - run.next) + 1,
        dsl_for_each::items_failure(run.items) is None,
    ensures
        ({
            let trace = items_driven(outcomes, handlers, dsl_for_each::start_at(run), effects);
            let failed = stop < run.items.len();
            &&& trace.worked.len() == stop - run.next + if failed {
                1int
            } else {
                0
            }
            &&& forall|i: int|
                0 <= i < trace.worked.len() ==> #[trigger] trace.worked[i] == run.next + i
            &&& trace.stored.len() == if run.checkpointed {
                stop - run.next
            } else {
                0
            }
            &&& forall|i: int|
                0 <= i < trace.stored.len() ==> #[trigger] trace.stored[i] == run.next + 1 + i
            &&& !run.continues_on_error ==> trace.handled.len() == 0
            &&& trace.stopped == dsl_for_each::ItemStepView::Finish(
                if !failed {
                    Ok(())
                } else if run.continues_on_error {
                    handlers(stop)
                } else {
                    outcomes(stop)
                },
            )
        }),
{
    lemma_items_are_driven(run, outcomes, handlers, stop, effects);
}

/// Newly selected items are worked on from the first; items that were stored with a cursor are not
/// selected again, and the work goes on at that cursor.
pub proof fn lemma_stored_items_are_not_selected_again(
    continues_on_error: bool,
    checkpointed: bool,
    items: Seq<Seq<u8>>,
    next_index: u32,
)
    requires
        dsl_for_each::items_failure(items) is None,
        next_index <= items.len(),
    ensures
        dsl_for_each::start_items(
            continues_on_error,
            checkpointed,
            Some(dsl_checkpoint::WorkView::ReplayableForEach { next_index, items }),
        ) == if next_index < items.len() {
            dsl_for_each::ItemStepView::Run(
                dsl_for_each::ItemRunView {
                    items,
                    next: next_index as int,
                    continues_on_error,
                    checkpointed,
                },
            )
        } else {
            dsl_for_each::ItemStepView::Finish(Ok(()))
        },
        dsl_for_each::start_items(continues_on_error, checkpointed, None)
            == dsl_for_each::ItemStepView::Select,
        items.len() > 0 ==> dsl_for_each::start_selected(
            continues_on_error,
            checkpointed,
            Ok(items),
        ) == dsl_for_each::ItemStepView::Run(
            dsl_for_each::ItemRunView { items, next: 0, continues_on_error, checkpointed },
        ),
        items.len() == 0 ==> dsl_for_each::start_selected(
            continues_on_error,
            checkpointed,
            Ok(items),
        ) == dsl_for_each::ItemStepView::Finish(Ok(())),
{
}

/// Items are kept in a checkpoint exactly where there are at most 65536 of them and they have
/// together at most 1048576 bytes.
pub proof fn lemma_kept_items_are_bounded(items: Seq<Seq<u8>>)
    ensures
        dsl_for_each::items_failure(items) is None <==> items.len() <= 65536
            && dsl_for_each::total_size(items) <= 1048576,
{
    lemma_sizes_decide(items);
}

proof fn lemma_sizes_decide(items: Seq<Seq<u8>>)
    ensures
        dsl_for_each::size_failure(items) is None <==> dsl_for_each::total_size(items) <= 1048576,
    decreases items.len(),
{
    if items.len() > 0 {
        lemma_sizes_decide(items.drop_last());
    }
}

/// The branches of a parallel step are merged exactly where the final state of each is known and
/// nothing failed; a step starts without either.
pub proof fn lemma_merges_need_every_branch(
    recovery: dsl_parallel_recovery::ParallelView,
    saved: Seq<Option<dsl_checkpoint::BranchProgressView>>,
)
    ensures
        recovery.result() is Ok <==> {
            &&& recovery.first_error is None
            &&& forall|i: int|
                0 <= i < recovery.completed.len() ==> #[trigger] recovery.completed[i]
        },
        recovery.first_error matches Some(failure) ==> recovery.result() == Err::<
            (),
            error::ErrorView,
        >(failure),
        ({
            let started = dsl_parallel_recovery::ParallelView::started(saved);
            &&& started.saved == saved
            &&& started.first_error is None
            &&& started.completed.len() == saved.len()
            &&& forall|i: int|
                0 <= i < started.completed.len() ==> !#[trigger] started.completed[i]
        }),
{
    if recovery.first_error is None {
        if recovery.completed.contains(false) {
            let i = choose|i: int| 0 <= i < recovery.completed.len() && !recovery.completed[i];
            assert(!recovery.completed[i]);
        } else {
            assert forall|i: int| 0 <= i < recovery.completed.len() implies #[trigger]
                recovery.completed[i] by {
                if !recovery.completed[i] {
                    assert(recovery.completed.contains(false));
                }
            }
        }
    }
}

/// A branch that succeeds is kept with its final state and is the only one that becomes complete; a
/// branch that fails becomes no more complete than before, its failure is noted where it is the
/// first, and the progress that it left is kept for the next run. No other branch is touched.
pub proof fn lemma_branches_are_settled_one_by_one(
    recovery: dsl_parallel_recovery::ParallelView,
    index: int,
    other: int,
    state: Seq<u8>,
    failure: error::ErrorView,
    record: dsl_progress::ProgressView,
)
    requires
        recovery.saved.len() == recovery.completed.len(),
        0 <= index < recovery.saved.len(),
        0 <= other < recovery.saved.len(),
        other != index,
        !recovery.completed[index],
        dsl_parallel_recovery::replacement_failure(recovery.saved, index, state.len()) is None,
        dsl_parallel_recovery::replacement_failure(
            recovery.saved,
            index,
            record.payload.len(),
        ) is None,
    ensures
        ({
            let won = recovery.after_branch(index, Ok(state), Some(record));
            let lost = recovery.after_branch(index, Err(failure), Some(record));
            let known = recovery.restored(index);
            &&& won.completed[index]
            &&& won.saved[index] == Some(dsl_checkpoint::BranchProgressView::Completed { state })
            &&& won.first_error == recovery.first_error
            &&& !lost.completed[index]
            &&& lost.first_error == if recovery.first_error is None {
                Some(failure)
            } else {
                recovery.first_error
            }
            &&& lost.saved[index] == Some(
                dsl_checkpoint::BranchProgressView::InProgress {
                    step_index: record.step_index,
                    checkpoint_frame: record.kind == DslProgressKind::CheckpointFrame,
                    payload: record.payload,
                },
            )
            &&& known.completed[index]
            &&& known.first_error == recovery.first_error
            &&& known.saved == recovery.saved
            &&& won.saved[other] == recovery.saved[other]
            &&& won.completed[other] == recovery.completed[other]
            &&& lost.saved[other] == recovery.saved[other]
            &&& lost.completed[other] == recovery.completed[other]
            &&& known.completed[other] == recovery.completed[other]
        }),
{
}

/// A write of progress that fails is noted as the failure of the step, unless one was noted before;
/// one that succeeds changes nothing.
pub proof fn lemma_lost_progress_fails_the_step(
    recovery: dsl_parallel_recovery::ParallelView,
    failure: error::ErrorView,
)
    ensures
        recovery.after_save(Ok(())) == recovery,
        recovery.after_save(Err(failure)).first_error == if recovery.first_error is None {
            Some(failure)
        } else {
            recovery.first_error
        },
        recovery.after_save(Err(failure)).saved == recovery.saved,
        recovery.after_save(Err(failure)).completed == recovery.completed,
{
}

/// A step without stored progress starts all its branches anew; a step with stored progress starts
/// each branch from what was stored for it: a branch with a final state is not run again.
pub proof fn lemma_parallel_steps_start_from_their_progress(
    count: nat,
    branches: Seq<Option<dsl_checkpoint::BranchProgressView>>,
    states: Seq<Option<Seq<u8>>>,
)
    requires
        count <= dsl_parallel_recovery::MAX_CHECKPOINT_PARALLEL_BRANCHES,
        branches.len() == count,
        states.len() == count,
        dsl_parallel_recovery::saved_failure(branches) is None,
        dsl_parallel_recovery::saved_failure(
            dsl_parallel_recovery::finished_branches(states),
        ) is None,
        dsl_parallel_recovery::saved_failure(
            Seq::new(count, |i: int| None::<dsl_checkpoint::BranchProgressView>),
        ) is None,
    ensures
        ({
            let anew = dsl_parallel_recovery::parallel_start(count, None);
            &&& anew is Ok
            &&& anew->Ok_0.len() == count
            &&& forall|i: int| 0 <= i < count ==> (#[trigger] anew->Ok_0[i]) is None
        }),
        dsl_parallel_recovery::parallel_start(
            count,
            Some(dsl_checkpoint::WorkView::ParallelBranches { branches }),
        ) == Ok::<Seq<Option<dsl_checkpoint::BranchProgressView>>, Seq<char>>(branches),
        ({
            let kept = dsl_parallel_recovery::parallel_start(
                count,
                Some(dsl_checkpoint::WorkView::Parallel { states }),
            );
            &&& kept is Ok
            &&& kept->Ok_0.len() == count
            &&& forall|i: int|
                0 <= i < count ==> (#[trigger] kept->Ok_0[i]) == match states[i] {
                    Some(state) => Some(
                        dsl_checkpoint::BranchProgressView::Completed { state },
                    ),
                    None => None,
                }
        }),
{
    assert(Seq::new(count, |index: int| None::<dsl_checkpoint::BranchProgressView>) =~= Seq::new(
        count,
        |i: int| None::<dsl_checkpoint::BranchProgressView>,
    ));
}

/// Branches that ran at once succeed together exactly where each succeeds, and otherwise fail with
/// the failure of the first of them, in the order of declaration, that failed.
pub proof fn lemma_the_first_declared_failure_is_returned(
    results: Seq<Result<(), error::ErrorView>>,
)
    ensures
        match dsl_fan_out::joined(results) {
            Ok(_) => forall|i: int| 0 <= i < results.len() ==> #[trigger] results[i] is Ok,
            Err(failure) => exists|first: int|
                {
                    &&& 0 <= first < results.len()
                    &&& #[trigger] results[first] == Err::<(), error::ErrorView>(failure)
                    &&& forall|i: int| 0 <= i < first ==> #[trigger] results[i] is Ok
                },
        },
    decreases results.len(),
{
    if results.len() > 0 {
        if results[0] is Err {
            assert(results[0] == results[0]);
        } else {
            let rest = results.drop_first();
            lemma_the_first_declared_failure_is_returned(rest);
            match dsl_fan_out::joined(rest) {
                Ok(_) => {
                    assert forall|i: int| 0 <= i < results.len() implies #[trigger]
                        results[i] is Ok by {
                        if i > 0 {
                            assert(rest[i - 1] is Ok);
                        }
                    }
                },
                Err(failure) => {
                    let first = choose|first: int|
                        {
                            &&& 0 <= first < rest.len()
                            &&& #[trigger] rest[first] == Err::<(), error::ErrorView>(failure)
                            &&& forall|i: int| 0 <= i < first ==> #[trigger] rest[i] is Ok
                        };
                    assert(results[first + 1] == Err::<(), error::ErrorView>(failure));
                    assert forall|i: int| 0 <= i < first + 1 implies #[trigger] results[i] is Ok by {
                        if i > 0 {
                            assert(rest[i - 1] is Ok);
                        }
                    }
                },
            }
        }
    }
}

/// A race whose winner was stored is not run again: the stored state of that winner is restored. A
/// winner that is no branch of the step is rejected.
pub proof fn lemma_stored_winners_stay_winners(count: nat, winner: u32, state: Seq<u8>)
    requires
        count <= 64,
    ensures
        winner < count ==> dsl_when_any::race_start(
            count,
            Some(dsl_checkpoint::WorkView::WhenAny { winner, state }),
        ) == (dsl_when_any::WhenAnyStepView::Restore { winner: winner as usize, state }),
        winner >= count ==> {
            let step = dsl_when_any::race_start(
                count,
                Some(dsl_checkpoint::WorkView::WhenAny { winner, state }),
            );
            &&& step is Finish
            &&& step->Finish_0 is Err
        },
        count == 0 ==> dsl_when_any::race_start(count, None)
            == dsl_when_any::WhenAnyStepView::Finish(Ok(())),
        count > 0 ==> dsl_when_any::race_start(count, None)
            == dsl_when_any::WhenAnyStepView::Await(
            dsl_when_any::RaceView { pending: count as int, first_error: None },
        ),
{
}

/// A step whose conditions hold fails with the failure of its action, unless the step is optional
/// and the failure is no cancellation; a step with a condition that does not hold succeeds without
/// running.
pub proof fn lemma_only_optional_steps_tolerate_failures(
    guards: StepGuards,
    conditions: spec_fn(int) -> bool,
    failure: error::ErrorView,
    failures: spec_fn(int) -> Option<error::ErrorView>,
)
    ensures
        ({
            let (ran, end) = dsl_step::whole_step(
                guards,
                conditions,
                Err(failure),
                failures,
                guards.at_condition(0),
            );
            let permitted = forall|i: int|
                0 <= i < guards.conditions ==> #[trigger] conditions(i);
            &&& ran == permitted
            &&& permitted && guards.optional && failure.code != ErrorCode::Cancelled ==> end
                == dsl_step::GuardStepView::Finish(Ok(()))
            &&& permitted && (!guards.optional || failure.code == ErrorCode::Cancelled) ==> end
                == dsl_step::GuardStepView::Finish(Err(failure))
            &&& !permitted ==> end == dsl_step::GuardStepView::Finish(Ok(()))
        }),
{
    dsl_step::lemma_conditions_decide(guards, conditions, Err(failure), failures, 0);
    let after = guards.after_body(Err(failure));
    assert(dsl_step::whole_step(guards, conditions, Err(failure), failures, after) == (
        false,
        after,
    ));
}

/// An effect of the run of a flow.
pub enum RunEffect {
    /// A step ran.
    Ran(int),
    /// The observers and the hook heard of an event.
    Told(dsl_lifecycle::LifecycleEventView),
    /// The state after a step was stored.
    Stored(int),
    /// The final state was stored.
    StoredLast,
}

/// What a driver does from a step of a run on, within a number of effects, while every hook and
/// every write succeeds.
pub open spec fn run_driven(
    mode: DslRunMode,
    length: nat,
    outcomes: spec_fn(int) -> Result<(), error::ErrorView>,
    step: dsl_lifecycle::RunStepView,
    effects: nat,
) -> (Seq<RunEffect>, Option<Result<(), error::ErrorView>>)
    decreases effects,
{
    if effects == 0 {
        (Seq::empty(), None)
    } else {
        let less = (effects - 1) as nat;
        match step {
            dsl_lifecycle::RunStepView::Run { index } => {
                let next = dsl_lifecycle::after_step(index, outcomes(index));
                let rest = run_driven(mode, length, outcomes, next, less);
                (seq![RunEffect::Ran(index)] + rest.0, rest.1)
            },
            dsl_lifecycle::RunStepView::Notify(event) => {
                let next = dsl_lifecycle::after_event(mode, length, event, Ok(()));
                let rest = run_driven(mode, length, outcomes, next, less);
                (seq![RunEffect::Told(event)] + rest.0, rest.1)
            },
            dsl_lifecycle::RunStepView::SaveStep { index } => {
                let next = dsl_lifecycle::after_save(mode, length, index, Ok(()));
                let rest = run_driven(mode, length, outcomes, next, less);
                (seq![RunEffect::Stored(index)] + rest.0, rest.1)
            },
            dsl_lifecycle::RunStepView::SaveTerminal => (seq![RunEffect::StoredLast], Some(Ok(()))),
            dsl_lifecycle::RunStepView::Finish(result) => (Seq::empty(), Some(result)),
        }
    }
}

/// What a run does from a step on: each step that succeeds is reported and, where the run is
/// checkpointed, stored before the next one runs; the first that fails is reported, and then the
/// failure of the flow; behind the last the success of the flow is reported and, where the run is
/// not that of a branch, the final state is stored.
pub open spec fn expected_effects(
    mode: DslRunMode,
    length: nat,
    outcomes: spec_fn(int) -> Result<(), error::ErrorView>,
    index: int,
) -> Seq<RunEffect>
    decreases length - index,
{
    if index >= length {
        if mode == DslRunMode::Checkpointed {
            seq![
                RunEffect::Told(dsl_lifecycle::LifecycleEventView::FlowSucceeded),
                RunEffect::StoredLast,
            ]
        } else {
            seq![RunEffect::Told(dsl_lifecycle::LifecycleEventView::FlowSucceeded)]
        }
    } else {
        match outcomes(index) {
            Err(error) => seq![
                RunEffect::Ran(index),
                RunEffect::Told(
                    dsl_lifecycle::LifecycleEventView::StepFailed { step_index: index, error },
                ),
                RunEffect::Told(dsl_lifecycle::LifecycleEventView::FlowFailed { error }),
            ],
            Ok(_) => seq![
                RunEffect::Ran(index),
                RunEffect::Told(
                    dsl_lifecycle::LifecycleEventView::StepSucceeded { step_index: index },
                ),
            ] + if mode == DslRunMode::Local {
                Seq::<RunEffect>::empty()
            } else {
                seq![RunEffect::Stored(index)]
            } + expected_effects(mode, length, outcomes, index + 1),
        }
    }
}

/// A run has exactly the effects that are expected of it, in that order, and ends with the failure
/// of the first step that fails, or with success.
pub proof fn lemma_runs_report_and_store_every_step(
    mode: DslRunMode,
    length: nat,
    outcomes: spec_fn(int) -> Result<(), error::ErrorView>,
    start: int,
    stop: int,
    effects: nat,
)
    requires
        0 <= start <= stop <= length < u32::MAX,
        forall|i: int| start <= i < stop ==> #[trigger] outcomes(i) is Ok,
        stop < length ==> outcomes(stop) is Err,
        effects >= 3 * (length - start) + 4,
    ensures
        ({
            let (done, result) = run_driven(
                mode,
                length,
                outcomes,
                dsl_lifecycle::run_at(mode, length, start),
                effects,
            );
            &&& done == expected_effects(mode, length, outcomes, start)
            &&& result == Some(
                if stop < length {
                    outcomes(stop)
                } else {
                    Ok(())
                },
            )
        }),
    decreases length - start,
{
    reveal_with_fuel(run_driven, 5);
    let (done, _) = run_driven(
        mode,
        length,
        outcomes,
        dsl_lifecycle::run_at(mode, length, start),
        effects,
    );
    if start < stop {
        assert(outcomes(start) is Ok);
        let used: int = if mode == DslRunMode::Local {
            2
        } else {
            3
        };
        let left = (effects - used) as nat;
        lemma_runs_report_and_store_every_step(mode, length, outcomes, start + 1, stop, left);
        let rest = run_driven(
            mode,
            length,
            outcomes,
            dsl_lifecycle::run_at(mode, length, start + 1),
            left,
        );
        if mode == DslRunMode::Local {
            assert(done =~= seq![
                RunEffect::Ran(start),
                RunEffect::Told(
                    dsl_lifecycle::LifecycleEventView::StepSucceeded { step_index: start },
                ),
            ] + rest.0);
        } else {
            assert(done =~= seq![
                RunEffect::Ran(start),
                RunEffect::Told(
                    dsl_lifecycle::LifecycleEventView::StepSucceeded { step_index: start },
                ),
                RunEffect::Stored(start),
            ] + rest.0);
        }
    }
    assert(done =~= expected_effects(mode, length, outcomes, start));
}

/// A hook or a write that fails ends the run with its failure: no further step runs.
pub proof fn lemma_failing_hooks_and_writes_end_the_run(
    mode: DslRunMode,
    length: nat,
    event: dsl_lifecycle::LifecycleEventView,
    index: int,
    failure: error::ErrorView,
)
    ensures
        dsl_lifecycle::after_event(mode, length, event, Err(failure))
            == dsl_lifecycle::RunStepView::Finish(Err(failure)),
        dsl_lifecycle::after_save(mode, length, index, Err(failure))
            == dsl_lifecycle::RunStepView::Finish(Err(failure)),
{
}

/// A flow that stored a frame at a step starts again at that step, with the state, the path and the
/// progress of the frame.
pub proof fn lemma_stored_frames_are_resumed(
    step_index: u32,
    frame: dsl_checkpoint::FrameView,
    record: dsl_progress::ProgressView,
)
    requires
        dsl_checkpoint::encode_failure(frame) is None,
        record.kind == DslProgressKind::CheckpointFrame,
        record.payload == dsl_checkpoint::frame_layout(frame),
    ensures
        dsl_recovery::after_progress(step_index, Ok(Some(record))) == (
        dsl_recovery::StartStepView::Resume {
            payload: frame.state,
            start: step_index as int,
            levels: frame.levels,
            work: Some(frame.work),
        }),
{
    dsl_checkpoint::lemma_frame_round_trip(frame);
}

/// A flow that stored the state after a step starts again behind that step, with that state; a flow
/// that stored its final state has completed and does not run again.
pub proof fn lemma_completed_steps_are_not_repeated(
    step_index: u32,
    length: int,
    record: dsl_progress::ProgressView,
)
    requires
        step_index < u32::MAX,
    ensures
        record.kind == DslProgressKind::ApplicationState ==> dsl_recovery::after_progress(
            step_index,
            Ok(Some(record)),
        ) == (dsl_recovery::StartStepView::Resume {
            payload: record.payload,
            start: step_index + 1,
            levels: Seq::<CheckpointLevel>::empty(),
            work: None,
        }),
        record.kind == DslProgressKind::Terminal ==> dsl_recovery::after_terminal(
            length,
            Ok(Some(record)),
        ) == (dsl_recovery::StartStepView::Completed { payload: record.payload }),
        record.kind != DslProgressKind::Terminal ==> dsl_recovery::after_terminal(
            length,
            Ok(Some(record)),
        ) is Fail,
{
}

/// The search for a start looks at the steps from the last to the first, one after the other; a
/// record that cannot be loaded ends it, and without any record the flow starts afresh.
pub proof fn lemma_the_search_goes_back_step_by_step(
    step_index: u32,
    length: int,
    failure: error::ErrorView,
)
    requires
        0 <= length <= u32::MAX,
    ensures
        dsl_recovery::after_terminal(length, Ok(None)) == if length == 0 {
            dsl_recovery::StartStepView::Fresh
        } else {
            dsl_recovery::StartStepView::Load { step_index: (length - 1) as u32 }
        },
        dsl_recovery::after_progress(step_index, Ok(None)) == if step_index == 0 {
            dsl_recovery::StartStepView::Fresh
        } else {
            dsl_recovery::StartStepView::Load { step_index: (step_index - 1) as u32 }
        },
        dsl_recovery::after_terminal(length, Err(failure)) == dsl_recovery::StartStepView::Fail(
            failure,
        ),
        dsl_recovery::after_progress(step_index, Err(failure)) == dsl_recovery::StartStepView::Fail(
            failure,
        ),
{
}

/// What a store holds after a write, and how the write ended, where no other writer interferes.
pub open spec fn written_to(
    stored: Option<dsl_progress::ProgressView>,
    step: dsl_recovery::WriteStepView,
    effects: nat,
) -> (Option<dsl_progress::ProgressView>, Option<Result<(), error::ErrorView>>)
    decreases effects,
{
    if effects == 0 {
        (stored, None)
    } else {
        let less = (effects - 1) as nat;
        match step {
            dsl_recovery::WriteStepView::Create { write, record } => if stored is None {
                written_to(Some(record), write.after_create(Ok(true)), less)
            } else {
                written_to(stored, write.after_create(Ok(false)), less)
            },
            dsl_recovery::WriteStepView::Load { write } => written_to(
                stored,
                write.after_load(Ok(stored)),
                less,
            ),
            dsl_recovery::WriteStepView::Update { write, expected_version, record } => if stored
                is Some && stored->0.version == expected_version {
                written_to(Some(record), write.after_update(Ok(true)), less)
            } else {
                written_to(stored, write.after_update(Ok(false)), less)
            },
            dsl_recovery::WriteStepView::Finish(result) => (stored, Some(result)),
        }
    }
}

/// A write that no other writer interferes with succeeds, and the store holds what was written: the
/// payload and the kind, for that flow and that step, at version zero where nothing was stored and
/// at the following version where a record was.
pub proof fn lemma_writes_are_stored(
    write: dsl_recovery::WriteView,
    stored: Option<dsl_progress::ProgressView>,
)
    requires
        write.attempts == 0,
        stored matches Some(record) ==> record.flow_id == write.flow_id && record.step_index
            == write.step_index && record.version < i64::MAX,
    ensures
        ({
            let (after, result) = written_to(
                stored,
                dsl_recovery::WriteStepView::Create { write, record: write.first_record() },
                4,
            );
            &&& result == Some(Ok::<(), error::ErrorView>(()))
            &&& after is Some
            &&& after->0.flow_id == write.flow_id
            &&& after->0.step_index == write.step_index
            &&& after->0.payload == write.payload
            &&& after->0.kind == write.kind
            &&& after->0.version == match stored {
                None => 0,
                Some(record) => record.version + 1,
            }
        }),
{
    reveal_with_fuel(written_to, 5);
}

/// A write that loses against other writers is repeated from a fresh load, at most three times, and
/// then ends with a conflict; it is never reported as stored.
pub proof fn lemma_lost_writes_are_repeated_and_reported(
    write: dsl_recovery::WriteView,
    failure: error::ErrorView,
)
    requires
        write.attempts >= 0,
    ensures
        write.attempts < 2 ==> write.after_update(Ok(false)) == (dsl_recovery::WriteStepView::Load {
            write: dsl_recovery::WriteView { attempts: write.attempts + 1, ..write },
        }),
        write.attempts >= 2 ==> {
            &&& write.after_update(Ok(false)) is Finish
            &&& write.after_update(Ok(false))->Finish_0 is Err
            &&& write.after_update(Ok(false))->Finish_0->Err_0.code == ErrorCode::Conflict
        },
        write.after_create(Ok(false)) == (dsl_recovery::WriteStepView::Load { write }),
        write.after_load(Ok(None)) is Finish && write.after_load(Ok(None))->Finish_0 is Err,
        write.after_create(Err(failure)) == dsl_recovery::WriteStepView::Finish(Err(failure)),
        write.after_load(Err(failure)) == dsl_recovery::WriteStepView::Finish(Err(failure)),
        write.after_update(Err(failure)) == dsl_recovery::WriteStepView::Finish(Err(failure)),
{
}

/// Each hook hears of its own kind of event and of no other.
pub proof fn lemma_hooks_hear_their_own_events<A>(
    hooks: dsl_lifecycle::HooksView<A>,
    step_index: int,
    error: error::ErrorView,
    event: dsl_lifecycle::LifecycleEventView,
)
    ensures
        hooks.hook_for(dsl_lifecycle::LifecycleEventView::StepSucceeded { step_index })
            == hooks.step_succeeded,
        hooks.hook_for(dsl_lifecycle::LifecycleEventView::StepFailed { step_index, error })
            == hooks.step_failed,
        hooks.hook_for(dsl_lifecycle::LifecycleEventView::FlowSucceeded) == hooks.flow_succeeded,
        hooks.hook_for(dsl_lifecycle::LifecycleEventView::FlowFailed { error })
            == hooks.flow_failed,
        dsl_lifecycle::HooksView::<A>::none().hook_for(event) is None,
{
}

/// A branch with a final state or without progress starts afresh within its own store; a branch under
/// way starts from the record that holds its step and its payload, as a state or as a frame, as it was
/// left.
pub proof fn lemma_branches_start_from_what_they_left(
    step_index: u32,
    payload: Seq<u8>,
    state: Seq<u8>,
    frame: dsl_checkpoint::FrameView,
)
    requires
        payload.len() <= 1048576,
        state.len() <= 1048576,
        dsl_checkpoint::encode_failure(frame) is None,
        dsl_checkpoint::frame_layout(frame).len() <= 1048576,
        dsl_checkpoint::is_frame(dsl_checkpoint::frame_layout(frame)),
    ensures
        dsl_parallel_recovery::branch_start(None) == Ok::<
            Option<dsl_progress::ProgressView>,
            Seq<char>,
        >(None),
        dsl_parallel_recovery::branch_start(
            Some(dsl_checkpoint::BranchProgressView::Completed { state }),
        ) == Ok::<Option<dsl_progress::ProgressView>, Seq<char>>(None),
        ({
            let record = dsl_parallel_recovery::branch_start(
                Some(
                    dsl_checkpoint::BranchProgressView::InProgress {
                        step_index,
                        checkpoint_frame: false,
                        payload,
                    },
                ),
            );
            &&& record is Ok
            &&& record->Ok_0 is Some
            &&& record->Ok_0->0.step_index == step_index
            &&& record->Ok_0->0.payload == payload
            &&& record->Ok_0->0.version == 0
            &&& record->Ok_0->0.kind == DslProgressKind::ApplicationState
        }),
        ({
            let layout = dsl_checkpoint::frame_layout(frame);
            let record = dsl_parallel_recovery::branch_start(
                Some(
                    dsl_checkpoint::BranchProgressView::InProgress {
                        step_index,
                        checkpoint_frame: true,
                        payload: layout,
                    },
                ),
            );
            &&& record is Ok
            &&& record->Ok_0 is Some
            &&& record->Ok_0->0.step_index == step_index
            &&& record->Ok_0->0.payload == layout
            &&& record->Ok_0->0.version == 0
            &&& record->Ok_0->0.kind == DslProgressKind::CheckpointFrame
        }),
{
    dsl_checkpoint::lemma_frame_round_trip(frame);
}

/// The record of a branch is replaced exactly by the following version of the same step of the same
/// flow, where the expected version is the one that is stored.
pub proof fn lemma_branch_records_are_replaced_in_order(
    stored: dsl_progress::ProgressView,
    expected_version: i64,
    next: dsl_progress::ProgressView,
)
    ensures
        dsl_parallel_recovery::replaces(Some(stored), expected_version, next) <==> {
            &&& stored.version == expected_version
            &&& next.version == stored.version + 1
            &&& next.flow_id == stored.flow_id
            &&& next.step_index == stored.step_index
        },
        !dsl_parallel_recovery::replaces(None, expected_version, next),
{
}

/// A branch that fails without progress starts afresh the next time; one whose result is too large to
/// be kept is not complete, and the step fails.
pub proof fn lemma_branches_without_progress_start_afresh(
    recovery: dsl_parallel_recovery::ParallelView,
    index: int,
    state: Seq<u8>,
    failure: error::ErrorView,
)
    requires
        recovery.saved.len() == recovery.completed.len(),
        0 <= index < recovery.saved.len(),
        !recovery.completed[index],
    ensures
        ({
            let lost = recovery.after_branch(index, Err(failure), None);
            &&& lost.saved[index] is None
            &&& !lost.completed[index]
        }),
        state.len() > 1048576 ==> {
            let refused = recovery.after_branch(index, Ok(state), None);
            &&& !refused.completed[index]
            &&& refused.first_error is Some
            &&& recovery.first_error is None ==> refused.first_error->0.code
                == ErrorCode::Validation
        },
{
}

/// A step whose stored progress is that of another kind of step is refused, and so is a step with more
/// than 64 branches or with another number of branches than were stored.
pub proof fn lemma_foreign_progress_is_refused(
    count: nat,
    continues_on_error: bool,
    checkpointed: bool,
    work: dsl_checkpoint::WorkView,
)
    ensures
        !(work is ReplayableForEach) ==> {
            let step = dsl_for_each::start_items(continues_on_error, checkpointed, Some(work));
            step is Finish && step->Finish_0 is Err
        },
        !(work is WhenAny) ==> {
            let step = dsl_when_any::race_start(count, Some(work));
            step is Finish && step->Finish_0 is Err
        },
        !(work is Parallel) && !(work is ParallelBranches)
            ==> dsl_parallel_recovery::parallel_start(count, Some(work)) is Err,
        work matches dsl_checkpoint::WorkView::ParallelBranches { branches } && branches.len()
            != count ==> dsl_parallel_recovery::parallel_start(count, Some(work)) is Err,
        work matches dsl_checkpoint::WorkView::Parallel { states } && states.len() != count
            ==> dsl_parallel_recovery::parallel_start(count, Some(work)) is Err,
        count > 64 ==> dsl_parallel_recovery::parallel_start(count, None) is Err,
        count > 64 ==> {
            let step = dsl_when_any::race_start(count, None);
            step is Finish && step->Finish_0 is Err
        },
{
}

/// Items that could not be selected, a cursor that could not be stored and a cursor behind all items
/// end the work with a failure.
pub proof fn lemma_item_work_ends_with_its_failure(
    run: dsl_for_each::ItemRunView,
    continues_on_error: bool,
    checkpointed: bool,
    failure: error::ErrorView,
)
    ensures
        dsl_for_each::start_selected(continues_on_error, checkpointed, Err(failure))
            == dsl_for_each::ItemStepView::Finish(Err(failure)),
        run.after_save(Err(failure)) == dsl_for_each::ItemStepView::Finish(Err(failure)),
        run.next > run.items.len() ==> {
            let step = dsl_for_each::start_at(run);
            step is Finish && step->Finish_0 is Err
        },
        0 <= run.next <= u32::MAX ==> run.work() == (dsl_checkpoint::WorkView::ReplayableForEach {
            next_index: run.next as u32,
            items: run.items,
        }),
{
}

/// The records of progress: a first one has version zero and holds a state; a following one has the
/// following version, the same flow and the same step.
pub proof fn lemma_progress_records_follow_each_other(
    flow_id: Seq<char>,
    step_index: u32,
    payload: Seq<u8>,
    current: dsl_progress::ProgressView,
)
    requires
        current.version < i64::MAX,
    ensures
        ({
            let first = dsl_progress::ProgressView::initial(flow_id, step_index, payload);
            &&& first.flow_id == flow_id
            &&& first.step_index == step_index
            &&& first.version == 0
            &&& first.payload == payload
            &&& first.kind == DslProgressKind::ApplicationState
        }),
        ({
            let next = current.advanced(payload);
            &&& next.flow_id == current.flow_id
            &&& next.step_index == current.step_index
            &&& next.version == current.version + 1
            &&& next.payload == payload
            &&& next.kind == current.kind
        }),
        ({
            let next = current.completed(payload);
            &&& next.version == current.version + 1
            &&& next.payload == payload
            &&& next.kind == DslProgressKind::ApplicationState
        }),
        current.checkpoint_frame(payload).kind == DslProgressKind::CheckpointFrame,
        current.checkpoint_frame(payload).payload == payload,
        current.checkpoint_frame(payload).version == current.version,
        current.terminal(payload).kind == DslProgressKind::Terminal,
        current.terminal(payload).payload == payload,
        current.terminal(payload).version == current.version,
{
}

} // verus!
