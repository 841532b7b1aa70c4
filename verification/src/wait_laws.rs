//! What holds of every durable wait: which results it counts, how its children are claimed and
//! launched, and how lost schedules are restored.

use vstd::prelude::*;

use crate::attempt;
use crate::attempt::AttemptEvent;
use crate::child_launch;
use crate::continuation;
use crate::error;
use crate::error::ErrorCode;
use crate::reconciliation;
use crate::runtime;
use crate::search;
use crate::state::FlowStatus;
use crate::suspension;

verus! {

/// Whether two waits differ in their results alone.
pub open spec fn differ_in_results(before: suspension::WaitView, after: suspension::WaitView) -> bool {
    &&& after.correlation_id == before.correlation_id
    &&& after.policy == before.policy
    &&& after.expected_count == before.expected_count
    &&& after.created_at == before.created_at
    &&& after.timeout == before.timeout
    &&& after.child_launches == before.child_launches
}

/// Whether two waits differ in how far one of their children is launched alone.
pub open spec fn differ_in_launch(
    before: suspension::WaitView,
    after: suspension::WaitView,
    place: int,
) -> bool {
    &&& after.correlation_id == before.correlation_id
    &&& after.policy == before.policy
    &&& after.expected_count == before.expected_count
    &&& after.created_at == before.created_at
    &&& after.timeout == before.timeout
    &&& after.results == before.results
    &&& after.child_launches.len() == before.child_launches.len()
    &&& forall|i: int|
        0 <= i < before.child_launches.len() ==> (#[trigger] after.child_launches[i]).child_id
            == before.child_launches[i].child_id
    &&& forall|i: int|
        0 <= i < before.child_launches.len() && i != place ==> #[trigger] after.child_launches[i]
            == before.child_launches[i]
}

/// Whether a wait can count a result of a child: fewer results are there than are expected and than
/// are supported, the child is one of those that the wait names, where it names any, and it has not
/// reported before.
pub open spec fn counts(wait: suspension::WaitView, child: Seq<char>) -> bool {
    &&& wait.results.len() < wait.expected_count
    &&& wait.results.len() < 1024
    &&& wait.child_launches.len() == 0 || exists|i: int|
        0 <= i < wait.child_launches.len() && (#[trigger] wait.child_launches[i]).child_id == child
    &&& forall|i: int|
        0 <= i < wait.results.len() ==> (#[trigger] wait.results[i]).child_id != child
}

/// A result that a wait can count is added behind the others, with the identity of the child and
/// either its payload or its failure; nothing else changes. A result that it cannot count changes
/// nothing, nor does a payload of more than 65536 bytes.
pub proof fn lemma_results_are_counted_once(
    wait: suspension::WaitView,
    child: Seq<char>,
    payload: Seq<u8>,
    failure: error::ErrorView,
)
    ensures
        ({
            let succeeded = wait.record_success(child, payload);
            let failed = wait.record_failure(child, failure);
            let place = wait.results.len() as int;
            &&& !counts(wait, child) || payload.len() > 65536 ==> succeeded == wait
            &&& !counts(wait, child) ==> failed == wait
            &&& counts(wait, child) && payload.len() <= 65536 ==> {
                &&& differ_in_results(wait, succeeded)
                &&& succeeded.results.len() == place + 1
                &&& succeeded.results.drop_last() =~= wait.results
                &&& succeeded.results[place].child_id == child
                &&& succeeded.results[place].payload == Some(payload)
                &&& succeeded.results[place].error is None
                &&& succeeded.results[place].is_success()
            }
            &&& counts(wait, child) ==> {
                &&& differ_in_results(wait, failed)
                &&& failed.results.len() == place + 1
                &&& failed.results.drop_last() =~= wait.results
                &&& failed.results[place].child_id == child
                &&& failed.results[place].payload is None
                &&& failed.results[place].error == Some(failure)
                &&& !failed.results[place].is_success()
            }
        }),
{
}

/// Whether a child can be claimed at an instant: it is not launched, and no claim on it is live.
pub open spec fn is_claimable(launch: suspension::LaunchView, now: int) -> bool {
    match launch {
        suspension::LaunchView::Pending => true,
        suspension::LaunchView::Claimed { expires_at, .. } => now >= expires_at,
        suspension::LaunchView::Launched => false,
    }
}

/// The child that is claimed is the first that can be claimed; the claim names the owner and lasts
/// as long as asked, and no other child is touched. Without such a child nothing is claimed.
pub proof fn lemma_the_first_open_child_is_claimed(
    wait: suspension::WaitView,
    owner: Seq<char>,
    now: int,
    claim_for: int,
    place: int,
)
    requires
        crate::time::valid_timestamp(now + claim_for),
        0 <= place <= wait.child_launches.len(),
        forall|i: int|
            0 <= i < place ==> !is_claimable((#[trigger] wait.child_launches[i]).state, now),
        place < wait.child_launches.len() ==> is_claimable(wait.child_launches[place].state, now),
    ensures
        ({
            let claim = wait.claim_next_child(owner, now, claim_for);
            &&& place == wait.child_launches.len() ==> claim is None
            &&& place < wait.child_launches.len() ==> {
                &&& claim is Some
                &&& ({
                    let (child, claimed) = claim->0;
                    &&& child == wait.child_launches[place].child_id
                    &&& differ_in_launch(wait, claimed, place)
                    &&& claimed.child_launches[place].state == (suspension::LaunchView::Claimed {
                        owner,
                        expires_at: now + claim_for,
                    })
                    &&& !is_claimable(claimed.child_launches[place].state, now) || claim_for <= 0
                })
            }
        }),
{
    let claimable = suspension::WaitView::claimable(now);
    let found = if place < wait.child_launches.len() {
        Some(place)
    } else {
        None
    };
    assert forall|i: int| 0 <= i < place implies !#[trigger] claimable(
        wait.child_launches[i],
    ) by {
        assert(!is_claimable(wait.child_launches[i].state, now));
    }
    search::lemma_first(wait.child_launches, claimable, found);
}

/// A claim that an owner holds on a child can be ended by that owner alone: only that child changes,
/// to the state that was asked for. Without such a claim nothing changes.
pub proof fn lemma_claims_are_ended_by_their_owner(
    wait: suspension::WaitView,
    child: Seq<char>,
    owner: Seq<char>,
    launch: suspension::LaunchView,
    place: int,
)
    requires
        0 <= place < wait.child_launches.len(),
        wait.child_launches[place].child_id == child,
        forall|i: int|
            0 <= i < wait.child_launches.len() && i != place ==> (
            #[trigger] wait.child_launches[i]).child_id != child,
    ensures
        ({
            let ended = wait.end_claim(child, owner, launch);
            let held = wait.child_launches[place].state is Claimed
                && wait.child_launches[place].state->owner == owner;
            &&& !held ==> ended is None
            &&& held ==> {
                &&& ended is Some
                &&& differ_in_launch(wait, ended->0, place)
                &&& ended->0.child_launches[place].state == launch
            }
        }),
{
    let claimed = suspension::WaitView::claimed_by(child, owner);
    let held = wait.child_launches[place].state is Claimed
        && wait.child_launches[place].state->owner == owner;
    assert forall|i: int| 0 <= i < wait.child_launches.len() && i != place implies !#[trigger] claimed(
        wait.child_launches[i],
    ) by {
        assert(wait.child_launches[i].child_id != child);
    }
    if held {
        assert(claimed(wait.child_launches[place]));
        search::lemma_first(wait.child_launches, claimed, Some(place));
    } else {
        assert forall|i: int| 0 <= i < wait.child_launches.len() implies !#[trigger] claimed(
            wait.child_launches[i],
        ) by {}
        search::lemma_first(wait.child_launches, claimed, None);
    }
}

/// A child cannot end a claim that is not its own, and an owner that holds none ends none.
pub proof fn lemma_unclaimed_children_have_no_claim_to_end(
    wait: suspension::WaitView,
    child: Seq<char>,
    owner: Seq<char>,
    launch: suspension::LaunchView,
)
    requires
        forall|i: int|
            0 <= i < wait.child_launches.len() ==> (#[trigger] wait.child_launches[i]).child_id
                != child,
    ensures
        wait.end_claim(child, owner, launch) is None,
{
    let claimed = suspension::WaitView::claimed_by(child, owner);
    assert forall|i: int| 0 <= i < wait.child_launches.len() implies !#[trigger] claimed(
        wait.child_launches[i],
    ) by {
        assert(wait.child_launches[i].child_id != child);
    }
    search::lemma_first(wait.child_launches, claimed, None);
}

/// The numbers under which waits and launches are stored never change.
pub proof fn lemma_stored_numbers_are_fixed(
    child_id: Seq<char>,
    owner: Seq<char>,
    expires_at: int,
)
    ensures
        suspension::wait_policy_number(suspension::WaitPolicy::All) == 0,
        suspension::wait_policy_number(suspension::WaitPolicy::Any) == 1,
        suspension::launch_fields(
            suspension::ChildView { child_id, state: suspension::LaunchView::Pending },
        ) == (child_id, (0u8, (None::<Seq<char>>, None::<int>))),
        suspension::launch_fields(
            suspension::ChildView {
                child_id,
                state: suspension::LaunchView::Claimed { owner, expires_at },
            },
        ) == (child_id, (1u8, (Some(owner), Some(expires_at)))),
        suspension::launch_fields(
            suspension::ChildView { child_id, state: suspension::LaunchView::Launched },
        ) == (child_id, (2u8, (None::<Seq<char>>, None::<int>))),
        crate::state::status_number(FlowStatus::Running) == 0,
        crate::state::status_number(FlowStatus::Compensating) == 1,
        crate::state::status_number(FlowStatus::Suspended) == 2,
        crate::state::status_number(FlowStatus::Done) == 3,
        crate::state::status_number(FlowStatus::Failed) == 4,
        crate::state::status_number(FlowStatus::Cancelled) == 5,
{
}

/// What a driver does with the children of a stored flow.
pub struct Launches {
    /// What the store holds in the end.
    pub stored: continuation::ContinuationView,
    /// The children that were launched, in order.
    pub launched: Seq<Seq<char>>,
    /// The step at which the driver stopped.
    pub stopped: child_launch::LaunchStepView,
}

/// What a driver does from a step on, within a number of effects, on a store that nobody else writes
/// to.
pub open spec fn children_driven(
    runtime: runtime::RuntimeView,
    outcomes: spec_fn(Seq<char>) -> Option<error::ErrorView>,
    now: int,
    stored: continuation::ContinuationView,
    step: child_launch::LaunchStepView,
    effects: nat,
) -> Launches
    decreases effects,
{
    if effects == 0 {
        Launches { stored, launched: Seq::empty(), stopped: step }
    } else {
        let less = (effects - 1) as nat;
        match step {
            child_launch::LaunchStepView::LoadForClaim { launched, attempt } => {
                let next = child_launch::claim_child_step(
                    runtime,
                    Ok(Some(stored)),
                    launched,
                    attempt,
                    now,
                );
                children_driven(runtime, outcomes, now, stored, next, less)
            },
            child_launch::LaunchStepView::StoreClaim {
                expected,
                next: changed,
                child_id,
                correlation_id,
                launched,
                attempt,
            } => {
                let current = stored.state.version == expected.state.version;
                let next = child_launch::claim_stored_step(
                    child_id,
                    correlation_id,
                    launched,
                    attempt,
                    Ok(current),
                );
                let kept = if current {
                    changed
                } else {
                    stored
                };
                children_driven(runtime, outcomes, now, kept, next, less)
            },
            child_launch::LaunchStepView::Launch { child_id, launched, .. } => {
                let next = child_launch::LaunchStepView::LoadToFinish {
                    child_id,
                    failure: outcomes(child_id),
                    launched,
                    attempt: 0,
                };
                let rest = children_driven(runtime, outcomes, now, stored, next, less);
                Launches { launched: seq![child_id] + rest.launched, ..rest }
            },
            child_launch::LaunchStepView::LoadToFinish { child_id, failure, launched, attempt } => {
                let next = child_launch::finish_child_step(
                    runtime,
                    Ok(Some(stored)),
                    child_id,
                    failure,
                    launched,
                    attempt,
                    now,
                );
                children_driven(runtime, outcomes, now, stored, next, less)
            },
            child_launch::LaunchStepView::StoreFinish {
                expected,
                next: changed,
                child_id,
                failure,
                launched,
                attempt,
            } => {
                let current = stored.state.version == expected.state.version;
                let next = child_launch::finish_stored_step(
                    child_id,
                    failure,
                    launched,
                    attempt,
                    Ok(current),
                );
                let kept = if current {
                    changed
                } else {
                    stored
                };
                children_driven(runtime, outcomes, now, kept, next, less)
            },
            child_launch::LaunchStepView::Finish(_) => Launches {
                stored,
                launched: Seq::empty(),
                stopped: step,
            },
        }
    }
}

/// Whether a stored flow waits for children that this runtime can launch.
pub open spec fn awaits_children(
    runtime: runtime::RuntimeView,
    stored: continuation::ContinuationView,
    now: int,
) -> bool {
    &&& stored.valid()
    &&& stored.state.flow_type == runtime.definition.name
    &&& stored.state.status == FlowStatus::Suspended
    &&& stored.wait is Some
    &&& runtime.stale_after >= 0
    &&& crate::time::valid_timestamp(now + 1)
    &&& crate::time::valid_timestamp(now + runtime.stale_after)
}

/// Whether two stored flows differ in the wait, the version, the time of the change and what a wait
/// leaves no room for.
pub open spec fn differ_in_wait(
    before: continuation::ContinuationView,
    after: continuation::ContinuationView,
    now: int,
) -> bool {
    &&& after.state.id == before.state.id
    &&& after.state.flow_type == before.state.flow_type
    &&& after.state.status == FlowStatus::Suspended
    &&& after.state.owner is None
    &&& after.state.step == before.state.step
    &&& after.state.data == before.state.data
    &&& after.state.error == before.state.error
    &&& after.state.heartbeat == before.state.heartbeat
    &&& after.step_name == before.step_name
    &&& after.compensations == before.compensations
    &&& after.created_at == before.created_at
    &&& after.updated_at == now
    &&& after.resume_at is None
    &&& after.schedule_id is None
    &&& after.wait is Some
}

/// The flow with a changed wait, as it is stored.
proof fn lemma_changed_wait(
    stored: continuation::ContinuationView,
    wait: suspension::WaitView,
    now: int,
)
    requires
        stored.valid(),
        wait.valid(),
        stored.state.status == FlowStatus::Suspended,
        stored.state.version < i64::MAX,
    ensures
        ({
            let changed = child_launch::with_changed_wait(stored, wait, now);
            &&& differ_in_wait(stored, changed, now)
            &&& changed.wait == Some(wait)
            &&& changed.state.version == stored.state.version + 1
            &&& changed.valid()
        }),
{
}

/// A claim on a child is stored before the child is launched. It names the runtime as its owner and
/// lasts for the stale period, or for one nanosecond where there is none.
pub proof fn lemma_claim_is_stored(
    runtime: runtime::RuntimeView,
    now: int,
    stored: continuation::ContinuationView,
    launched: usize,
    place: int,
) -> (claimed: suspension::WaitView)
    requires
        awaits_children(runtime, stored, now),
        stored.state.version < i64::MAX,
        0 <= place < stored.wait->0.child_launches.len(),
        forall|i: int|
            0 <= i < place ==> !is_claimable(
                (#[trigger] stored.wait->0.child_launches[i]).state,
                now,
            ),
        is_claimable(stored.wait->0.child_launches[place].state, now),
    ensures
        claimed.valid(),
        differ_in_launch(stored.wait->0, claimed, place),
        claimed.child_launches[place].state == (suspension::LaunchView::Claimed {
            owner: runtime.owner,
            expires_at: now + if runtime.stale_after == 0 {
                1
            } else {
                runtime.stale_after
            },
        }),
        child_launch::claim_child_step(runtime, Ok(Some(stored)), launched, 0, now) == (
        child_launch::LaunchStepView::StoreClaim {
            expected: stored,
            next: child_launch::with_changed_wait(stored, claimed, now),
            child_id: stored.wait->0.child_launches[place].child_id,
            correlation_id: stored.wait->0.correlation_id,
            launched,
            attempt: 0,
        }),
{
    let wait = stored.wait->0;
    let claim_for: int = if runtime.stale_after == 0 {
        1
    } else {
        runtime.stale_after
    };
    lemma_the_first_open_child_is_claimed(wait, runtime.owner, now, claim_for, place);
    let launch = suspension::LaunchView::Claimed {
        owner: runtime.owner,
        expires_at: now + claim_for,
    };
    let claimed = wait.with_launch(place, launch);
    let (_, found) = wait.claim_next_child(runtime.owner, now, claim_for)->0;
    assert(found.child_launches =~= claimed.child_launches);
    suspension::lemma_launch_keeps_valid(wait, place, launch);
    claimed
}

proof fn lemma_claim_is_ended(
    runtime: runtime::RuntimeView,
    now: int,
    stored: continuation::ContinuationView,
    failure: Option<error::ErrorView>,
    launched: usize,
    place: int,
) -> (ended: suspension::WaitView)
    requires
        awaits_children(runtime, stored, now),
        stored.state.version < i64::MAX,
        0 <= place < stored.wait->0.child_launches.len(),
        stored.wait->0.child_launches[place].state is Claimed,
        stored.wait->0.child_launches[place].state->owner == runtime.owner,
    ensures
        ended.valid(),
        differ_in_launch(stored.wait->0, ended, place),
        ended.child_launches[place].state == if failure is None {
            suspension::LaunchView::Launched
        } else {
            suspension::LaunchView::Pending
        },
        ({
            let child_id = stored.wait->0.child_launches[place].child_id;
            child_launch::finish_child_step(
                runtime,
                Ok(Some(stored)),
                child_id,
                failure,
                launched,
                0,
                now,
            ) == (child_launch::LaunchStepView::StoreFinish {
                expected: stored,
                next: child_launch::with_changed_wait(stored, ended, now),
                child_id,
                failure,
                launched,
                attempt: 0,
            })
        }),
{
    let wait = stored.wait->0;
    let child = wait.child_launches[place].child_id;
    let launch = if failure is None {
        suspension::LaunchView::Launched
    } else {
        suspension::LaunchView::Pending
    };
    assert forall|i: int| 0 <= i < wait.child_launches.len() && i != place implies (
    #[trigger] wait.child_launches[i]).child_id != child by {
        if i < place {
            assert(wait.child_launches[i].child_id != wait.child_launches[place].child_id);
        } else {
            assert(wait.child_launches[place].child_id != wait.child_launches[i].child_id);
        }
    }
    lemma_claims_are_ended_by_their_owner(wait, child, runtime.owner, launch, place);
    let ended = wait.with_launch(place, launch);
    let found = wait.end_claim(child, runtime.owner, launch)->0;
    assert(found.child_launches =~= ended.child_launches);
    suspension::lemma_launch_keeps_valid(wait, place, launch);
    ended
}

/// The next child that can be claimed is launched once, under a stored claim. Where the launch
/// succeeds, the store afterwards holds the child as launched, and the next child is looked for with
/// one more counted; where it fails, the store holds the child as pending again, and the whole ends
/// with the failure. No other child changes.
pub proof fn lemma_children_are_launched_under_a_claim(
    runtime: runtime::RuntimeView,
    outcomes: spec_fn(Seq<char>) -> Option<error::ErrorView>,
    now: int,
    stored: continuation::ContinuationView,
    launched: usize,
    place: int,
)
    requires
        awaits_children(runtime, stored, now),
        stored.state.version < i64::MAX - 1,
        launched < usize::MAX,
        0 <= place < stored.wait->0.child_launches.len(),
        forall|i: int|
            0 <= i < place ==> !is_claimable(
                (#[trigger] stored.wait->0.child_launches[i]).state,
                now,
            ),
        is_claimable(stored.wait->0.child_launches[place].state, now),
    ensures
        ({
            let start = child_launch::LaunchStepView::LoadForClaim { launched, attempt: 0 };
            let end = children_driven(runtime, outcomes, now, stored, start, 5);
            let child = stored.wait->0.child_launches[place].child_id;
            &&& end.launched =~= seq![child]
            &&& differ_in_wait(stored, end.stored, now)
            &&& end.stored.state.version == stored.state.version + 2
            &&& differ_in_launch(stored.wait->0, end.stored.wait->0, place)
            &&& end.stored.wait->0.valid()
            &&& match outcomes(child) {
                None => {
                    &&& end.stored.wait->0.child_launches[place].state
                        == suspension::LaunchView::Launched
                    &&& end.stopped == (child_launch::LaunchStepView::LoadForClaim {
                        launched: (launched + 1) as usize,
                        attempt: 0,
                    })
                },
                Some(failure) => {
                    &&& end.stored.wait->0.child_launches[place].state
                        == suspension::LaunchView::Pending
                    &&& end.stopped == child_launch::LaunchStepView::Finish(Err(failure))
                },
            }
        }),
{
    let child = stored.wait->0.child_launches[place].child_id;
    let correlation_id = stored.wait->0.correlation_id;
    let failure = outcomes(child);
    let claimed = lemma_claim_is_stored(runtime, now, stored, launched, place);
    let middle = child_launch::with_changed_wait(stored, claimed, now);
    lemma_changed_wait(stored, claimed, now);
    let ended = lemma_claim_is_ended(runtime, now, middle, failure, launched, place);
    let last = child_launch::with_changed_wait(middle, ended, now);
    lemma_changed_wait(middle, ended, now);
    let first = child_launch::LaunchStepView::LoadForClaim { launched, attempt: 0 };
    let second = child_launch::LaunchStepView::StoreClaim {
        expected: stored,
        next: middle,
        child_id: child,
        correlation_id,
        launched,
        attempt: 0,
    };
    let third = child_launch::LaunchStepView::Launch { child_id: child, correlation_id, launched };
    let fourth = child_launch::LaunchStepView::LoadToFinish {
        child_id: child,
        failure,
        launched,
        attempt: 0,
    };
    let fifth = child_launch::LaunchStepView::StoreFinish {
        expected: middle,
        next: last,
        child_id: child,
        failure,
        launched,
        attempt: 0,
    };
    let sixth = child_launch::launch_ended(failure, launched);
    let rest = children_driven(runtime, outcomes, now, last, sixth, 0);
    assert(children_driven(runtime, outcomes, now, middle, fifth, 1) == rest);
    assert(children_driven(runtime, outcomes, now, middle, fourth, 2) == rest);
    let ran = children_driven(runtime, outcomes, now, middle, third, 3);
    assert(ran == Launches { launched: seq![child] + rest.launched, ..rest });
    assert(children_driven(runtime, outcomes, now, stored, second, 4) == ran);
    assert(children_driven(runtime, outcomes, now, stored, first, 5) == ran);
}

/// Where no child can be claimed, or the flow waits for none, nothing is stored, and the number of
/// children that were launched is answered.
pub proof fn lemma_launching_ends_without_open_children(
    runtime: runtime::RuntimeView,
    now: int,
    stored: continuation::ContinuationView,
    launched: usize,
    attempt: usize,
)
    requires
        awaits_children(runtime, stored, now),
        forall|i: int|
            0 <= i < stored.wait->0.child_launches.len() ==> !is_claimable(
                (#[trigger] stored.wait->0.child_launches[i]).state,
                now,
            ),
    ensures
        child_launch::claim_child_step(runtime, Ok(Some(stored)), launched, attempt, now)
            == child_launch::LaunchStepView::Finish(Ok(launched)),
        child_launch::claim_child_step(
            runtime,
            Ok(Some(continuation::ContinuationView { wait: None, ..stored })),
            launched,
            attempt,
            now,
        ) == child_launch::LaunchStepView::Finish(Ok(launched)),
{
    let wait = stored.wait->0;
    let claim_for: int = if runtime.stale_after == 0 {
        1
    } else {
        runtime.stale_after
    };
    lemma_the_first_open_child_is_claimed(
        wait,
        runtime.owner,
        now,
        claim_for,
        wait.child_launches.len() as int,
    );
}

/// A write that another writer anticipated is repeated from a fresh load, eight times in all, and
/// then ends the launch; a failure to launch outweighs everything that goes wrong afterwards.
pub proof fn lemma_anticipated_launch_writes_are_repeated(
    child_id: Seq<char>,
    correlation_id: Seq<char>,
    failure: Option<error::ErrorView>,
    reason: error::ErrorView,
    launched: usize,
    attempt: usize,
)
    ensures
        attempt < 7 ==> child_launch::claim_stored_step(
            child_id,
            correlation_id,
            launched,
            attempt,
            Ok(false),
        ) == (child_launch::LaunchStepView::LoadForClaim {
            launched,
            attempt: (attempt + 1) as usize,
        }),
        attempt >= 7 ==> {
            let end = child_launch::claim_stored_step(
                child_id,
                correlation_id,
                launched,
                attempt,
                Ok(false),
            );
            &&& end is Finish
            &&& end->Finish_0 is Err
            &&& end->Finish_0->Err_0.code == ErrorCode::Transient
        },
        child_launch::claim_stored_step(
            child_id,
            correlation_id,
            launched,
            attempt,
            Err(reason),
        ) == child_launch::LaunchStepView::Finish(Err(reason)),
        attempt < 7 ==> child_launch::finish_stored_step(
            child_id,
            failure,
            launched,
            attempt,
            Ok(false),
        ) == (child_launch::LaunchStepView::LoadToFinish {
            child_id,
            failure,
            launched,
            attempt: (attempt + 1) as usize,
        }),
        attempt >= 7 ==> {
            let end = child_launch::finish_stored_step(
                child_id,
                failure,
                launched,
                attempt,
                Ok(false),
            );
            &&& end is Finish
            &&& end->Finish_0 is Err
            &&& failure is None ==> end->Finish_0->Err_0.code == ErrorCode::Transient
            &&& failure is Some ==> end->Finish_0->Err_0 == failure->0
        },
        child_launch::finish_stored_step(child_id, failure, launched, attempt, Err(reason))
            == child_launch::LaunchStepView::Finish(
            Err(
                if failure is Some {
                    failure->0
                } else {
                    reason
                },
            ),
        ),
{
}

/// A delayed flow whose schedule was never stored is scheduled again for the instant at which it is
/// due, and the new schedule is stored with it at the following version; nothing else of the flow
/// changes. Flows that have a schedule, are not delayed, are not suspended or belong to another
/// definition are passed over.
pub proof fn lemma_lost_schedules_are_restored(
    runtime: runtime::RuntimeView,
    value: continuation::ContinuationView,
    schedule_id: Seq<char>,
    failure: error::ErrorView,
    reconciled: usize,
    now: int,
)
    requires
        value.valid(),
        value.state.version < i64::MAX,
        reconciled < usize::MAX,
    ensures
        ({
            let lost = value.state.status == FlowStatus::Suspended && value.state.flow_type
                == runtime.definition.name && value.schedule_id is None && value.resume_at is Some;
            let step = reconciliation::reconcile_loaded_step(runtime, Ok(Some(value)), reconciled);
            let write = reconciliation::reconcile_scheduled_step(value, Ok(schedule_id), now);
            &&& lost ==> step == (reconciliation::ReconcileStepView::Schedule {
                pending: value,
                due_at: value.resume_at->0,
            })
            &&& !lost ==> step == (reconciliation::ReconcileStepView::Next { reconciled })
            &&& write is Record
            &&& write->expected_version == value.state.version
            &&& write->scheduled.state.version == value.state.version + 1
            &&& write->scheduled.schedule_id == Some(schedule_id)
            &&& write->scheduled.resume_at == value.resume_at
            &&& write->scheduled.wait == value.wait
            &&& write->scheduled.step_name == value.step_name
            &&& write->scheduled.compensations == value.compensations
            &&& write->scheduled.created_at == value.created_at
            &&& write->scheduled.updated_at == now
            &&& write->scheduled.state.id == value.state.id
            &&& write->scheduled.state.flow_type == value.state.flow_type
            &&& write->scheduled.state.status == value.state.status
            &&& write->scheduled.state.step == value.state.step
            &&& write->scheduled.state.owner == value.state.owner
            &&& write->scheduled.state.data == value.state.data
            &&& write->scheduled.state.error == value.state.error
        }),
        reconciliation::reconcile_loaded_step(runtime, Ok(None), reconciled) == (
        reconciliation::ReconcileStepView::Next { reconciled }),
        reconciliation::reconcile_recorded_step(reconciled, Ok(true)) == (
        reconciliation::ReconcileStepView::Next { reconciled: (reconciled + 1) as usize }),
        reconciliation::reconcile_recorded_step(reconciled, Ok(false)) == (
        reconciliation::ReconcileStepView::Next { reconciled }),
        reconciliation::reconcile_loaded_step(runtime, Err(failure), reconciled)
            == reconciliation::ReconcileStepView::Fail(failure),
        reconciliation::reconcile_scheduled_step(value, Err(failure), now)
            == reconciliation::ReconcileStepView::Fail(failure),
        reconciliation::reconcile_recorded_step(reconciled, Err(failure))
            == reconciliation::ReconcileStepView::Fail(failure),
{
}

/// An attempt ends with its own result, with a timeout, or with the loss of its claim; a heartbeat
/// that is accepted is the only event that lets it go on.
pub proof fn lemma_attempts_end_with_their_reason<T>(lost: Seq<char>)
    ensures
        ({
            let failure = attempt::attempt_failure(AttemptEvent::<T>::TimedOut, lost);
            failure is Some && failure->0.code == ErrorCode::Timeout
        }),
        ({
            let failure = attempt::attempt_failure(
                AttemptEvent::<T>::Heartbeat(Ok(false)),
                lost,
            );
            failure is Some && failure->0.code == ErrorCode::Conflict
        }),
        attempt::attempt_failure(AttemptEvent::<T>::Heartbeat(Ok(true)), lost) is None,
{
}

/// A heartbeat is sent exactly for a stored flow of the definition that this runtime executes.
pub proof fn lemma_heartbeats_are_for_own_flows(
    runtime: runtime::RuntimeView,
    value: continuation::ContinuationView,
    failure: error::ErrorView,
)
    ensures
        attempt::heartbeat_permitted(runtime, Ok(None)) == Ok::<bool, error::ErrorView>(false),
        attempt::heartbeat_permitted(runtime, Err(failure)) == Err::<bool, error::ErrorView>(
            failure,
        ),
        value.valid() && value.state.flow_type == runtime.definition.name
            ==> attempt::heartbeat_permitted(runtime, Ok(Some(value))) == Ok::<
            bool,
            error::ErrorView,
        >(true),
        !value.valid() || value.state.flow_type != runtime.definition.name
            ==> attempt::heartbeat_permitted(runtime, Ok(Some(value))) is Err,
{
}

/// Whether a step ends the launching of children with a failure of this code.
pub open spec fn ends_with(step: child_launch::LaunchStepView, code: ErrorCode) -> bool {
    step is Finish && step->Finish_0 is Err && step->Finish_0->Err_0.code == code
}

/// A flow that cannot be loaded, does not exist, is damaged or belongs to another definition launches
/// nothing and ends with that failure; a flow that has ended launches nothing, and its number of
/// launches is answered. No launch is stored beyond the last version.
pub proof fn lemma_unusable_flows_launch_nothing(
    runtime: runtime::RuntimeView,
    value: continuation::ContinuationView,
    failure: error::ErrorView,
    launched: usize,
    attempt: usize,
    now: int,
)
    ensures
        child_launch::claim_child_step(runtime, Err(failure), launched, attempt, now)
            == child_launch::LaunchStepView::Finish(Err(failure)),
        ends_with(
            child_launch::claim_child_step(runtime, Ok(None), launched, attempt, now),
            ErrorCode::NotFound,
        ),
        !value.valid() || value.state.flow_type != runtime.definition.name ==> ends_with(
            child_launch::claim_child_step(runtime, Ok(Some(value)), launched, attempt, now),
            ErrorCode::Validation,
        ),
        value.valid() && value.state.flow_type == runtime.definition.name && (value.state.status
            == FlowStatus::Done || value.state.status == FlowStatus::Failed || value.state.status
            == FlowStatus::Cancelled) ==> child_launch::claim_child_step(
            runtime,
            Ok(Some(value)),
            launched,
            attempt,
            now,
        ) == child_launch::LaunchStepView::Finish(Ok(launched)),
        value.state.version == i64::MAX ==> !(child_launch::claim_child_step(
            runtime,
            Ok(Some(value)),
            launched,
            attempt,
            now,
        ) is StoreClaim),
        value.state.version == i64::MAX && awaits_children(runtime, value, now)
            && value.wait->0.child_launches.len() > 0 && value.wait->0.child_launches[0].state
            is Pending ==> ends_with(
            child_launch::claim_child_step(runtime, Ok(Some(value)), launched, attempt, now),
            ErrorCode::Conflict,
        ),
{
    if value.state.version == i64::MAX && awaits_children(runtime, value, now)
        && value.wait->0.child_launches.len() > 0 && value.wait->0.child_launches[0].state
        is Pending {
        let claim_for: int = if runtime.stale_after == 0 {
            1
        } else {
            runtime.stale_after
        };
        lemma_the_first_open_child_is_claimed(value.wait->0, runtime.owner, now, claim_for, 0);
    }
}

/// Whatever prevents the end of a launch from being stored, a child that failed to launch is answered
/// with its failure. A child that was launched is answered with what prevented it; where the flow has
/// ended or no longer holds the claim, there is nothing to store, and the next child is looked for.
pub proof fn lemma_launch_failures_come_first(
    runtime: runtime::RuntimeView,
    value: continuation::ContinuationView,
    child_id: Seq<char>,
    failure: error::ErrorView,
    reason: error::ErrorView,
    launched: usize,
    attempt: usize,
    now: int,
)
    requires
        launched < usize::MAX,
    ensures
        ({
            let lost = Some(failure);
            let unread = child_launch::finish_child_step(
                runtime,
                Err(reason),
                child_id,
                lost,
                launched,
                attempt,
                now,
            );
            let missing = child_launch::finish_child_step(
                runtime,
                Ok(None),
                child_id,
                lost,
                launched,
                attempt,
                now,
            );
            let found = child_launch::finish_child_step(
                runtime,
                Ok(Some(value)),
                child_id,
                lost,
                launched,
                attempt,
                now,
            );
            &&& unread == child_launch::LaunchStepView::Finish(Err(failure))
            &&& missing == child_launch::LaunchStepView::Finish(Err(failure))
            &&& found is StoreFinish || found == child_launch::LaunchStepView::Finish(Err(failure))
        }),
        child_launch::finish_child_step(
            runtime,
            Err(reason),
            child_id,
            None,
            launched,
            attempt,
            now,
        ) == child_launch::LaunchStepView::Finish(Err(reason)),
        ends_with(
            child_launch::finish_child_step(
                runtime,
                Ok(None),
                child_id,
                None,
                launched,
                attempt,
                now,
            ),
            ErrorCode::NotFound,
        ),
        ({
            let found = child_launch::finish_child_step(
                runtime,
                Ok(Some(value)),
                child_id,
                None,
                launched,
                attempt,
                now,
            );
            let usable = value.valid() && value.state.flow_type == runtime.definition.name;
            let ended = value.state.status == FlowStatus::Done || value.state.status
                == FlowStatus::Failed || value.state.status == FlowStatus::Cancelled;
            let next = child_launch::LaunchStepView::LoadForClaim {
                launched: (launched + 1) as usize,
                attempt: 0,
            };
            &&& !usable ==> ends_with(found, ErrorCode::Validation)
            &&& usable && (ended || value.wait is None) ==> found == next
            &&& usable && !ended && value.wait is Some && value.wait->0.end_claim(
                child_id,
                runtime.owner,
                suspension::LaunchView::Launched,
            ) is None ==> found == next
        }),
{
}

/// A damaged flow is not passed over when schedules are restored, and none is stored beyond the last
/// version.
pub proof fn lemma_damaged_flows_stop_the_restoring(
    runtime: runtime::RuntimeView,
    value: continuation::ContinuationView,
    schedule_id: Seq<char>,
    reconciled: usize,
    now: int,
)
    ensures
        !value.valid() ==> {
            let step = reconciliation::reconcile_loaded_step(runtime, Ok(Some(value)), reconciled);
            &&& step is Fail
            &&& step->Fail_0.code == ErrorCode::Validation
        },
        value.state.version == i64::MAX ==> {
            let step = reconciliation::reconcile_scheduled_step(value, Ok(schedule_id), now);
            &&& step is Fail
            &&& step->Fail_0.code == ErrorCode::Conflict
        },
{
}

/// A wait is sound exactly where it has a correlation, expects between 1 and 1024 children, holds at most
/// as many results as it expects, none with a payload of more than 65536 bytes, and, where it names its
/// children, names as many as it expects, all different and none without a name.
pub proof fn lemma_sound_waits(wait: suspension::WaitView)
    ensures
        wait.valid() <==> {
            &&& wait.correlation_id.len() > 0
            &&& 1 <= wait.expected_count
            &&& wait.expected_count <= 1024
            &&& wait.results.len() <= wait.expected_count
            &&& forall|i: int|
                0 <= i < wait.results.len() ==> ((#[trigger] wait.results[i]).payload matches Some(
                    payload,
                ) ==> payload.len() <= 65536)
            &&& wait.child_launches.len() == 0 || wait.child_launches.len() == wait.expected_count
            &&& forall|i: int|
                0 <= i < wait.child_launches.len() ==> (
                #[trigger] wait.child_launches[i]).child_id.len() > 0
            &&& forall|i: int, j: int|
                0 <= i < j < wait.child_launches.len() ==> (
                #[trigger] wait.child_launches[i]).child_id != (
                #[trigger] wait.child_launches[j]).child_id
        },
{
    assert forall|i: int| 0 <= i < wait.results.len() implies ((
    #[trigger] wait.results[i]).is_bounded() <==> (wait.results[i].payload matches Some(payload)
        ==> payload.len() <= 65536)) by {}
}

/// A stored flow is sound exactly where its input has at most 1048576 bytes and its wait, where it has
/// one, is sound.
pub proof fn lemma_sound_flows(value: continuation::ContinuationView)
    ensures
        value.valid() <==> value.state.data.len() <= 1048576 && (value.wait matches Some(wait)
            ==> wait.valid()),
        !value.valid() ==> value.rejection().code == ErrorCode::Validation,
{
}

} // verus!
