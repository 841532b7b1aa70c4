//! Flows of typed operations with conditional, collection and parallel steps.
//!
//! A [`DslFlow`] owns the callbacks of its steps as opaque values of type `A`. What to do next is
//! decided here; calling a callback is left to the owner of the application state.

use vstd::prelude::*;

use crate::dsl_lifecycle;
use crate::dsl_lifecycle::{DslFlowLifecycleEvent, DslFlowLifecycleHooks};
use crate::dsl_throttle::FlowThrottle;
use crate::error;
use crate::error::{CatgaError, CatgaResult, ErrorCode};
use crate::search;
use crate::time;
use crate::time::Duration;

verus! {

/// Largest number of branches one parallel or `when_any` step may retain.
pub const MAX_DSL_PARALLEL_BRANCHES: usize = 64;

/// One step of a [`DslFlow`] with its callbacks.
#[derive(Debug)]
pub enum DslOperation<A> {
    /// Runs one action.
    Action(A),
    /// Runs an action for each item of a collection that is not kept.
    ForEach { operation: A, continues_on_error: bool },
    /// Runs an action for each item of a collection that checkpoints keep.
    ReplayableForEach { operation: A, continues_on_error: bool },
    /// Runs an action for each item of a stream.
    StreamForEach(A),
    /// Works on at most `limit` items of a stream at once, and reduces the results of each batch;
    /// [`ConcurrentRun`](crate::dsl_concurrent::ConcurrentRun) decides on a batch.
    StreamForEachConcurrent { limit: usize, action: A },
    /// Works on at most `limit` items at once, and merges the results of all;
    /// [`ConcurrentRun`](crate::dsl_concurrent::ConcurrentRun) decides on them.
    ConcurrentForEach { limit: usize, action: A },
    /// Repeats an action after transient failures.
    Retry { action: A, max_retries: usize, initial_delay: Duration },
    /// Cancels an action that takes too long.
    Timeout { action: A, duration: Duration },
    /// Runs an action while it holds a permit of a shared budget.
    Throttle { throttle: FlowThrottle, action: A },
    /// Runs one of two branches.
    If { condition: A, then_branch: DslFlow<A>, else_branch: DslFlow<A> },
    /// Runs the branch whose case equals a selected value.
    Match {
        selector: A,
        cases: Vec<u64>,
        branches: Vec<DslFlow<A>>,
        default_branch: DslFlow<A>,
    },
    /// Runs all branches on copies of the state and merges the copies.
    Parallel { branches: Vec<DslFlow<A>>, merge: A },
    /// Runs all branches on copies of the state and merges the first success.
    WhenAny { branches: Vec<DslFlow<A>>, merge: A },
}

/// A composable flow of steps that share one state.
#[derive(Debug)]
pub struct DslFlow<A> {
    steps: Vec<DslOperation<A>>,
    observers: Vec<A>,
    hooks: Option<DslFlowLifecycleHooks<A>>,
}

impl<A> View for DslFlow<A> {
    type V = Seq<DslOperation<A>>;

    closed spec fn view(&self) -> Seq<DslOperation<A>> {
        self.steps@
    }
}

/// What hears of the top-level steps of a flow.
pub struct LifecycleView<A> {
    /// The observers, in the order in which they hear of an event.
    pub observers: Seq<A>,
    pub hooks: Option<dsl_lifecycle::HooksView<A>>,
}

impl<A> LifecycleView<A> {
    /// Nothing hears of the steps.
    pub open spec fn silent() -> Self {
        LifecycleView { observers: Seq::empty(), hooks: None }
    }

    /// The hook that is called for an event.
    pub open spec fn hook_for(self, event: dsl_lifecycle::LifecycleEventView) -> Option<A> {
        match self.hooks {
            Some(hooks) => hooks.hook_for(event),
            None => None,
        }
    }
}

impl<A> DslFlow<A> {
    /// What hears of the steps.
    pub closed spec fn lifecycle(self) -> LifecycleView<A> {
        LifecycleView {
            observers: self.observers@,
            hooks: match self.hooks {
                Some(hooks) => Some(hooks@),
                None => None,
            },
        }
    }
}

/// The cases of a match step: where a value is registered again, the later branch takes the place
/// of the earlier one.
pub open spec fn kept_cases<A>(cases: Seq<(u64, DslFlow<A>)>) -> Seq<(u64, DslFlow<A>)>
    decreases cases.len(),
{
    if cases.len() == 0 {
        Seq::empty()
    } else {
        let before = kept_cases(cases.drop_last());
        match search::first_where(before, case_of(cases.last().0)) {
            Some(place) => before.update(place, cases.last()),
            None => before.push(cases.last()),
        }
    }
}

pub open spec fn case_of<A>(value: u64) -> spec_fn((u64, DslFlow<A>)) -> bool {
    |case: (u64, DslFlow<A>)| case.0 == value
}

/// Whether the two lists hold the values and the branches of `cases`.
pub open spec fn holds_cases<A>(
    values: Seq<u64>,
    branches: Seq<DslFlow<A>>,
    cases: Seq<(u64, DslFlow<A>)>,
) -> bool {
    &&& values.len() == cases.len()
    &&& branches.len() == cases.len()
    &&& forall|i: int|
        0 <= i < cases.len() ==> values[i] == (#[trigger] cases[i]).0 && branches[i] == cases[i].1
}

pub open spec fn equals(value: u64) -> spec_fn(u64) -> bool {
    |other: u64| other == value
}

/// The place of a value among the values of a match step.
pub open spec fn case_place(values: Seq<u64>, value: u64) -> Option<int> {
    search::first_where(values, equals(value))
}

/// Finds the place of a value among the values of a match step.
pub fn find_case(values: &Vec<u64>, value: u64) -> (result: Option<usize>)
    ensures
        match (result, case_place(values@, value)) {
            (Some(place), Some(expected)) => place == expected && place < values@.len(),
            (None, None) => true,
            _ => false,
        },
{
    let mut index: usize = 0;
    while index < values.len()
        invariant
            index <= values@.len(),
            forall|i: int| 0 <= i < index ==> values@[i] != value,
        decreases values@.len() - index,
    {
        if values[index] == value {
            proof {
                search::lemma_first(values@, equals(value), Some(index as int));
            }
            return Some(index);
        }
        index = index + 1;
    }
    proof {
        search::lemma_first(values@, equals(value), None);
    }
    None
}

/// The step that is reached when a match step is appended.
pub open spec fn appended_match<A>(
    before: Seq<DslOperation<A>>,
    after: Seq<DslOperation<A>>,
    chooser: A,
    registered: Seq<(u64, DslFlow<A>)>,
    fallback: DslFlow<A>,
) -> bool {
    &&& after.len() == before.len() + 1
    &&& after.drop_last() == before
    &&& match after.last() {
        DslOperation::Match { selector, cases, branches, default_branch } => {
            &&& selector == chooser
            &&& default_branch == fallback
            &&& holds_cases(cases@, branches@, kept_cases(registered))
        },
        _ => false,
    }
}

impl<A> DslOperation<A> {
    /// The branch that an if step runs.
    pub open spec fn branch_under(self, condition: bool) -> Option<DslFlow<A>> {
        match self {
            DslOperation::If { then_branch, else_branch, .. } => if condition {
                Some(then_branch)
            } else {
                Some(else_branch)
            },
            _ => None,
        }
    }

    /// The branch that a match step runs.
    pub open spec fn branch_of(self, value: u64) -> Option<DslFlow<A>> {
        match self {
            DslOperation::Match { cases, branches, default_branch, .. } => match case_place(
                cases@,
                value,
            ) {
                Some(place) => if place < branches@.len() {
                    Some(branches@[place])
                } else {
                    Some(default_branch)
                },
                None => Some(default_branch),
            },
            _ => None,
        }
    }

    /// Returns the branch that an if step runs under a condition.
    pub fn if_branch(&self, condition: bool) -> (result: Option<&DslFlow<A>>)
        ensures
            match (result, self.branch_under(condition)) {
                (Some(branch), Some(expected)) => *branch == expected,
                (None, None) => true,
                _ => false,
            },
    {
        match self {
            DslOperation::If { then_branch, else_branch, .. } => {
                if condition {
                    Some(then_branch)
                } else {
                    Some(else_branch)
                }
            },
            _ => None,
        }
    }

    /// Returns the branch that a match step runs for a value.
    pub fn match_branch(&self, value: u64) -> (result: Option<&DslFlow<A>>)
        ensures
            match (result, self.branch_of(value)) {
                (Some(branch), Some(expected)) => *branch == expected,
                (None, None) => true,
                _ => false,
            },
    {
        match self {
            DslOperation::Match { cases, branches, default_branch, .. } => {
                match find_case(cases, value) {
                    Some(place) => {
                        if place < branches.len() {
                            Some(&branches[place])
                        } else {
                            Some(default_branch)
                        }
                    },
                    None => Some(default_branch),
                }
            },
            _ => None,
        }
    }
}

/// The rejection of a concurrent step without concurrency.
pub open spec fn concurrency_rejected() -> error::ErrorView {
    error::validation("concurrent for_each limit must be greater than zero"@)
}

impl<A> DslFlow<A> {
    /// Creates an empty flow.
    pub fn new() -> (result: Self)
        ensures
            result@ == Seq::<DslOperation<A>>::empty(),
            result.lifecycle() == LifecycleView::<A>::silent(),
    {
        DslFlow { steps: Vec::new(), observers: Vec::new(), hooks: None }
    }

    /// Adds an observer of the outcomes of the top-level steps and of the flow.
    ///
    /// Observers hear of an event in the order in which they were added.
    pub fn with_lifecycle_observer(self, observer: A) -> (result: Self)
        ensures
            result@ == self@,
            result.lifecycle() == (LifecycleView {
                observers: self.lifecycle().observers.push(observer),
                ..self.lifecycle()
            }),
    {
        let mut observers: Vec<A> = self.observers;
        observers.push(observer);
        DslFlow { steps: self.steps, observers, hooks: self.hooks }
    }

    /// Sets the hooks for the outcomes of the top-level steps and of the flow.
    pub fn with_lifecycle_hooks(self, hooks: DslFlowLifecycleHooks<A>) -> (result: Self)
        ensures
            result@ == self@,
            result.lifecycle() == (LifecycleView { hooks: Some(hooks@), ..self.lifecycle() }),
    {
        DslFlow { steps: self.steps, observers: self.observers, hooks: Some(hooks) }
    }

    /// Returns the observers; each hears of an event before its hook is called.
    pub fn observers(&self) -> (result: &[A])
        ensures
            result@ == self.lifecycle().observers,
    {
        self.observers.as_slice()
    }

    /// Returns the hook that is called for an event.
    pub fn hook_for(&self, event: &DslFlowLifecycleEvent) -> (result: Option<&A>)
        ensures
            match (result, self.lifecycle().hook_for(event@)) {
                (Some(hook), Some(expected)) => *hook == expected,
                (None, None) => true,
                _ => false,
            },
    {
        match &self.hooks {
            Some(hooks) => hooks.hook_for(event),
            None => None,
        }
    }

    /// Returns the number of steps.
    pub fn len(&self) -> (result: usize)
        ensures
            result == self@.len(),
    {
        self.steps.len()
    }

    /// Returns the step at a position.
    pub fn operation(&self, index: usize) -> (result: Option<&DslOperation<A>>)
        ensures
            match result {
                Some(operation) => index < self@.len() && *operation == self@[index as int],
                None => index >= self@.len(),
            },
    {
        if index < self.steps.len() {
            Some(&self.steps[index])
        } else {
            None
        }
    }

    fn with(self, operation: DslOperation<A>) -> (result: Self)
        ensures
            result@ == self@.push(operation),
            result.lifecycle() == self.lifecycle(),
    {
        let mut steps: Vec<DslOperation<A>> = self.steps;
        steps.push(operation);
        DslFlow { steps, observers: self.observers, hooks: self.hooks }
    }

    /// Appends one state-mutating action.
    pub fn action(self, action: A) -> (result: Self)
        ensures
            result@ == self@.push(DslOperation::Action(action)),
            result.lifecycle() == self.lifecycle(),
    {
        self.with(DslOperation::Action(action))
    }

    /// Appends an action that retries only transient failures.
    ///
    /// `max_retries` counts attempts after the first execution.
    pub fn retry(self, max_retries: usize, initial_delay: Duration, action: A) -> (result: Self)
        ensures
            result@ == self@.push(DslOperation::Retry { action, max_retries, initial_delay }),
            result.lifecycle() == self.lifecycle(),
    {
        self.with(DslOperation::Retry { action, max_retries, initial_delay })
    }

    /// Appends an action that is cancelled when it exceeds `duration`.
    pub fn timeout(self, duration: Duration, action: A) -> (result: Self)
        ensures
            result@ == self@.push(DslOperation::Timeout { action, duration }),
            result.lifecycle() == self.lifecycle(),
    {
        self.with(DslOperation::Timeout { action, duration })
    }

    /// Appends an action that holds one permit of a shared throttle while it runs.
    pub fn throttle(self, throttle: FlowThrottle, action: A) -> (result: Self)
        ensures
            result@ == self@.push(DslOperation::Throttle { throttle, action }),
            result.lifecycle() == self.lifecycle(),
    {
        self.with(DslOperation::Throttle { throttle, action })
    }

    /// Appends a branch that runs exactly one nested flow against the same state.
    pub fn if_else(self, condition: A, then_branch: Self, else_branch: Self) -> (result: Self)
        ensures
            result@ == self@.push(DslOperation::If { condition, then_branch, else_branch }),
            result.lifecycle() == self.lifecycle(),
    {
        self.with(DslOperation::If { condition, then_branch, else_branch })
    }

    /// Appends an equality-based branch with one default flow for unmatched values.
    ///
    /// Duplicate case values keep the last registered branch.
    pub fn match_on(
        self,
        selector: A,
        cases: Vec<(u64, DslFlow<A>)>,
        default_branch: Self,
    ) -> (result: Self)
        ensures
            appended_match(self@, result@, selector, cases@, default_branch),
            result.lifecycle() == self.lifecycle(),
    {
        let ghost registered = cases@;
        let mut remaining: Vec<(u64, DslFlow<A>)> = cases;
        let mut values: Vec<u64> = Vec::new();
        let mut branches: Vec<DslFlow<A>> = Vec::new();
        let ghost mut taken: int = 0;
        assert(registered.take(0) =~= Seq::<(u64, DslFlow<A>)>::empty());
        assert(registered.skip(0) =~= registered);
        while remaining.len() > 0
            invariant
                0 <= taken <= registered.len(),
                remaining@ == registered.skip(taken),
                holds_cases(values@, branches@, kept_cases(registered.take(taken))),
            decreases remaining@.len(),
        {
            let (value, branch): (u64, DslFlow<A>) = remaining.remove(0);
            let ghost longer = registered.take(taken + 1);
            let ghost before = kept_cases(registered.take(taken));
            proof {
                assert(longer.drop_last() =~= registered.take(taken));
                assert(longer.last() == (value, branch));
                assert(remaining@ =~= registered.skip(taken + 1));
                lemma_same_place(values@, branches@, before, value);
            }
            match find_case(&values, value) {
                Some(place) => {
                    branches.set(place, branch);
                },
                None => {
                    values.push(value);
                    branches.push(branch);
                },
            }
            proof {
                let after = kept_cases(longer);
                assert forall|i: int| 0 <= i < after.len() implies values@[i] == (
                #[trigger] after[i]).0 && branches@[i] == after[i].1 by {
                    if i < before.len() {
                        assert(before[i] == before[i]);
                    }
                }
                taken = taken + 1;
            }
        }
        assert(registered.take(taken) =~= registered);
        let result = self.with(DslOperation::Match { selector, cases: values, branches, default_branch });
        assert(result@.drop_last() =~= self@);
        result
    }

    /// Appends branches that run concurrently on isolated state copies.
    pub fn parallel(self, branches: Vec<DslFlow<A>>, merge: A) -> (result: Self)
        ensures
            result@ == self@.push(DslOperation::Parallel { branches, merge }),
            result.lifecycle() == self.lifecycle(),
    {
        self.with(DslOperation::Parallel { branches, merge })
    }

    /// Appends branches that all complete before their isolated states are merged.
    pub fn when_all(self, branches: Vec<DslFlow<A>>, merge: A) -> (result: Self)
        ensures
            result@ == self@.push(DslOperation::Parallel { branches, merge }),
            result.lifecycle() == self.lifecycle(),
    {
        self.parallel(branches, merge)
    }

    /// Appends branches that run concurrently until the first branch succeeds.
    pub fn when_any(self, branches: Vec<DslFlow<A>>, merge: A) -> (result: Self)
        ensures
            result@ == self@.push(DslOperation::WhenAny { branches, merge }),
            result.lifecycle() == self.lifecycle(),
    {
        self.with(DslOperation::WhenAny { branches, merge })
    }

    /// Appends an action that runs sequentially for every item selected from the state.
    pub fn for_each(self, operation: A) -> (result: Self)
        ensures
            result@ == self@.push(
                DslOperation::ForEach { operation, continues_on_error: false },
            ),
            result.lifecycle() == self.lifecycle(),
    {
        self.with(DslOperation::ForEach { operation, continues_on_error: false })
    }

    /// Appends a sequential action that continues after a handled item failure.
    pub fn for_each_continue_on_error(self, operation: A) -> (result: Self)
        ensures
            result@ == self@.push(
                DslOperation::ForEach { operation, continues_on_error: true },
            ),
            result.lifecycle() == self.lifecycle(),
    {
        self.with(DslOperation::ForEach { operation, continues_on_error: true })
    }

    /// Appends a sequential action whose selected items can be safely checkpointed.
    pub fn for_each_replayable(self, operation: A) -> (result: Self)
        ensures
            result@ == self@.push(
                DslOperation::ReplayableForEach { operation, continues_on_error: false },
            ),
            result.lifecycle() == self.lifecycle(),
    {
        self.with(DslOperation::ReplayableForEach { operation, continues_on_error: false })
    }

    /// Appends a restart-safe sequential action that continues after a handled item failure.
    pub fn for_each_replayable_continue_on_error(self, operation: A) -> (result: Self)
        ensures
            result@ == self@.push(
                DslOperation::ReplayableForEach { operation, continues_on_error: true },
            ),
            result.lifecycle() == self.lifecycle(),
    {
        self.with(DslOperation::ReplayableForEach { operation, continues_on_error: true })
    }

    /// Appends a sequential action over a lazily polled item stream.
    pub fn for_each_stream(self, action: A) -> (result: Self)
        ensures
            result@ == self@.push(DslOperation::StreamForEach(action)),
            result.lifecycle() == self.lifecycle(),
    {
        self.with(DslOperation::StreamForEach(action))
    }

    /// Appends a step that works on at most `limit` items of a stream at once.
    ///
    /// The results of a batch are reduced in the order of its items, once all its work succeeded.
    pub fn for_each_stream_concurrent(self, limit: usize, action: A) -> (result: CatgaResult<Self>)
        ensures
            match result {
                Ok(flow) => {
                    &&& limit > 0
                    &&& flow@ == self@.push(DslOperation::StreamForEachConcurrent { limit, action })
                    &&& flow.lifecycle() == self.lifecycle()
                },
                Err(failure) => limit == 0 && failure@ == concurrency_rejected(),
            },
    {
        if limit == 0 {
            return Err(
                CatgaError::new(
                    ErrorCode::Validation,
                    "concurrent for_each limit must be greater than zero",
                ),
            );
        }
        Ok(self.with(DslOperation::StreamForEachConcurrent { limit, action }))
    }

    /// Appends a step that works on at most `limit` items at once.
    ///
    /// The results are merged in the order of the items, once all work succeeded.
    pub fn for_each_concurrent(self, limit: usize, action: A) -> (result: CatgaResult<Self>)
        ensures
            match result {
                Ok(flow) => {
                    &&& limit > 0
                    &&& flow@ == self@.push(DslOperation::ConcurrentForEach { limit, action })
                    &&& flow.lifecycle() == self.lifecycle()
                },
                Err(failure) => limit == 0 && failure@ == concurrency_rejected(),
            },
    {
        if limit == 0 {
            return Err(
                CatgaError::new(
                    ErrorCode::Validation,
                    "concurrent for_each limit must be greater than zero",
                ),
            );
        }
        Ok(self.with(DslOperation::ConcurrentForEach { limit, action }))
    }
}

impl<A> Default for DslFlow<A> {
    fn default() -> (result: Self)
        ensures
            result@ == Seq::<DslOperation<A>>::empty(),
            result.lifecycle() == LifecycleView::<A>::silent(),
    {
        DslFlow::new()
    }
}

proof fn lemma_same_place<A>(
    values: Seq<u64>,
    branches: Seq<DslFlow<A>>,
    cases: Seq<(u64, DslFlow<A>)>,
    value: u64,
)
    requires
        holds_cases(values, branches, cases),
    ensures
        search::first_where(cases, case_of(value)) == case_place(values, value),
        case_place(values, value) matches Some(place) ==> 0 <= place < values.len()
            && values[place] == value,
{
    let place = case_place(values, value);
    let same = equals(value);
    let case = case_of::<A>(value);
    search::lemma_first(values, same, place);
    match place {
        Some(found) => {
            assert(same(values[found]));
            assert(case(cases[found]));
            assert forall|i: int| 0 <= i < found implies !#[trigger] case(cases[i]) by {
                assert(!same(values[i]));
            }
        },
        None => {
            assert forall|i: int| 0 <= i < cases.len() implies !#[trigger] case(cases[i]) by {
                assert(!same(values[i]));
            }
        },
    }
    search::lemma_first(cases, case, place);
}

/// A value that was registered selects the branch that was registered for it last, and a value
/// that was not registered selects none.
pub proof fn lemma_last_case_wins<A>(cases: Seq<(u64, DslFlow<A>)>, value: u64)
    ensures
        match search::first_where(kept_cases(cases), case_of(value)) {
            Some(place) => {
                &&& 0 <= place < kept_cases(cases).len()
                &&& exists|last: int|
                    {
                        &&& 0 <= last < cases.len()
                        &&& #[trigger] cases[last] == kept_cases(cases)[place]
                        &&& cases[last].0 == value
                        &&& forall|i: int| last < i < cases.len() ==> (#[trigger] cases[i]).0 != value
                    }
            },
            None => forall|i: int| 0 <= i < cases.len() ==> (#[trigger] cases[i]).0 != value,
        },
    decreases cases.len(),
{
    let case = case_of::<A>(value);
    let kept = kept_cases(cases);
    if cases.len() == 0 {
        search::lemma_first(kept, case, None);
    } else {
        let init = cases.drop_last();
        let before = kept_cases(init);
        let newest = cases.last();
        let earlier = search::first_where(before, case);
        let replaced = search::first_where(before, case_of(newest.0));
        lemma_last_case_wins(init, value);
        search::lemma_first(before, case, earlier);
        search::lemma_first(before, case_of(newest.0), replaced);
        if newest.0 == value {
            let place = match replaced {
                Some(place) => place,
                None => before.len() as int,
            };
            assert forall|i: int| 0 <= i < place implies !#[trigger] case(kept[i]) by {
                assert(!case(before[i]));
            }
            search::lemma_first(kept, case, Some(place));
            assert(cases[cases.len() - 1] == kept[place]);
        } else {
            assert(earlier is None || replaced != earlier) by {
                if earlier is Some && replaced == earlier {
                    assert(case_of::<A>(newest.0)(before[earlier->0]));
                }
            }
            match earlier {
                Some(place) => {
                    assert(kept[place] == before[place]);
                    assert forall|i: int| 0 <= i < place implies !#[trigger] case(kept[i]) by {
                        if replaced == Some(i) {
                            assert(kept[i].0 == newest.0);
                        } else {
                            assert(!case(before[i]));
                        }
                    }
                    search::lemma_first(kept, case, Some(place));
                    let last = choose|last: int|
                        {
                            &&& 0 <= last < init.len()
                            &&& #[trigger] init[last] == before[place]
                            &&& init[last].0 == value
                            &&& forall|i: int|
                                last < i < init.len() ==> (#[trigger] init[i]).0 != value
                        };
                    assert(cases[last] == kept[place]);
                    assert forall|i: int| last < i < cases.len() implies (
                    #[trigger] cases[i]).0 != value by {
                        if i < init.len() {
                            assert(cases[i] == init[i]);
                        }
                    }
                },
                None => {
                    assert forall|i: int| 0 <= i < kept.len() implies !#[trigger] case(kept[i]) by {
                        if replaced == Some(i) || i == before.len() {
                            assert(kept[i].0 == newest.0);
                        } else {
                            assert(!case(before[i]));
                        }
                    }
                    search::lemma_first(kept, case, None);
                    assert forall|i: int| 0 <= i < cases.len() implies (
                    #[trigger] cases[i]).0 != value by {
                        if i < init.len() {
                            assert(cases[i] == init[i]);
                        }
                    }
                },
            }
        }
    }
}

/// The branch that was registered last for a value.
pub open spec fn last_registered<A>(cases: Seq<(u64, DslFlow<A>)>, value: u64) -> Option<DslFlow<A>>
    decreases cases.len(),
{
    if cases.len() == 0 {
        None
    } else if cases.last().0 == value {
        Some(cases.last().1)
    } else {
        last_registered(cases.drop_last(), value)
    }
}

/// The branch that was registered last for a value is the one behind which no other was registered
/// for it; a value for which none was registered has none.
pub proof fn lemma_last_registered<A>(cases: Seq<(u64, DslFlow<A>)>, value: u64, last: Option<int>)
    requires
        match last {
            Some(last) => {
                &&& 0 <= last < cases.len()
                &&& cases[last].0 == value
                &&& forall|i: int| last < i < cases.len() ==> (#[trigger] cases[i]).0 != value
            },
            None => forall|i: int| 0 <= i < cases.len() ==> (#[trigger] cases[i]).0 != value,
        },
    ensures
        last_registered(cases, value) == match last {
            Some(last) => Some(cases[last].1),
            None => None,
        },
    decreases cases.len(),
{
    if cases.len() > 0 && cases.last().0 != value {
        let init = cases.drop_last();
        assert forall|i: int| 0 <= i < init.len() implies #[trigger] init[i] == cases[i] by {}
        lemma_last_registered(init, value, last);
    }
}

/// A match step runs the branch that was registered last for the selected value, and the default
/// branch for a value that was not registered.
pub proof fn lemma_match_runs_the_last_case<A>(
    before: Seq<DslOperation<A>>,
    after: Seq<DslOperation<A>>,
    selector: A,
    registered: Seq<(u64, DslFlow<A>)>,
    fallback: DslFlow<A>,
    value: u64,
)
    requires
        appended_match(before, after, selector, registered, fallback),
    ensures
        after.last().branch_of(value) == Some(
            match last_registered(registered, value) {
                Some(branch) => branch,
                None => fallback,
            },
        ),
{
    lemma_last_case_wins(registered, value);
    let kept = kept_cases(registered);
    if let DslOperation::Match { cases, branches, .. } = after.last() {
        lemma_same_place(cases@, branches@, kept, value);
        match search::first_where(kept, case_of(value)) {
            Some(place) => {
                let last = choose|last: int|
                    {
                        &&& 0 <= last < registered.len()
                        &&& #[trigger] registered[last] == kept[place]
                        &&& registered[last].0 == value
                        &&& forall|i: int|
                            last < i < registered.len() ==> (#[trigger] registered[i]).0 != value
                    };
                lemma_last_registered(registered, value, Some(last));
                assert(branches@[place] == kept[place].1);
            },
            None => {
                lemma_last_registered(registered, value, None);
            },
        }
    }
}

/// How often the initial delay is taken for the delay before one more attempt.
pub open spec fn delay_factor(retry: nat) -> int {
    if retry < 32 {
        vstd::arithmetic::power2::pow2(retry) as int
    } else {
        u32::MAX as int
    }
}

/// The delay before one more attempt: it doubles with each attempt, up to the longest span.
pub open spec fn delay_before(initial_delay: int, retry: nat) -> int {
    if initial_delay * delay_factor(retry) <= time::max_duration_nanos() {
        initial_delay * delay_factor(retry)
    } else {
        time::max_duration_nanos()
    }
}

fn power_of_two(exponent: usize) -> (result: u32)
    requires
        exponent < 32,
    ensures
        result == vstd::arithmetic::power2::pow2(exponent as nat),
{
    let mut result: u32 = 1;
    let mut done: usize = 0;
    proof {
        vstd::arithmetic::power2::lemma2_to64();
    }
    while done < exponent
        invariant
            done <= exponent < 32,
            result == vstd::arithmetic::power2::pow2(done as nat),
        decreases exponent - done,
    {
        proof {
            vstd::arithmetic::power2::lemma_pow2_unfold((done + 1) as nat);
            vstd::arithmetic::power2::lemma2_to64();
            if done + 1 < 31 {
                vstd::arithmetic::power2::lemma_pow2_strictly_increases((done + 1) as nat, 31);
            }
        }
        result = result * 2;
        done = done + 1;
    }
    result
}

/// Returns the delay before the attempt that follows `retry` repetitions.
pub fn retry_delay(initial_delay: Duration, retry: usize) -> (result: Duration)
    ensures
        result@ == delay_before(initial_delay@, retry as nat),
{
    let factor: u32 = if retry < 32 {
        power_of_two(retry)
    } else {
        u32::MAX
    };
    initial_delay.saturating_mul(factor)
}

/// The next effect of a retried action.
#[derive(Debug)]
pub enum RetryStep {
    /// Sleep unless the delay is zero, then run the action again and report it with `retry`.
    Again { delay: Duration, retry: usize },
    /// The step ends with this result.
    Finish(CatgaResult<()>),
}

/// Mathematical model of a [`RetryStep`].
pub enum RetryStepView {
    Again { delay: int, retry: int },
    Finish(Result<(), error::ErrorView>),
}

impl View for RetryStep {
    type V = RetryStepView;

    open spec fn view(&self) -> RetryStepView {
        match *self {
            RetryStep::Again { delay, retry } => RetryStepView::Again {
                delay: delay@,
                retry: retry as int,
            },
            RetryStep::Finish(result) => RetryStepView::Finish(error::unit_result(result)),
        }
    }
}

/// What follows an attempt after `retry` repetitions.
pub open spec fn attempt_step(
    max_retries: nat,
    initial_delay: int,
    retry: nat,
    result: Result<(), error::ErrorView>,
) -> RetryStepView {
    match result {
        Ok(_) => RetryStepView::Finish(Ok(())),
        Err(failure) => if is_repeated(failure, retry, max_retries) {
            RetryStepView::Again {
                delay: delay_before(initial_delay, retry),
                retry: retry as int + 1,
            }
        } else {
            RetryStepView::Finish(Err(failure))
        },
    }
}

/// Whether a failed attempt is repeated.
pub open spec fn is_repeated(failure: error::ErrorView, retry: nat, max_retries: nat) -> bool {
    failure.code == ErrorCode::Transient && retry < max_retries
}

/// Decides what follows an attempt after `retry` repetitions.
pub fn after_attempt(
    max_retries: usize,
    initial_delay: Duration,
    retry: usize,
    result: CatgaResult<()>,
) -> (step: RetryStep)
    ensures
        match result {
            Ok(_) => step matches RetryStep::Finish(Ok(_)),
            Err(failure) => if is_repeated(failure@, retry as nat, max_retries as nat) {
                step matches RetryStep::Again { delay, retry: next } && delay@ == delay_before(
                    initial_delay@,
                    retry as nat,
                ) && next == retry + 1
            } else {
                step matches RetryStep::Finish(Err(returned)) && returned@ == failure@
            },
        },
        step@ == attempt_step(
            max_retries as nat,
            initial_delay@,
            retry as nat,
            error::unit_result(result),
        ),
{
    match result {
        Ok(_) => RetryStep::Finish(Ok(())),
        Err(failure) => {
            if failure.code() == ErrorCode::Transient && retry < max_retries {
                RetryStep::Again { delay: retry_delay(initial_delay, retry), retry: retry + 1 }
            } else {
                RetryStep::Finish(Err(failure))
            }
        },
    }
}

/// The delays between attempts never become shorter.
pub proof fn lemma_delays_never_shrink(initial_delay: int, retry: nat)
    requires
        initial_delay >= 0,
    ensures
        delay_before(initial_delay, retry) <= delay_before(initial_delay, retry + 1),
{
    vstd::arithmetic::power2::lemma2_to64();
    if retry + 1 < 32 {
        vstd::arithmetic::power2::lemma_pow2_strictly_increases(retry, retry + 1);
    } else if retry < 32 {
        assert(retry == 31);
    }
    let shorter = delay_factor(retry);
    let longer = delay_factor(retry + 1);
    assert(initial_delay * shorter <= initial_delay * longer) by (nonlinear_arith)
        requires
            initial_delay >= 0,
            shorter <= longer,
    ;
}

/// Returns the result of an action with a time limit: its own, or a timeout where it did not end
/// in time.
pub fn after_time_limit(finished: Option<CatgaResult<()>>) -> (result: CatgaResult<()>)
    ensures
        error::unit_result(result) == match finished {
            Some(finished) => error::unit_result(finished),
            None => Err(error::plain_error(ErrorCode::Timeout, "flow action timed out"@)),
        },
{
    match finished {
        Some(finished) => finished,
        None => Err(CatgaError::new(ErrorCode::Timeout, "flow action timed out")),
    }
}

/// The attempts of a retried action: how often it ran, and how it ended, with these outcomes.
pub open spec fn attempted(
    max_retries: nat,
    initial_delay: int,
    outcomes: spec_fn(int) -> Result<(), error::ErrorView>,
    retry: int,
    attempts: nat,
) -> (nat, Option<Result<(), error::ErrorView>>)
    decreases attempts,
{
    if attempts == 0 {
        (0, None)
    } else {
        match attempt_step(max_retries, initial_delay, retry as nat, outcomes(retry)) {
            RetryStepView::Again { retry: next, .. } => {
                let rest = attempted(
                    max_retries,
                    initial_delay,
                    outcomes,
                    next,
                    (attempts - 1) as nat,
                );
                (rest.0 + 1, rest.1)
            },
            RetryStepView::Finish(result) => (1, Some(result)),
        }
    }
}

/// An action is repeated while its attempts fail with a transient failure, at most `max_retries` times.
/// It ends with its first other outcome, or with the failure of the last attempt.
pub proof fn lemma_transient_failures_are_repeated(
    max_retries: nat,
    initial_delay: int,
    outcomes: spec_fn(int) -> Result<(), error::ErrorView>,
    retry: int,
    last: int,
    attempts: nat,
)
    requires
        0 <= retry <= last <= max_retries,
        forall|i: int|
            retry <= i < last ==> #[trigger] outcomes(i) is Err && outcomes(i)->Err_0.code
                == ErrorCode::Transient,
        last == max_retries || outcomes(last) is Ok || outcomes(last)->Err_0.code
            != ErrorCode::Transient,
        attempts >= last - retry + 1,
    ensures
        attempted(max_retries, initial_delay, outcomes, retry, attempts) == (
            (last - retry + 1) as nat,
            Some(outcomes(last)),
        ),
    decreases last - retry,
{
    let here = outcomes(retry);
    assert(here is Ok ==> here->Ok_0 == ());
    let step = attempt_step(max_retries, initial_delay, retry as nat, here);
    if retry == last {
        assert(step == RetryStepView::Finish(here));
    } else {
        assert(outcomes(retry) is Err);
        assert(step is Again && step->retry == retry + 1);
        lemma_transient_failures_are_repeated(
            max_retries,
            initial_delay,
            outcomes,
            retry + 1,
            last,
            (attempts - 1) as nat,
        );
    }
}

/// The first delay is the initial one, and each further one is twice the one before it, up to the 32nd
/// and to the longest span that there is.
pub proof fn lemma_delays_double(initial_delay: int, retry: nat)
    requires
        0 <= initial_delay,
        retry + 1 < 32,
        delay_before(initial_delay, retry + 1) < time::max_duration_nanos(),
    ensures
        delay_before(initial_delay, 0) == initial_delay,
        delay_before(initial_delay, retry + 1) == 2 * delay_before(initial_delay, retry),
{
    vstd::arithmetic::power2::lemma2_to64();
    vstd::arithmetic::power2::lemma_pow2_unfold(retry + 1);
    vstd::arithmetic::power2::lemma_pow2_pos(retry);
    let shorter = delay_factor(retry);
    let longer = delay_factor(retry + 1);
    assert(longer == 2 * shorter);
    assert(initial_delay * longer == 2 * (initial_delay * shorter)) by (nonlinear_arith)
        requires
            longer == 2 * shorter,
    ;
    assert(initial_delay * shorter >= initial_delay) by (nonlinear_arith)
        requires
            initial_delay >= 0,
            shorter >= 1,
    ;
    assert(initial_delay * 1 == initial_delay);
}

/// A condition that holds takes the first branch, and one that does not takes the second.
pub proof fn lemma_conditions_choose_their_branch<A>(operation: DslOperation<A>)
    requires
        operation is If,
    ensures
        operation.branch_under(true) == Some(operation->then_branch),
        operation.branch_under(false) == Some(operation->else_branch),
{
}

} // verus!
