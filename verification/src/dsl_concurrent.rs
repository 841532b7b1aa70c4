//! Steps that work on several items at once, without letting them change the state.
//!
//! Each method takes what the last effect brought and answers with the next [`ConcurrentStep`].

use vstd::prelude::*;

use crate::dsl;
use crate::dsl_fan_out;
use crate::dsl_fan_out::in_input_order;
use crate::error;
use crate::error::{CatgaError, CatgaResult, ErrorCode};

verus! {

/// Work on the items of a collection, a bounded number of them at once.
#[derive(Debug)]
pub struct ConcurrentRun<R> {
    limit: usize,
    total: usize,
    started: usize,
    finished: Vec<(usize, R)>,
}

/// Mathematical model of a [`ConcurrentRun`].
#[verifier::ext_equal]
pub struct ConcurrentView<R> {
    /// The largest number of items in work.
    pub limit: int,
    /// The number of items.
    pub total: int,
    /// The number of items whose work was started, from the first one on.
    pub started: int,
    /// The items whose work is done, in the order of completion, with their results.
    pub finished: Seq<(usize, R)>,
}

impl<R> View for ConcurrentRun<R> {
    type V = ConcurrentView<R>;

    closed spec fn view(&self) -> ConcurrentView<R> {
        ConcurrentView {
            limit: self.limit as int,
            total: self.total as int,
            started: self.started as int,
            finished: self.finished@,
        }
    }
}

/// The next effect of a step that works on several items at once.
#[derive(Debug)]
pub enum ConcurrentStep<R> {
    /// Start the work on the item at `index`, then call [`ConcurrentRun::work_started`].
    Start { run: ConcurrentRun<R>, index: usize },
    /// Wait for the work on an item, then call [`ConcurrentRun::work_finished`].
    Await(ConcurrentRun<R>),
    /// Merge these results, in the order of the items; the result of the merge is that of the step.
    Merge(Vec<R>),
    /// Drop the work that is left; the step ends with this failure and merges nothing.
    Finish(CatgaError),
}

/// Mathematical model of a [`ConcurrentStep`].
pub enum ConcurrentStepView<R> {
    Start { run: ConcurrentView<R>, index: int },
    Await(ConcurrentView<R>),
    Merge(Seq<R>),
    Finish(error::ErrorView),
}

impl<R> View for ConcurrentStep<R> {
    type V = ConcurrentStepView<R>;

    open spec fn view(&self) -> ConcurrentStepView<R> {
        match *self {
            ConcurrentStep::Start { run, index } => ConcurrentStepView::Start {
                run: run@,
                index: index as int,
            },
            ConcurrentStep::Await(run) => ConcurrentStepView::Await(run@),
            ConcurrentStep::Merge(results) => ConcurrentStepView::Merge(results@),
            ConcurrentStep::Finish(failure) => ConcurrentStepView::Finish(failure@),
        }
    }
}

/// The model of the result of the work on an item.
pub open spec fn work_outcome<R>(result: CatgaResult<R>) -> Result<R, error::ErrorView> {
    match result {
        Ok(value) => Ok(value),
        Err(failure) => Err(failure@),
    }
}

/// The result of the item at a position.
pub open spec fn result_of<R>(finished: Seq<(usize, R)>, index: int) -> R {
    finished[choose|i: int| 0 <= i < finished.len() && (#[trigger] finished[i]).0 == index].1
}

/// The results in the order of their items.
pub open spec fn in_order<R>(finished: Seq<(usize, R)>) -> Seq<R> {
    Seq::new(finished.len(), |index: int| result_of(finished, index))
}

impl<R> ConcurrentView<R> {
    /// No item is in work yet.
    pub open spec fn initial(limit: int, total: int) -> Self {
        ConcurrentView { limit, total, started: 0, finished: Seq::empty() }
    }

    /// How many items are in work.
    pub open spec fn in_flight(self) -> int {
        self.started - self.finished.len()
    }

    /// Whether the work on an item is done.
    pub open spec fn is_finished(self, index: int) -> bool {
        exists|i: int| 0 <= i < self.finished.len() && (#[trigger] self.finished[i]).0 == index
    }

    /// Whether an item is in work.
    pub open spec fn is_running(self, index: int) -> bool {
        0 <= index < self.started && !self.is_finished(index)
    }

    /// No more items are in work than allowed, and each that is done was started and is done once.
    pub open spec fn is_valid(self) -> bool {
        &&& 0 < self.limit
        &&& self.finished.len() <= self.started <= self.total
        &&& self.in_flight() <= self.limit
        &&& forall|i: int|
            0 <= i < self.finished.len() ==> (#[trigger] self.finished[i]).0 < self.started
        &&& forall|i: int, j: int|
            0 <= i < j < self.finished.len() ==> (#[trigger] self.finished[i]).0 != (
            #[trigger] self.finished[j]).0
    }

    /// The run with the work on one more item done.
    pub open spec fn with_finished(self, index: usize, value: R) -> Self {
        ConcurrentView { finished: self.finished.push((index, value)), ..self }
    }

    /// What is done next: work is started while the limit allows, and the results are merged once
    /// there are all.
    pub open spec fn next(self) -> ConcurrentStepView<R> {
        if self.in_flight() < self.limit && self.started < self.total {
            ConcurrentStepView::Start {
                run: ConcurrentView { started: self.started + 1, ..self },
                index: self.started,
            }
        } else if self.finished.len() < self.total {
            ConcurrentStepView::Await(self)
        } else {
            ConcurrentStepView::Merge(in_order(self.finished))
        }
    }

    /// What follows the work on an item: a failure ends the step. An item that is not in work
    /// changes nothing.
    pub open spec fn after_work(
        self,
        index: usize,
        result: Result<R, error::ErrorView>,
    ) -> ConcurrentStepView<R> {
        if !self.is_running(index as int) {
            self.next()
        } else {
            match result {
                Err(failure) => ConcurrentStepView::Finish(failure),
                Ok(value) => self.with_finished(index, value).next(),
            }
        }
    }
}

impl<R> ConcurrentRun<R> {
    #[verifier::type_invariant]
    spec fn bounds_its_work(&self) -> bool {
        self@.is_valid()
    }

    /// Starts to work on `total` items, at most `limit` of them at once.
    pub fn start(limit: usize, total: usize) -> (step: ConcurrentStep<R>)
        ensures
            step@ == if limit == 0 {
                ConcurrentStepView::Finish(dsl::concurrency_rejected())
            } else {
                ConcurrentView::<R>::initial(limit as int, total as int).next()
            },
    {
        if limit == 0 {
            return ConcurrentStep::Finish(
                CatgaError::new(
                    ErrorCode::Validation,
                    "concurrent for_each limit must be greater than zero",
                ),
            );
        }
        let finished: Vec<(usize, R)> = Vec::new();
        let run = ConcurrentRun { limit, total, started: 0, finished };
        assert(run@ =~= ConcurrentView::<R>::initial(limit as int, total as int));
        run.step()
    }

    fn step(self) -> (step: ConcurrentStep<R>)
        ensures
            step@ == self@.next(),
    {
        proof {
            use_type_invariant(&self);
        }
        if self.started - self.finished.len() < self.limit && self.started < self.total {
            let index: usize = self.started;
            ConcurrentStep::Start {
                run: ConcurrentRun {
                    limit: self.limit,
                    total: self.total,
                    started: index + 1,
                    finished: self.finished,
                },
                index,
            }
        } else if self.finished.len() < self.total {
            ConcurrentStep::Await(self)
        } else {
            let ghost finished = self.finished@;
            assert(dsl_fan_out::covers_all(finished));
            let results: Vec<R> = in_input_order(self.finished).unwrap();
            proof {
                assert forall|index: int| 0 <= index < results@.len() implies results@[index]
                    == in_order(finished)[index] by {
                    let user = dsl_fan_out::lemma_place_is_used(finished, index);
                    let chosen = choose|i: int|
                        0 <= i < finished.len() && (#[trigger] finished[i]).0 == index;
                    assert(finished[user].0 == index);
                    assert(results@[finished[chosen].0 as int] == finished[chosen].1);
                }
                assert(results@ =~= in_order(finished));
            }
            ConcurrentStep::Merge(results)
        }
    }

    /// Goes on after the work on an item was started.
    pub fn work_started(self) -> (step: ConcurrentStep<R>)
        ensures
            step@ == self@.next(),
    {
        self.step()
    }

    fn runs(&self, index: usize) -> (result: bool)
        ensures
            result == self@.is_running(index as int),
    {
        if index >= self.started {
            return false;
        }
        let mut place: usize = 0;
        while place < self.finished.len()
            invariant
                place <= self.finished@.len(),
                forall|i: int| 0 <= i < place ==> (#[trigger] self.finished@[i]).0 != index,
            decreases self.finished@.len() - place,
        {
            if self.finished[place].0 == index {
                assert(self@.finished[place as int].0 == index);
                return false;
            }
            place = place + 1;
        }
        true
    }

    /// Goes on after the work on the item at `index`.
    pub fn work_finished(self, index: usize, result: CatgaResult<R>) -> (step: ConcurrentStep<R>)
        ensures
            step@ == self@.after_work(index, work_outcome(result)),
    {
        if !self.runs(index) {
            return self.step();
        }
        match result {
            Err(failure) => ConcurrentStep::Finish(failure),
            Ok(value) => {
                proof {
                    use_type_invariant(&self);
                    lemma_finished_is_valid(self@, index, value);
                }
                let ghost model = self@.with_finished(index, value);
                let mut finished: Vec<(usize, R)> = self.finished;
                finished.push((index, value));
                let run = ConcurrentRun {
                    limit: self.limit,
                    total: self.total,
                    started: self.started,
                    finished,
                };
                assert(run@ =~= model);
                run.step()
            },
        }
    }
}

proof fn lemma_finished_is_valid<R>(run: ConcurrentView<R>, index: usize, value: R)
    requires
        run.is_valid(),
        run.is_running(index as int),
    ensures
        run.with_finished(index, value).is_valid(),
{
    let count = run.finished.len() as int;
    let finished = run.finished.push((index, value));
    assert forall|i: int, j: int| 0 <= i < j < finished.len() implies (#[trigger] finished[i]).0
        != (#[trigger] finished[j]).0 by {
        assert(finished[i] == run.finished[i]);
        if j < count {
            assert(finished[j] == run.finished[j]);
        }
    }
    assert(count < run.started) by {
        if count == run.started {
            assert(dsl_fan_out::covers_all(run.finished));
            let user = dsl_fan_out::lemma_place_is_used(run.finished, index as int);
            assert(run.finished[user].0 == index);
        }
    }
}

/// The run that a step goes on with.
pub open spec fn run_of<R>(step: ConcurrentStepView<R>) -> Option<ConcurrentView<R>> {
    match step {
        ConcurrentStepView::Start { run, .. } => Some(run),
        ConcurrentStepView::Await(run) => Some(run),
        _ => None,
    }
}

/// Whether a step keeps the bounds of a run: it never has more items in work than the limit, and
/// it starts the items in their order, each once.
pub open spec fn stays_bounded<R>(run: ConcurrentView<R>, step: ConcurrentStepView<R>) -> bool {
    match run_of(step) {
        Some(next) => {
            &&& next.is_valid()
            &&& next.limit == run.limit
            &&& next.total == run.total
            &&& next.in_flight() <= run.limit
            &&& match step {
                ConcurrentStepView::Start { index, .. } => {
                    &&& index == run.started
                    &&& next.started == run.started + 1
                },
                _ => next.started == run.started,
            }
        },
        None => true,
    }
}

/// Whatever a run is told, it never has more items in work than the limit, and it starts the items
/// in their order, each once.
pub proof fn lemma_work_in_flight_is_bounded<R>(
    run: ConcurrentView<R>,
    index: usize,
    result: Result<R, error::ErrorView>,
)
    requires
        run.is_valid(),
    ensures
        stays_bounded(run, run.next()),
        stays_bounded(run, run.after_work(index, result)),
{
    if run.is_running(index as int) && result is Ok {
        lemma_finished_is_valid(run, index, result->Ok_0);
    }
}

/// How many items a step can still start before it waits.
pub open spec fn starts_left<R>(step: ConcurrentStepView<R>) -> nat {
    match step {
        ConcurrentStepView::Start { run, .. } => if run.started <= run.total {
            (run.total - run.started + 1) as nat
        } else {
            1
        },
        _ => 0,
    }
}

/// How a run ends whose items complete in an order, given the outcome of the work on each.
pub open spec fn whole_concurrent_run<R>(
    step: ConcurrentStepView<R>,
    outcomes: spec_fn(int) -> Result<R, error::ErrorView>,
    order: Seq<usize>,
) -> ConcurrentStepView<R>
    decreases order.len(), starts_left(step),
{
    match step {
        ConcurrentStepView::Start { run, .. } => whole_concurrent_run(run.next(), outcomes, order),
        ConcurrentStepView::Await(run) => if order.len() == 0 {
            step
        } else {
            whole_concurrent_run(
                run.after_work(order[0], outcomes(order[0] as int)),
                outcomes,
                order.drop_first(),
            )
        },
        _ => step,
    }
}

/// Whether the items of a collection can complete in an order: each once, and none before it can
/// have been started.
pub open spec fn is_completion_order(limit: int, total: int, order: Seq<usize>) -> bool {
    &&& order.len() == total
    &&& order.no_duplicates()
    &&& forall|place: int|
        0 <= place < total ==> (#[trigger] order[place]) < total && order[place] < limit + place
}

/// The place of the first failure in an order of completion, or the number of items.
pub open spec fn first_failed<R>(
    outcomes: spec_fn(int) -> Result<R, error::ErrorView>,
    order: Seq<usize>,
    from: int,
) -> int
    decreases order.len() - from,
{
    if from >= order.len() || outcomes(order[from] as int) is Err {
        from
    } else {
        first_failed(outcomes, order, from + 1)
    }
}

/// The items that are done once the first ones of an order have completed.
pub open spec fn completed<R>(
    outcomes: spec_fn(int) -> Result<R, error::ErrorView>,
    order: Seq<usize>,
    count: int,
) -> Seq<(usize, R)> {
    Seq::new(count as nat, |i: int| (order[i], outcomes(order[i] as int)->Ok_0))
}

/// The number of items that are started once some have completed.
pub open spec fn started_after(limit: int, total: int, count: int) -> int {
    if limit + count < total {
        limit + count
    } else {
        total
    }
}

/// However the work on the items completes, the step ends with the failure that came first and
/// merges nothing, or, where no work fails, with one merge of all results in the order of the
/// items.
pub proof fn lemma_concurrent_results_are_complete_and_ordered<R>(
    limit: int,
    total: int,
    outcomes: spec_fn(int) -> Result<R, error::ErrorView>,
    order: Seq<usize>,
)
    requires
        0 < limit,
        0 <= total,
        is_completion_order(limit, total, order),
    ensures
        ({
            let end = whole_concurrent_run(
                ConcurrentView::<R>::initial(limit, total).next(),
                outcomes,
                order,
            );
            let failed = first_failed(outcomes, order, 0);
            if failed < total {
                &&& outcomes(order[failed] as int) is Err
                &&& end == ConcurrentStepView::<R>::Finish(outcomes(order[failed] as int)->Err_0)
            } else {
                &&& forall|index: int| 0 <= index < total ==> (#[trigger] outcomes(index)) is Ok
                &&& end == ConcurrentStepView::Merge(
                    Seq::new(total as nat, |index: int| outcomes(index)->Ok_0),
                )
            }
        }),
{
    let run = ConcurrentView::<R>::initial(limit, total);
    assert(run.finished =~= completed(outcomes, order, 0));
    assert(order.skip(0) =~= order);
    lemma_completes(limit, total, outcomes, order, 0, 0);
}

/// All work that may be started is started before the run waits.
proof fn lemma_starts_work<R>(
    run: ConcurrentView<R>,
    outcomes: spec_fn(int) -> Result<R, error::ErrorView>,
    order: Seq<usize>,
)
    requires
        0 < run.limit,
        run.finished.len() <= run.started <= started_after(
            run.limit,
            run.total,
            run.finished.len() as int,
        ),
    ensures
        ({
            let count = run.finished.len() as int;
            let full = ConcurrentView {
                started: started_after(run.limit, run.total, count),
                ..run
            };
            let end = whole_concurrent_run(run.next(), outcomes, order);
            if count < run.total {
                end == whole_concurrent_run(ConcurrentStepView::Await(full), outcomes, order)
            } else {
                end == ConcurrentStepView::Merge(in_order(run.finished))
            }
        }),
    decreases run.total - run.started,
{
    let count = run.finished.len() as int;
    if run.in_flight() < run.limit && run.started < run.total {
        let next = ConcurrentView { started: run.started + 1, ..run };
        lemma_starts_work(next, outcomes, order);
        assert(whole_concurrent_run(run.next(), outcomes, order) == whole_concurrent_run(
            next.next(),
            outcomes,
            order,
        ));
    }
}

proof fn lemma_completes<R>(
    limit: int,
    total: int,
    outcomes: spec_fn(int) -> Result<R, error::ErrorView>,
    order: Seq<usize>,
    started: int,
    count: int,
)
    requires
        0 < limit,
        is_completion_order(limit, total, order),
        0 <= count <= started <= started_after(limit, total, count),
        forall|i: int| 0 <= i < count ==> outcomes((#[trigger] order[i]) as int) is Ok,
    ensures
        ({
            let run = ConcurrentView {
                limit,
                total,
                started,
                finished: completed(outcomes, order, count),
            };
            let end = whole_concurrent_run(run.next(), outcomes, order.skip(count));
            let failed = first_failed(outcomes, order, count);
            if failed < total {
                &&& outcomes(order[failed] as int) is Err
                &&& end == ConcurrentStepView::<R>::Finish(outcomes(order[failed] as int)->Err_0)
            } else {
                &&& forall|index: int| 0 <= index < total ==> (#[trigger] outcomes(index)) is Ok
                &&& end == ConcurrentStepView::Merge(
                    Seq::new(total as nat, |index: int| outcomes(index)->Ok_0),
                )
            }
        }),
    decreases total - count,
{
    let finished = completed(outcomes, order, count);
    let run = ConcurrentView { limit, total, started, finished };
    let rest = order.skip(count);
    lemma_starts_work(run, outcomes, rest);
    if count < total {
        let full = ConcurrentView { started: started_after(limit, total, count), ..run };
        let index = order[count];
        let outcome = outcomes(index as int);
        assert(rest[0] == index);
        assert(rest.drop_first() =~= order.skip(count + 1));
        assert(full.is_running(index as int)) by {
            assert forall|i: int| 0 <= i < finished.len() implies (#[trigger] finished[i]).0
                != index by {
                assert(order[i] != order[count]);
            }
        }
        assert(whole_concurrent_run(ConcurrentStepView::Await(full), outcomes, rest)
            == whole_concurrent_run(full.after_work(index, outcome), outcomes, order.skip(
            count + 1,
        )));
        if outcome is Ok {
            let next = full.with_finished(index, outcome->Ok_0);
            assert(next.finished =~= completed(outcomes, order, count + 1));
            lemma_completes(limit, total, outcomes, order, full.started, count + 1);
        }
    } else {
        assert forall|i: int| 0 <= i < finished.len() implies (#[trigger] finished[i]).0
            < finished.len() by {
            assert(order[i] < total);
        }
        assert forall|i: int, j: int| 0 <= i < j < finished.len() implies (#[trigger] finished[i]).0
            != (#[trigger] finished[j]).0 by {
            assert(order[i] != order[j]);
        }
        assert(dsl_fan_out::covers_all(finished));
        assert forall|index: int| 0 <= index < total implies (#[trigger] outcomes(index)) is Ok
            && result_of(finished, index) == outcomes(index)->Ok_0 by {
            let user = dsl_fan_out::lemma_place_is_used(finished, index);
            assert(finished[user].0 == index);
            assert(outcomes(order[user] as int) is Ok);
            let chosen = choose|i: int|
                0 <= i < finished.len() && (#[trigger] finished[i]).0 == index;
            assert(finished[chosen].0 == index);
            assert(order[chosen] == index);
        }
        assert(in_order(finished) =~= Seq::new(
            total as nat,
            |index: int| outcomes(index)->Ok_0,
        ));
    }
}

} // verus!
