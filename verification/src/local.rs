//! Local sequences of operations with reverse-order compensation.
//!
//! A [`Flow`] owns its callbacks as opaque values of type `A`. Each method of it takes what the
//! last callback returned and answers with the next [`LocalStep`].

use vstd::prelude::*;

use crate::error;
use crate::error::{CatgaError, CatgaResult, ErrorCode};
use crate::state;
use crate::state::clone_error_option;
use crate::time::Duration;

verus! {

/// The outcome of local or durable flow execution.
#[derive(Debug)]
pub struct FlowResult {
    completed_steps: u32,
    error: Option<CatgaError>,
    elapsed: Duration,
}

/// Mathematical model of a [`FlowResult`].
pub struct FlowResultView {
    pub completed_steps: u32,
    pub error: Option<error::ErrorView>,
    pub elapsed: int,
}

impl FlowResultView {
    /// The outcome of a flow whose actions all completed.
    pub open spec fn success(completed_steps: u32) -> Self {
        FlowResultView { completed_steps, error: None, elapsed: 0 }
    }

    /// The outcome of a flow that failed after some actions.
    pub open spec fn failure(completed_steps: u32, error: error::ErrorView) -> Self {
        FlowResultView { completed_steps, error: Some(error), elapsed: 0 }
    }
}

impl View for FlowResult {
    type V = FlowResultView;

    closed spec fn view(&self) -> FlowResultView {
        FlowResultView {
            completed_steps: self.completed_steps,
            error: state::error_option(self.error),
            elapsed: self.elapsed@,
        }
    }
}

impl Clone for FlowResult {
    fn clone(&self) -> (result: Self)
        ensures
            result@ == self@,
    {
        FlowResult {
            completed_steps: self.completed_steps,
            error: clone_error_option(&self.error),
            elapsed: self.elapsed,
        }
    }
}

impl FlowResult {
    /// Creates a successful result after `completed_steps` actions.
    pub fn success(completed_steps: u32) -> (result: Self)
        ensures
            result@ == FlowResultView::success(completed_steps),
    {
        FlowResult { completed_steps, error: None, elapsed: Duration::zero() }
    }

    /// Creates a failed result retaining the operation error.
    pub fn failure(completed_steps: u32, error: CatgaError) -> (result: Self)
        ensures
            result@ == FlowResultView::failure(completed_steps, error@),
    {
        FlowResult { completed_steps, error: Some(error), elapsed: Duration::zero() }
    }

    /// Returns whether all actions completed successfully.
    pub fn is_success(&self) -> (result: bool)
        ensures
            result == (self@.error is None),
    {
        self.error.is_none()
    }

    /// Returns how many forward actions completed before this result.
    pub fn completed_steps(&self) -> (result: u32)
        ensures
            result == self@.completed_steps,
    {
        self.completed_steps
    }

    /// Returns the operation error when execution failed.
    pub fn error(&self) -> (result: Option<&CatgaError>)
        ensures
            match (result, self@.error) {
                (Some(failure), Some(expected)) => failure@ == expected,
                (None, None) => true,
                _ => false,
            },
    {
        match &self.error {
            Some(failure) => Some(failure),
            None => None,
        }
    }

    /// Returns the observed duration of this flow execution, including compensations.
    pub fn elapsed(&self) -> (result: Duration)
        ensures
            result@ == self@.elapsed,
    {
        self.elapsed
    }

    /// Returns this result with an observed duration.
    pub fn with_elapsed(self, elapsed: Duration) -> (result: Self)
        ensures
            result@ == (FlowResultView { elapsed: elapsed@, ..self@ }),
    {
        FlowResult { elapsed, ..self }
    }
}

/// A forward action and the action that undoes it.
#[derive(Debug)]
pub struct FlowAction<A> {
    pub run: A,
    pub compensate: A,
    /// What both actions are called with.
    pub context: Option<A>,
}

/// A local sequence of operations with reverse-order compensation.
#[derive(Debug)]
pub struct Flow<A> {
    name: String,
    steps: Vec<FlowAction<A>>,
}

/// Mathematical model of a [`Flow`].
pub struct FlowView<A> {
    pub name: Seq<char>,
    pub steps: Seq<FlowAction<A>>,
}

impl<A> View for Flow<A> {
    type V = FlowView<A>;

    closed spec fn view(&self) -> FlowView<A> {
        FlowView { name: self.name@, steps: self.steps@ }
    }
}

/// The place of a running flow.
#[derive(Clone, Copy, Debug, PartialEq, Eq, Structural)]
pub struct LocalRun {
    /// The step at which this run began.
    pub start: usize,
    /// The step to run.
    pub next: usize,
    /// How many completed steps a failure may undo.
    pub max_compensations: usize,
}

/// The undoing of completed steps after a failure.
#[derive(Debug)]
pub struct Rollback {
    next: usize,
    floor: usize,
    failed_at: usize,
    error: CatgaError,
}

/// Mathematical model of a [`Rollback`].
pub struct RollbackView {
    /// The number of steps that are not undone yet, from the first one on.
    pub next: int,
    /// The number of steps that are never undone, from the first one on.
    pub floor: int,
    /// The step that failed.
    pub failed_at: int,
    /// Its failure.
    pub error: error::ErrorView,
}

impl View for Rollback {
    type V = RollbackView;

    closed spec fn view(&self) -> RollbackView {
        RollbackView {
            next: self.next as int,
            floor: self.floor as int,
            failed_at: self.failed_at as int,
            error: self.error@,
        }
    }
}

/// The next effect of a local flow.
#[derive(Debug)]
pub enum LocalStep {
    /// Run the step at `next`, then call [`Flow::step_finished`].
    Run(LocalRun),
    /// Undo the step at [`Rollback::index`], then call [`Rollback::compensated`].
    Compensate(Rollback),
    /// The flow ends with this result.
    Finish(FlowResult),
}

/// Mathematical model of a [`LocalStep`].
pub enum LocalStepView {
    Run(LocalRun),
    Compensate(RollbackView),
    Finish(FlowResultView),
}

impl View for LocalStep {
    type V = LocalStepView;

    open spec fn view(&self) -> LocalStepView {
        match *self {
            LocalStep::Run(run) => LocalStepView::Run(run),
            LocalStep::Compensate(rollback) => LocalStepView::Compensate(rollback@),
            LocalStep::Finish(result) => LocalStepView::Finish(result@),
        }
    }
}

/// A number of steps, as far as a result can count them.
pub open spec fn counted(steps: int) -> u32 {
    if steps <= u32::MAX {
        steps as u32
    } else {
        u32::MAX
    }
}

fn count(steps: usize) -> (result: u32)
    ensures
        result == counted(steps as int),
{
    if steps <= 4294967295 {
        steps as u32
    } else {
        u32::MAX
    }
}

/// What a flow with `length` steps does at a place.
pub open spec fn run_step(length: nat, run: LocalRun) -> LocalStepView {
    if run.next >= length {
        LocalStepView::Finish(FlowResultView::success(counted(length as int)))
    } else {
        LocalStepView::Run(run)
    }
}

/// How a flow with `length` steps starts.
pub open spec fn start_run(length: nat, start: usize, max_compensations: usize) -> LocalStepView {
    if start > length {
        LocalStepView::Finish(
            FlowResultView::failure(
                counted(length as int),
                error::validation("flow restart step is out of range"@),
            ),
        )
    } else {
        run_step(length, LocalRun { start, next: start, max_compensations })
    }
}

impl RollbackView {
    /// The undoing after the step at the place of a run failed.
    pub open spec fn after(run: LocalRun, error: error::ErrorView) -> Self {
        RollbackView {
            next: run.next as int,
            floor: if run.next - run.max_compensations > run.start {
                run.next - run.max_compensations
            } else {
                run.start as int
            },
            failed_at: run.next as int,
            error,
        }
    }

    /// What is done at this point of the undoing.
    pub open spec fn step(self) -> LocalStepView {
        if self.next > self.floor {
            LocalStepView::Compensate(self)
        } else {
            LocalStepView::Finish(FlowResultView::failure(counted(self.failed_at), self.error))
        }
    }

    /// What follows the undoing of one step.
    pub open spec fn after_compensation(self) -> LocalStepView {
        if self.next > 0 {
            self.moved_on().step()
        } else {
            self.step()
        }
    }

    /// The undoing with one more step undone.
    pub open spec fn moved_on(self) -> Self {
        RollbackView { next: self.next - 1, ..self }
    }
}

/// What follows the step at the place of a run.
pub open spec fn after_local_step(
    length: nat,
    run: LocalRun,
    result: Result<(), error::ErrorView>,
) -> LocalStepView {
    match result {
        Ok(_) => if run.next < length {
            run_step(length, LocalRun { next: (run.next + 1) as usize, ..run })
        } else {
            run_step(length, run)
        },
        Err(error) => RollbackView::after(run, error).step(),
    }
}

impl<A> Flow<A> {
    /// Starts a named local flow.
    pub fn new(name: &str) -> (result: Self)
        ensures
            result@ == (FlowView { name: name@, steps: Seq::<FlowAction<A>>::empty() }),
    {
        Flow { name: name.to_owned(), steps: Vec::new() }
    }

    /// Appends a forward action and the action that undoes it on later failure.
    pub fn step(self, run: A, compensate: A) -> (result: Self)
        ensures
            result@ == (FlowView {
                steps: self@.steps.push(FlowAction { run, compensate, context: None }),
                ..self@
            }),
    {
        self.with(FlowAction { run, compensate, context: None })
    }

    /// Appends a forward action and the action that undoes it, which share a context.
    pub fn step_with(self, context: A, run: A, compensate: A) -> (result: Self)
        ensures
            result@ == (FlowView {
                steps: self@.steps.push(FlowAction { run, compensate, context: Some(context) }),
                ..self@
            }),
    {
        self.with(FlowAction { run, compensate, context: Some(context) })
    }

    fn with(self, action: FlowAction<A>) -> (result: Self)
        ensures
            result@ == (FlowView { steps: self@.steps.push(action), ..self@ }),
    {
        let mut steps: Vec<FlowAction<A>> = self.steps;
        steps.push(action);
        Flow { name: self.name, steps }
    }

    /// Returns the name.
    pub fn name(&self) -> (result: &str)
        ensures
            result@ == self@.name,
    {
        self.name.as_str()
    }

    /// Returns the step at a position.
    pub fn action(&self, index: usize) -> (result: Option<&FlowAction<A>>)
        ensures
            match result {
                Some(action) => index < self@.steps.len() && *action == self@.steps[index as int],
                None => index >= self@.steps.len(),
            },
    {
        if index < self.steps.len() {
            Some(&self.steps[index])
        } else {
            None
        }
    }

    fn at(&self, run: LocalRun) -> (step: LocalStep)
        ensures
            step@ == run_step(self@.steps.len(), run),
    {
        if run.next >= self.steps.len() {
            LocalStep::Finish(FlowResult::success(count(self.steps.len())))
        } else {
            LocalStep::Run(run)
        }
    }

    /// Executes forward actions and compensates completed actions after a failure.
    pub fn run(&self) -> (step: LocalStep)
        ensures
            step@ == start_run(self@.steps.len(), 0, usize::MAX),
    {
        self.run_from(0, usize::MAX)
    }

    /// Resumes forward execution at `start_step` and compensates at most `max_compensations`
    /// successful steps from this invocation after a later failure.
    ///
    /// Steps before `start_step` are never compensated here.
    pub fn run_from(&self, start_step: usize, max_compensations: usize) -> (step: LocalStep)
        ensures
            step@ == start_run(self@.steps.len(), start_step, max_compensations),
    {
        if start_step > self.steps.len() {
            return LocalStep::Finish(
                FlowResult::failure(
                    count(self.steps.len()),
                    CatgaError::new(ErrorCode::Validation, "flow restart step is out of range"),
                ),
            );
        }
        self.at(LocalRun { start: start_step, next: start_step, max_compensations })
    }

    /// Goes on after the step at the place of a run; a cancelled step failed with
    /// [`local_cancellation`].
    pub fn step_finished(&self, run: LocalRun, result: CatgaResult<()>) -> (step: LocalStep)
        ensures
            step@ == after_local_step(self@.steps.len(), run, error::unit_result(result)),
    {
        match result {
            Ok(_) => {
                if run.next < self.steps.len() {
                    self.at(LocalRun { next: run.next + 1, ..run })
                } else {
                    self.at(run)
                }
            },
            Err(error) => {
                let floor: usize = if run.next > run.start && run.max_compensations < run.next
                    - run.start {
                    run.next - run.max_compensations
                } else {
                    run.start
                };
                Rollback { next: run.next, floor, failed_at: run.next, error }.step()
            },
        }
    }
}

/// Returns the failure of a step that was cancelled.
pub fn local_cancellation() -> (result: CatgaError)
    ensures
        result@ == error::plain_error(
            ErrorCode::Cancelled,
            "local flow execution was cancelled"@,
        ),
{
    CatgaError::new(ErrorCode::Cancelled, "local flow execution was cancelled")
}

impl Rollback {
    fn step(self) -> (step: LocalStep)
        ensures
            step@ == self@.step(),
    {
        if self.next > self.floor {
            LocalStep::Compensate(self)
        } else {
            LocalStep::Finish(FlowResult::failure(count(self.failed_at), self.error))
        }
    }

    /// Returns the step to undo.
    pub fn index(&self) -> (result: Option<usize>)
        ensures
            match result {
                Some(index) => index == self@.next - 1,
                None => self@.next <= 0,
            },
    {
        if self.next > 0 {
            Some(self.next - 1)
        } else {
            None
        }
    }

    /// Goes on after a step was undone; a compensation that fails is only logged.
    pub fn compensated(self) -> (step: LocalStep)
        ensures
            step@ == self@.after_compensation(),
    {
        if self.next > 0 {
            Rollback {
                next: self.next - 1,
                floor: self.floor,
                failed_at: self.failed_at,
                error: self.error,
            }.step()
        } else {
            self.step()
        }
    }
}

/// The steps that an undoing undoes, in order.
pub open spec fn undone(rollback: RollbackView) -> Seq<int>
    decreases rollback.next - rollback.floor,
{
    match rollback.step() {
        LocalStepView::Compensate(current) => seq![current.next - 1] + undone(current.moved_on()),
        _ => Seq::empty(),
    }
}

/// A failure undoes the steps that this run completed, the last one first, up to the permitted
/// number; steps before the start of the run stay as they are.
pub proof fn lemma_rollback_undoes_the_newest_first(run: LocalRun, error: error::ErrorView)
    requires
        run.start <= run.next,
    ensures
        ({
            let completed = run.next - run.start;
            let permitted = if completed < run.max_compensations {
                completed
            } else {
                run.max_compensations as int
            };
            undone(RollbackView::after(run, error)) == Seq::new(
                permitted as nat,
                |i: int| run.next - 1 - i,
            )
        }),
{
    let rollback = RollbackView::after(run, error);
    lemma_undone(rollback);
    let completed = run.next - run.start;
    let permitted = if completed < run.max_compensations {
        completed
    } else {
        run.max_compensations as int
    };
    assert(rollback.next - rollback.floor == permitted);
    assert(undone(rollback) =~= Seq::new(permitted as nat, |i: int| run.next - 1 - i));
}

proof fn lemma_undone(rollback: RollbackView)
    requires
        rollback.floor <= rollback.next,
    ensures
        undone(rollback) == Seq::new(
            (rollback.next - rollback.floor) as nat,
            |i: int| rollback.next - 1 - i,
        ),
    decreases rollback.next - rollback.floor,
{
    if rollback.next > rollback.floor {
        lemma_undone(rollback.moved_on());
    }
    assert(undone(rollback) =~= Seq::new(
        (rollback.next - rollback.floor) as nat,
        |i: int| rollback.next - 1 - i,
    ));
}

/// A whole run, given what each step returns: the steps that were run, and the result.
pub open spec fn whole_local_run(
    length: nat,
    outcomes: spec_fn(int) -> Result<(), error::ErrorView>,
    run: LocalRun,
) -> (Seq<int>, FlowResultView)
    decreases length - run.next,
{
    if run.next >= length {
        (Seq::empty(), FlowResultView::success(counted(length as int)))
    } else {
        match outcomes(run.next as int) {
            Err(error) => (
                seq![run.next as int],
                FlowResultView::failure(counted(run.next as int), error),
            ),
            Ok(_) => match after_local_step(length, run, Ok(())) {
                LocalStepView::Run(next) => {
                    if next.next <= run.next {
                        (Seq::empty(), FlowResultView::success(0))
                    } else {
                        let (rest, result) = whole_local_run(length, outcomes, next);
                        (seq![run.next as int] + rest, result)
                    }
                },
                LocalStepView::Finish(result) => (seq![run.next as int], result),
                LocalStepView::Compensate(_) => (Seq::empty(), FlowResultView::success(0)),
            },
        }
    }
}

/// A run executes the steps in order, each once, up to and including the first that fails; it
/// succeeds exactly where none fails.
pub proof fn lemma_local_run_stops_at_the_first_failure(
    length: nat,
    outcomes: spec_fn(int) -> Result<(), error::ErrorView>,
    run: LocalRun,
)
    requires
        run.next <= length <= usize::MAX,
    ensures
        ({
            let (executed, result) = whole_local_run(length, outcomes, run);
            &&& forall|i: int| 0 <= i < executed.len() ==> #[trigger] executed[i] == run.next + i
            &&& forall|i: int|
                0 <= i < executed.len() - 1 ==> outcomes(#[trigger] executed[i]) is Ok
            &&& match result.error {
                None => {
                    &&& executed.len() == length - run.next
                    &&& executed.len() > 0 ==> outcomes(executed.last()) is Ok
                    &&& result.completed_steps == counted(length as int)
                },
                Some(error) => {
                    &&& executed.len() > 0
                    &&& outcomes(executed.last()) == Err::<(), error::ErrorView>(error)
                    &&& result.completed_steps == counted(executed.last())
                },
            }
        }),
    decreases length - run.next,
{
    if run.next < length && outcomes(run.next as int) is Ok {
        let next = LocalRun { next: (run.next + 1) as usize, ..run };
        let (executed, result) = whole_local_run(length, outcomes, run);
        if next.next < length {
            lemma_local_run_stops_at_the_first_failure(length, outcomes, next);
            let (rest, _) = whole_local_run(length, outcomes, next);
            assert(executed == seq![run.next as int] + rest);
            assert forall|i: int| 0 <= i < executed.len() implies #[trigger] executed[i]
                == run.next + i by {
                if i > 0 {
                    assert(executed[i] == rest[i - 1]);
                }
            }
            assert forall|i: int| 0 <= i < executed.len() - 1 implies outcomes(
                #[trigger] executed[i],
            ) is Ok by {
                if i > 0 {
                    assert(executed[i] == rest[i - 1]);
                    assert(outcomes(rest[i - 1]) is Ok);
                }
            }
            assert(rest.len() > 0 ==> executed.last() == rest.last());
        }
    }
}

/// What a driver did: the steps that it ran and the steps that it undid, in order, and the step at
/// which it stopped.
pub struct LocalTrace {
    pub ran: Seq<int>,
    pub undone: Seq<int>,
    pub stopped: LocalStepView,
}

/// What a driver does from a step on, within a number of effects: it runs the step that it is asked
/// to run and reports what that step returned, and it undoes the step that it is asked to undo.
pub open spec fn driven(
    length: nat,
    outcomes: spec_fn(int) -> Result<(), error::ErrorView>,
    step: LocalStepView,
    effects: nat,
) -> LocalTrace
    decreases effects,
{
    if effects == 0 {
        LocalTrace { ran: Seq::empty(), undone: Seq::empty(), stopped: step }
    } else {
        match step {
            LocalStepView::Run(run) => {
                let next = after_local_step(length, run, outcomes(run.next as int));
                let rest = driven(length, outcomes, next, (effects - 1) as nat);
                LocalTrace { ran: seq![run.next as int] + rest.ran, ..rest }
            },
            LocalStepView::Compensate(rollback) => {
                let next = rollback.after_compensation();
                let rest = driven(length, outcomes, next, (effects - 1) as nat);
                LocalTrace { undone: seq![rollback.next - 1] + rest.undone, ..rest }
            },
            LocalStepView::Finish(_) => LocalTrace {
                ran: Seq::empty(),
                undone: Seq::empty(),
                stopped: step,
            },
        }
    }
}

proof fn lemma_undoing_is_driven(
    length: nat,
    outcomes: spec_fn(int) -> Result<(), error::ErrorView>,
    rollback: RollbackView,
    effects: nat,
)
    requires
        0 <= rollback.floor <= rollback.next,
        effects >= rollback.next - rollback.floor,
    ensures
        ({
            let trace = driven(length, outcomes, rollback.step(), effects);
            &&& trace.ran.len() == 0
            &&& trace.undone == Seq::new(
                (rollback.next - rollback.floor) as nat,
                |i: int| rollback.next - 1 - i,
            )
            &&& trace.stopped == LocalStepView::Finish(
                FlowResultView::failure(counted(rollback.failed_at), rollback.error),
            )
        }),
    decreases rollback.next - rollback.floor,
{
    let trace = driven(length, outcomes, rollback.step(), effects);
    if rollback.next > rollback.floor {
        lemma_undoing_is_driven(length, outcomes, rollback.moved_on(), (effects - 1) as nat);
    }
    assert(trace.undone =~= Seq::new(
        (rollback.next - rollback.floor) as nat,
        |i: int| rollback.next - 1 - i,
    ));
}

/// After a step of a run fails, a driver undoes exactly the newest steps that this run completed, at
/// most as many as permitted and the last one first; it runs nothing more, and it ends with the
/// failure of the step and the number of steps that stand in front of it.
pub proof fn lemma_a_failure_undoes_what_the_run_completed(
    length: nat,
    outcomes: spec_fn(int) -> Result<(), error::ErrorView>,
    run: LocalRun,
    error: error::ErrorView,
    effects: nat,
)
    requires
        run.start <= run.next,
        effects >= run.next - run.start,
    ensures
        ({
            let trace = driven(length, outcomes, after_local_step(length, run, Err(error)), effects);
            let completed = run.next - run.start;
            &&& trace.ran.len() == 0
            &&& trace.undone.len() == if completed < run.max_compensations {
                completed
            } else {
                run.max_compensations as int
            }
            &&& forall|i: int|
                0 <= i < trace.undone.len() ==> #[trigger] trace.undone[i] == run.next - 1 - i
            &&& trace.stopped is Finish
            &&& trace.stopped->Finish_0.error == Some(error)
            &&& trace.stopped->Finish_0.completed_steps == if run.next <= u32::MAX {
                run.next as u32
            } else {
                u32::MAX
            }
        }),
{
    lemma_undoing_is_driven(length, outcomes, RollbackView::after(run, error), effects);
}

/// Whether the steps from one place up to another all succeed.
pub open spec fn all_succeed(
    outcomes: spec_fn(int) -> Result<(), error::ErrorView>,
    from: int,
    to: int,
) -> bool {
    forall|i: int| from <= i < to ==> #[trigger] outcomes(i) is Ok
}

proof fn lemma_run_is_driven(
    length: nat,
    outcomes: spec_fn(int) -> Result<(), error::ErrorView>,
    run: LocalRun,
    stop: int,
    effects: nat,
)
    requires
        run.start <= run.next <= stop <= length <= usize::MAX,
        all_succeed(outcomes, run.next as int, stop),
        stop < length ==> outcomes(stop) is Err,
        effects >= 2 * (length + 1) - run.next - run.start,
    ensures
        ({
            let trace = driven(length, outcomes, run_step(length, run), effects);
            let permitted = if stop - run.start < run.max_compensations {
                stop - run.start
            } else {
                run.max_compensations as int
            };
            if stop == length {
                &&& trace.ran == Seq::new((stop - run.next) as nat, |i: int| run.next + i)
                &&& trace.undone == Seq::<int>::empty()
                &&& trace.stopped == LocalStepView::Finish(FlowResultView::success(counted(length as int)))
            } else {
                &&& trace.ran == Seq::new((stop + 1 - run.next) as nat, |i: int| run.next + i)
                &&& trace.undone == Seq::new(permitted as nat, |i: int| stop - 1 - i)
                &&& trace.stopped == LocalStepView::Finish(
                    FlowResultView::failure(counted(stop), outcomes(stop)->Err_0),
                )
            }
        }),
    decreases stop - run.next,
{
    let trace = driven(length, outcomes, run_step(length, run), effects);
    if run.next < length {
        let less = (effects - 1) as nat;
        if run.next < stop {
            assert(outcomes(run.next as int) is Ok);
            let next = LocalRun { next: (run.next + 1) as usize, ..run };
            lemma_run_is_driven(length, outcomes, next, stop, less);
            let rest = driven(length, outcomes, run_step(length, next), less);
            assert(trace.ran =~= seq![run.next as int] + rest.ran);
            if stop == length {
                assert(trace.ran =~= Seq::new((stop - run.next) as nat, |i: int| run.next + i));
            } else {
                assert(trace.ran =~= Seq::new((stop + 1 - run.next) as nat, |i: int| run.next + i));
            }
        } else {
            let error = outcomes(stop)->Err_0;
            lemma_a_failure_undoes_what_the_run_completed(length, outcomes, run, error, less);
            lemma_undoing_is_driven(length, outcomes, RollbackView::after(run, error), less);
            let permitted = if stop - run.start < run.max_compensations {
                stop - run.start
            } else {
                run.max_compensations as int
            };
            assert(trace.ran =~= Seq::new(1, |i: int| run.next + i));
            assert(trace.undone =~= Seq::new(permitted as nat, |i: int| stop - 1 - i));
        }
    } else {
        assert(trace.ran =~= Seq::new(0, |i: int| run.next + i));
    }
}

/// A flow that is started at a step runs the steps from there on in order, each once, up to and
/// including the first that fails. Where none fails it undoes nothing and succeeds with all its
/// steps. Where one fails it undoes the newest steps that completed since the start, the last one
/// first and at most as many as permitted, and ends with that failure.
pub proof fn lemma_a_run_completes_or_is_undone(
    length: nat,
    outcomes: spec_fn(int) -> Result<(), error::ErrorView>,
    start: usize,
    max_compensations: usize,
    stop: int,
    effects: nat,
)
    requires
        start <= stop <= length <= usize::MAX,
        all_succeed(outcomes, start as int, stop),
        stop < length ==> outcomes(stop) is Err,
        effects >= 2 * (length + 1 - start),
    ensures
        ({
            let trace = driven(
                length,
                outcomes,
                start_run(length, start, max_compensations),
                effects,
            );
            let failed = stop < length;
            &&& trace.stopped is Finish
            &&& trace.ran.len() == stop - start + if failed {
                1int
            } else {
                0
            }
            &&& forall|i: int| 0 <= i < trace.ran.len() ==> #[trigger] trace.ran[i] == start + i
            &&& trace.undone.len() == if !failed {
                0
            } else if stop - start < max_compensations {
                stop - start
            } else {
                max_compensations as int
            }
            &&& forall|i: int|
                0 <= i < trace.undone.len() ==> #[trigger] trace.undone[i] == stop - 1 - i
            &&& trace.stopped->Finish_0.completed_steps == if stop <= u32::MAX {
                stop as u32
            } else {
                u32::MAX
            }
            &&& trace.stopped->Finish_0.error == if failed {
                Some(outcomes(stop)->Err_0)
            } else {
                None
            }
        }),
{
    lemma_run_is_driven(
        length,
        outcomes,
        LocalRun { start, next: start, max_compensations },
        stop,
        effects,
    );
}

/// A flow that is started behind its last step runs and undoes nothing and is rejected.
pub proof fn lemma_a_start_out_of_range_is_rejected(
    length: nat,
    outcomes: spec_fn(int) -> Result<(), error::ErrorView>,
    start: usize,
    max_compensations: usize,
    effects: nat,
)
    requires
        start > length,
    ensures
        ({
            let trace = driven(
                length,
                outcomes,
                start_run(length, start, max_compensations),
                effects,
            );
            &&& trace.ran.len() == 0
            &&& trace.undone.len() == 0
            &&& trace.stopped is Finish
            &&& trace.stopped->Finish_0.error is Some
            &&& trace.stopped->Finish_0.error->0.code == ErrorCode::Validation
        }),
{
}

} // verus!
