//! The order of the top-level steps of a [`DslFlow`] and of the events around them.
//!
//! Each method takes what the last effect returned and answers with the next [`DslRunStep`].

use vstd::prelude::*;

use crate::dsl::DslFlow;
use crate::error;
use crate::error::{CatgaError, CatgaResult, ErrorCode};

verus! {

/// One observable outcome of a top-level step or of the flow itself.
#[derive(Debug)]
pub enum DslFlowLifecycleEvent {
    /// A top-level step completed successfully.
    StepSucceeded { step_index: usize },
    /// A top-level step returned an error.
    StepFailed { step_index: usize, error: CatgaError },
    /// All top-level steps completed successfully.
    FlowSucceeded,
    /// Flow execution stopped at a failed step.
    FlowFailed { error: CatgaError },
}

/// Mathematical model of a [`DslFlowLifecycleEvent`].
pub enum LifecycleEventView {
    StepSucceeded { step_index: int },
    StepFailed { step_index: int, error: error::ErrorView },
    FlowSucceeded,
    FlowFailed { error: error::ErrorView },
}

impl View for DslFlowLifecycleEvent {
    type V = LifecycleEventView;

    open spec fn view(&self) -> LifecycleEventView {
        match *self {
            DslFlowLifecycleEvent::StepSucceeded { step_index } =>
                LifecycleEventView::StepSucceeded { step_index: step_index as int },
            DslFlowLifecycleEvent::StepFailed { step_index, error } =>
                LifecycleEventView::StepFailed { step_index: step_index as int, error: error@ },
            DslFlowLifecycleEvent::FlowSucceeded => LifecycleEventView::FlowSucceeded,
            DslFlowLifecycleEvent::FlowFailed { error } => LifecycleEventView::FlowFailed {
                error: error@,
            },
        }
    }
}

impl Clone for DslFlowLifecycleEvent {
    fn clone(&self) -> (result: Self)
        ensures
            result@ == self@,
    {
        match self {
            DslFlowLifecycleEvent::StepSucceeded { step_index } =>
                DslFlowLifecycleEvent::StepSucceeded { step_index: *step_index },
            DslFlowLifecycleEvent::StepFailed { step_index, error } =>
                DslFlowLifecycleEvent::StepFailed {
                step_index: *step_index,
                error: error.clone(),
            },
            DslFlowLifecycleEvent::FlowSucceeded => DslFlowLifecycleEvent::FlowSucceeded,
            DslFlowLifecycleEvent::FlowFailed { error } => DslFlowLifecycleEvent::FlowFailed {
                error: error.clone(),
            },
        }
    }
}

/// What is called after the outcomes of top-level steps and of the flow.
///
/// A hook runs after the observers heard of the event; its error ends the run.
#[derive(Debug)]
pub struct DslFlowLifecycleHooks<A> {
    step_succeeded: Option<A>,
    step_failed: Option<A>,
    flow_succeeded: Option<A>,
    flow_failed: Option<A>,
}

/// Mathematical model of [`DslFlowLifecycleHooks`].
pub struct HooksView<A> {
    pub step_succeeded: Option<A>,
    pub step_failed: Option<A>,
    pub flow_succeeded: Option<A>,
    pub flow_failed: Option<A>,
}

impl<A> HooksView<A> {
    /// No hooks.
    pub open spec fn none() -> Self {
        HooksView { step_succeeded: None, step_failed: None, flow_succeeded: None, flow_failed: None }
    }

    /// The hook for an event.
    pub open spec fn hook_for(self, event: LifecycleEventView) -> Option<A> {
        match event {
            LifecycleEventView::StepSucceeded { .. } => self.step_succeeded,
            LifecycleEventView::StepFailed { .. } => self.step_failed,
            LifecycleEventView::FlowSucceeded => self.flow_succeeded,
            LifecycleEventView::FlowFailed { .. } => self.flow_failed,
        }
    }
}

impl<A> View for DslFlowLifecycleHooks<A> {
    type V = HooksView<A>;

    closed spec fn view(&self) -> HooksView<A> {
        HooksView {
            step_succeeded: self.step_succeeded,
            step_failed: self.step_failed,
            flow_succeeded: self.flow_succeeded,
            flow_failed: self.flow_failed,
        }
    }
}

impl<A> DslFlowLifecycleHooks<A> {
    /// Creates an empty set of hooks.
    pub fn new() -> (result: Self)
        ensures
            result@ == HooksView::<A>::none(),
    {
        DslFlowLifecycleHooks {
            step_succeeded: None,
            step_failed: None,
            flow_succeeded: None,
            flow_failed: None,
        }
    }

    /// Sets the hook for each successful top-level step.
    pub fn on_step_succeeded(self, hook: A) -> (result: Self)
        ensures
            result@ == (HooksView { step_succeeded: Some(hook), ..self@ }),
    {
        DslFlowLifecycleHooks { step_succeeded: Some(hook), ..self }
    }

    /// Sets the hook for a failed top-level step.
    pub fn on_step_failed(self, hook: A) -> (result: Self)
        ensures
            result@ == (HooksView { step_failed: Some(hook), ..self@ }),
    {
        DslFlowLifecycleHooks { step_failed: Some(hook), ..self }
    }

    /// Sets the hook for a flow whose top-level steps all succeeded.
    pub fn on_flow_succeeded(self, hook: A) -> (result: Self)
        ensures
            result@ == (HooksView { flow_succeeded: Some(hook), ..self@ }),
    {
        DslFlowLifecycleHooks { flow_succeeded: Some(hook), ..self }
    }

    /// Sets the hook for a flow that a failed top-level step ended.
    pub fn on_flow_failed(self, hook: A) -> (result: Self)
        ensures
            result@ == (HooksView { flow_failed: Some(hook), ..self@ }),
    {
        DslFlowLifecycleHooks { flow_failed: Some(hook), ..self }
    }

    /// Returns the hook for an event.
    pub fn hook_for(&self, event: &DslFlowLifecycleEvent) -> (result: Option<&A>)
        ensures
            match (result, self@.hook_for(event@)) {
                (Some(hook), Some(expected)) => *hook == expected,
                (None, None) => true,
                _ => false,
            },
    {
        match event {
            DslFlowLifecycleEvent::StepSucceeded { .. } => self.step_succeeded.as_ref(),
            DslFlowLifecycleEvent::StepFailed { .. } => self.step_failed.as_ref(),
            DslFlowLifecycleEvent::FlowSucceeded => self.flow_succeeded.as_ref(),
            DslFlowLifecycleEvent::FlowFailed { .. } => self.flow_failed.as_ref(),
        }
    }
}

impl<A> Default for DslFlowLifecycleHooks<A> {
    fn default() -> (result: Self)
        ensures
            result@ == HooksView::<A>::none(),
    {
        DslFlowLifecycleHooks::new()
    }
}

/// How a flow is run.
#[derive(Clone, Copy, Debug, PartialEq, Eq, Structural)]
pub enum DslRunMode {
    /// Nothing is stored.
    Local,
    /// Each completed step and the final state are stored.
    Checkpointed,
    /// Each completed step is stored; the owner of the branch stores its final state.
    CheckpointedBranch,
}

/// The next effect of a run.
#[derive(Debug)]
pub enum DslRunStep {
    /// Run the step at `index`, then call [`DslFlow::step_finished`].
    Run { index: usize },
    /// Hand the event to each of [`DslFlow::observers`] and then to [`DslFlow::hook_for`], then
    /// call [`DslFlow::notified`].
    Notify(DslFlowLifecycleEvent),
    /// Store the state after the step at `index`, then call [`DslFlow::step_saved`].
    SaveStep { index: usize },
    /// Store the final state; its result is the result of the run.
    SaveTerminal,
    /// The run ends with this result.
    Finish(CatgaResult<()>),
}

/// Mathematical model of a [`DslRunStep`].
pub enum RunStepView {
    Run { index: int },
    Notify(LifecycleEventView),
    SaveStep { index: int },
    SaveTerminal,
    Finish(Result<(), error::ErrorView>),
}

impl View for DslRunStep {
    type V = RunStepView;

    open spec fn view(&self) -> RunStepView {
        match *self {
            DslRunStep::Run { index } => RunStepView::Run { index: index as int },
            DslRunStep::Notify(event) => RunStepView::Notify(event@),
            DslRunStep::SaveStep { index } => RunStepView::SaveStep { index: index as int },
            DslRunStep::SaveTerminal => RunStepView::SaveTerminal,
            DslRunStep::Finish(result) => RunStepView::Finish(error::unit_result(result)),
        }
    }
}

/// The failure of a checkpointed flow with more steps than checkpoints can number.
pub open spec fn step_index_exhausted() -> error::ErrorView {
    error::plain_error(ErrorCode::Internal, "DSL step index exceeds u32"@)
}

/// Whether progress records can number a step; the last number is that of the final state.
pub open spec fn is_numbered(index: int) -> bool {
    index < u32::MAX
}

/// What is done at a position of a flow with `length` steps.
pub open spec fn run_at(mode: DslRunMode, length: nat, index: int) -> RunStepView {
    if index >= length {
        RunStepView::Notify(LifecycleEventView::FlowSucceeded)
    } else if mode != DslRunMode::Local && !is_numbered(index) {
        RunStepView::Finish(Err(step_index_exhausted()))
    } else {
        RunStepView::Run { index }
    }
}

/// What follows a step.
pub open spec fn after_step(index: int, result: Result<(), error::ErrorView>) -> RunStepView {
    match result {
        Ok(_) => RunStepView::Notify(LifecycleEventView::StepSucceeded { step_index: index }),
        Err(error) => RunStepView::Notify(
            LifecycleEventView::StepFailed { step_index: index, error },
        ),
    }
}

/// What follows an event, given what its hook returned: a failing hook ends the run.
pub open spec fn after_event(
    mode: DslRunMode,
    length: nat,
    event: LifecycleEventView,
    hook: Result<(), error::ErrorView>,
) -> RunStepView {
    match hook {
        Err(failure) => RunStepView::Finish(Err(failure)),
        Ok(_) => match event {
            LifecycleEventView::StepSucceeded { step_index } => if mode == DslRunMode::Local {
                run_at(mode, length, step_index + 1)
            } else {
                RunStepView::SaveStep { index: step_index }
            },
            LifecycleEventView::StepFailed { error, .. } => RunStepView::Notify(
                LifecycleEventView::FlowFailed { error },
            ),
            LifecycleEventView::FlowSucceeded => if mode == DslRunMode::Checkpointed {
                RunStepView::SaveTerminal
            } else {
                RunStepView::Finish(Ok(()))
            },
            LifecycleEventView::FlowFailed { error } => RunStepView::Finish(Err(error)),
        },
    }
}

/// What follows the storing of a completed step.
pub open spec fn after_save(
    mode: DslRunMode,
    length: nat,
    index: int,
    result: Result<(), error::ErrorView>,
) -> RunStepView {
    match result {
        Ok(_) => run_at(mode, length, index + 1),
        Err(failure) => RunStepView::Finish(Err(failure)),
    }
}

impl<A> DslFlow<A> {
    /// Starts a run at a step.
    pub fn run(&self, mode: DslRunMode, start: usize) -> (step: DslRunStep)
        ensures
            step@ == run_at(mode, self@.len(), start as int),
    {
        if start >= self.len() {
            DslRunStep::Notify(DslFlowLifecycleEvent::FlowSucceeded)
        } else if mode != DslRunMode::Local && start >= 4294967295 {
            DslRunStep::Finish(
                Err(CatgaError::new(ErrorCode::Internal, "DSL step index exceeds u32")),
            )
        } else {
            DslRunStep::Run { index: start }
        }
    }

    fn run_after(&self, mode: DslRunMode, index: usize) -> (step: DslRunStep)
        ensures
            step@ == run_at(mode, self@.len(), index + 1),
    {
        if index < self.len() {
            self.run(mode, index + 1)
        } else {
            DslRunStep::Notify(DslFlowLifecycleEvent::FlowSucceeded)
        }
    }

    /// Goes on after the step at `index`.
    pub fn step_finished(&self, index: usize, result: CatgaResult<()>) -> (step: DslRunStep)
        ensures
            step@ == after_step(index as int, error::unit_result(result)),
    {
        match result {
            Ok(_) => DslRunStep::Notify(DslFlowLifecycleEvent::StepSucceeded { step_index: index }),
            Err(error) => DslRunStep::Notify(
                DslFlowLifecycleEvent::StepFailed { step_index: index, error },
            ),
        }
    }

    /// Goes on after an event was observed and its hook returned.
    pub fn notified(
        &self,
        mode: DslRunMode,
        event: DslFlowLifecycleEvent,
        hook: CatgaResult<()>,
    ) -> (step: DslRunStep)
        ensures
            step@ == after_event(mode, self@.len(), event@, error::unit_result(hook)),
    {
        match hook {
            Err(failure) => DslRunStep::Finish(Err(failure)),
            Ok(_) => match event {
                DslFlowLifecycleEvent::StepSucceeded { step_index } => {
                    if mode == DslRunMode::Local {
                        self.run_after(mode, step_index)
                    } else {
                        DslRunStep::SaveStep { index: step_index }
                    }
                },
                DslFlowLifecycleEvent::StepFailed { step_index: _, error } => DslRunStep::Notify(
                    DslFlowLifecycleEvent::FlowFailed { error },
                ),
                DslFlowLifecycleEvent::FlowSucceeded => {
                    if mode == DslRunMode::Checkpointed {
                        DslRunStep::SaveTerminal
                    } else {
                        DslRunStep::Finish(Ok(()))
                    }
                },
                DslFlowLifecycleEvent::FlowFailed { error } => DslRunStep::Finish(Err(error)),
            },
        }
    }

    /// Goes on after the state after the step at `index` was stored.
    pub fn step_saved(&self, mode: DslRunMode, index: usize, result: CatgaResult<()>) -> (step:
        DslRunStep)
        ensures
            step@ == after_save(mode, self@.len(), index as int, error::unit_result(result)),
    {
        match result {
            Ok(_) => self.run_after(mode, index),
            Err(failure) => DslRunStep::Finish(Err(failure)),
        }
    }
}

/// How far a run is from its end.
pub open spec fn run_rank(length: nat, step: RunStepView) -> nat {
    match step {
        RunStepView::Run { index } => if index < length {
            (4 * (length - index) + 3) as nat
        } else {
            7
        },
        RunStepView::Notify(LifecycleEventView::StepSucceeded { step_index }) => if step_index
            < length {
            (4 * (length - step_index) + 2) as nat
        } else {
            6
        },
        RunStepView::SaveStep { index } => if index < length {
            (4 * (length - index) + 1) as nat
        } else {
            5
        },
        RunStepView::Notify(LifecycleEventView::StepFailed { .. }) => 3,
        RunStepView::Notify(_) => 2,
        RunStepView::SaveTerminal => 1,
        RunStepView::Finish(_) => 0,
    }
}

/// A whole run, given what each step returns, while every hook and every write succeeds: the
/// positions of the steps that were run, and the result.
pub open spec fn whole_run(
    mode: DslRunMode,
    length: nat,
    outcomes: spec_fn(int) -> Result<(), error::ErrorView>,
    step: RunStepView,
) -> (Seq<int>, Result<(), error::ErrorView>)
    decreases run_rank(length, step),
{
    match step {
        RunStepView::Run { index } => {
            let (rest, result) = whole_run(
                mode,
                length,
                outcomes,
                after_step(index, outcomes(index)),
            );
            (seq![index] + rest, result)
        },
        RunStepView::Notify(event) => whole_run(
            mode,
            length,
            outcomes,
            after_event(mode, length, event, Ok(())),
        ),
        RunStepView::SaveStep { index } => whole_run(
            mode,
            length,
            outcomes,
            after_save(mode, length, index, Ok(())),
        ),
        RunStepView::SaveTerminal => (Seq::empty(), Ok(())),
        RunStepView::Finish(result) => (Seq::empty(), result),
    }
}

/// The first failing step from a position on, or the number of steps.
pub open spec fn first_failure(
    length: nat,
    outcomes: spec_fn(int) -> Result<(), error::ErrorView>,
    from: int,
) -> int
    decreases length - from,
{
    if from >= length || outcomes(from) is Err {
        from
    } else {
        first_failure(length, outcomes, from + 1)
    }
}

proof fn lemma_first_failure_range(
    length: nat,
    outcomes: spec_fn(int) -> Result<(), error::ErrorView>,
    from: int,
)
    requires
        from <= length,
    ensures
        from <= first_failure(length, outcomes, from) <= length,
    decreases length - from,
{
    if from < length && outcomes(from) is Ok {
        lemma_first_failure_range(length, outcomes, from + 1);
    }
}

/// A run executes the steps in order, each once, up to and including the first that fails, and
/// returns its error; it succeeds exactly where no step fails.
pub proof fn lemma_run_stops_at_the_first_failure(
    mode: DslRunMode,
    length: nat,
    outcomes: spec_fn(int) -> Result<(), error::ErrorView>,
    start: int,
)
    requires
        0 <= start <= length < u32::MAX,
    ensures
        ({
            let stop = first_failure(length, outcomes, start);
            let (executed, result) = whole_run(
                mode,
                length,
                outcomes,
                run_at(mode, length, start),
            );
            if stop < length {
                &&& executed == Seq::new((stop + 1 - start) as nat, |i: int| start + i)
                &&& result == outcomes(stop)
                &&& result is Err
            } else {
                &&& executed == Seq::new((length - start) as nat, |i: int| start + i)
                &&& result is Ok
            }
        }),
    decreases length - start,
{
    let step = run_at(mode, length, start);
    let (executed, _) = whole_run(mode, length, outcomes, step);
    if start < length {
        let outcome = outcomes(start);
        let event = after_step(start, outcome);
        let (rest, _) = whole_run(mode, length, outcomes, event);
        assert(executed == seq![start] + rest);
        if outcome is Ok {
            let after = run_at(mode, length, start + 1);
            let saved = RunStepView::SaveStep { index: start };
            if mode != DslRunMode::Local {
                assert(whole_run(mode, length, outcomes, event) == whole_run(
                    mode,
                    length,
                    outcomes,
                    saved,
                ));
            }
            assert(rest == whole_run(mode, length, outcomes, after).0);
            lemma_run_stops_at_the_first_failure(mode, length, outcomes, start + 1);
            lemma_first_failure_range(length, outcomes, start + 1);
            let stop = first_failure(length, outcomes, start);
            let count = if stop < length {
                (stop + 1 - start) as nat
            } else {
                (length - start) as nat
            };
            assert(executed =~= Seq::new(count, |i: int| start + i));
        } else {
            let failure = outcome->Err_0;
            let failed = RunStepView::Notify(LifecycleEventView::FlowFailed { error: failure });
            assert(whole_run(mode, length, outcomes, event) == whole_run(
                mode,
                length,
                outcomes,
                failed,
            ));
            assert(whole_run(mode, length, outcomes, failed) == whole_run(
                mode,
                length,
                outcomes,
                RunStepView::Finish(Err(failure)),
            ));
            assert(executed =~= Seq::new(1, |i: int| start + i));
        }
    } else {
        let after = after_event(mode, length, LifecycleEventView::FlowSucceeded, Ok(()));
        assert(whole_run(mode, length, outcomes, step) == whole_run(
            mode,
            length,
            outcomes,
            after,
        ));
        assert(executed =~= Seq::new(0, |i: int| start + i));
    }
}

} // verus!
