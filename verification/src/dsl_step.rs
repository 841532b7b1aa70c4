//! Composable steps: an action or a query with conditions, failure checks and optionality.
//!
//! The callbacks are opaque values of type `A`. [`StepGuards`] decides in which order they are
//! called and what the step returns.

use vstd::prelude::*;

use crate::error;
use crate::error::{CatgaError, CatgaResult, ErrorCode};
use crate::state;

verus! {

/// The decorators of a step: how many conditions and failure checks it has, and whether its
/// failure is tolerated.
#[derive(Clone, Copy, Debug, PartialEq, Eq, Structural)]
pub struct StepGuards {
    pub conditions: usize,
    pub failures: usize,
    pub optional: bool,
}

/// The next effect of a step.
#[derive(Debug)]
pub enum GuardStep {
    /// Evaluate the condition at `index`, then call [`StepGuards::condition_evaluated`].
    Condition { index: usize },
    /// Run the action or the query, then call [`StepGuards::body_finished`].
    Run,
    /// Evaluate the failure check at `index`, then call [`StepGuards::failure_checked`].
    Failure { index: usize },
    /// Keep what the query returned; the step succeeds.
    Keep,
    /// The step ends with this result, and nothing that a query returned is kept.
    Finish(CatgaResult<()>),
}

/// Mathematical model of a [`GuardStep`].
pub enum GuardStepView {
    Condition { index: usize },
    Run,
    Failure { index: usize },
    Keep,
    Finish(Result<(), error::ErrorView>),
}

impl View for GuardStep {
    type V = GuardStepView;

    open spec fn view(&self) -> GuardStepView {
        match *self {
            GuardStep::Condition { index } => GuardStepView::Condition { index },
            GuardStep::Run => GuardStepView::Run,
            GuardStep::Failure { index } => GuardStepView::Failure { index },
            GuardStep::Keep => GuardStepView::Keep,
            GuardStep::Finish(result) => GuardStepView::Finish(error::unit_result(result)),
        }
    }
}

impl StepGuards {
    /// What is done once the first `index` conditions hold.
    pub open spec fn at_condition(self, index: int) -> GuardStepView {
        if index < self.conditions {
            GuardStepView::Condition { index: index as usize }
        } else {
            GuardStepView::Run
        }
    }

    /// What follows a condition.
    pub open spec fn after_condition(self, index: int, holds: bool) -> GuardStepView {
        if holds {
            self.at_condition(index + 1)
        } else {
            GuardStepView::Finish(Ok(()))
        }
    }

    /// What is done once the first `index` failure checks have passed.
    pub open spec fn at_failure(self, index: int) -> GuardStepView {
        if index < self.failures {
            GuardStepView::Failure { index: index as usize }
        } else {
            GuardStepView::Keep
        }
    }

    /// What follows the action or the query. An optional step tolerates every failure but a
    /// cancellation.
    pub open spec fn after_body(self, result: Result<(), error::ErrorView>) -> GuardStepView {
        match result {
            Ok(_) => self.at_failure(0),
            Err(failure) => if self.optional && failure.code != ErrorCode::Cancelled {
                GuardStepView::Finish(Ok(()))
            } else {
                GuardStepView::Finish(Err(failure))
            },
        }
    }

    /// What follows a failure check.
    pub open spec fn after_failure(self, index: int, failure: Option<error::ErrorView>) ->
        GuardStepView {
        match failure {
            Some(failure) => GuardStepView::Finish(Err(failure)),
            None => self.at_failure(index + 1),
        }
    }

    /// Starts a step.
    pub fn start(self) -> (step: GuardStep)
        ensures
            step@ == self.at_condition(0),
    {
        if self.conditions > 0 {
            GuardStep::Condition { index: 0 }
        } else {
            GuardStep::Run
        }
    }

    /// Goes on after the condition at `index` was evaluated.
    pub fn condition_evaluated(self, index: usize, holds: bool) -> (step: GuardStep)
        ensures
            step@ == self.after_condition(index as int, holds),
    {
        if !holds {
            GuardStep::Finish(Ok(()))
        } else if index < self.conditions && self.conditions - index > 1 {
            GuardStep::Condition { index: index + 1 }
        } else {
            GuardStep::Run
        }
    }

    /// Goes on after the action or the query.
    pub fn body_finished(self, result: CatgaResult<()>) -> (step: GuardStep)
        ensures
            step@ == self.after_body(error::unit_result(result)),
    {
        match result {
            Ok(_) => {
                if self.failures > 0 {
                    GuardStep::Failure { index: 0 }
                } else {
                    GuardStep::Keep
                }
            },
            Err(failure) => {
                if self.optional && failure.code() != ErrorCode::Cancelled {
                    GuardStep::Finish(Ok(()))
                } else {
                    GuardStep::Finish(Err(failure))
                }
            },
        }
    }

    /// Goes on after the failure check at `index`.
    pub fn failure_checked(self, index: usize, failure: Option<CatgaError>) -> (step: GuardStep)
        ensures
            step@ == self.after_failure(index as int, state::error_option(failure)),
    {
        match failure {
            Some(failure) => GuardStep::Finish(Err(failure)),
            None => {
                if index < self.failures && self.failures - index > 1 {
                    GuardStep::Failure { index: index + 1 }
                } else {
                    GuardStep::Keep
                }
            },
        }
    }
}

/// Returns the failure of a step whose state check matched after a successful action.
pub fn state_failure(matched: bool) -> (result: Option<CatgaError>)
    ensures
        state::error_option(result) == if matched {
            Some(error::validation("DSL state failure condition matched"@))
        } else {
            None
        },
{
    if matched {
        Some(CatgaError::new(ErrorCode::Validation, "DSL state failure condition matched"))
    } else {
        None
    }
}

/// Returns the failure of a query whose response check matched a successful response.
pub fn response_failure(matched: bool) -> (result: Option<CatgaError>)
    ensures
        state::error_option(result) == if matched {
            Some(error::validation("DSL response failure condition matched"@))
        } else {
            None
        },
{
    if matched {
        Some(CatgaError::new(ErrorCode::Validation, "DSL response failure condition matched"))
    } else {
        None
    }
}

/// A check of the state or of a response.
#[derive(Debug)]
pub enum FailureCheck<A> {
    /// A match is a rejection with the standard message.
    Matches(A),
    /// The callback creates the failure.
    Fails(A),
}

/// A query that can validate its response before it changes flow state.
#[derive(Debug)]
pub struct DslQueryStep<A> {
    query: A,
    conditions: Vec<A>,
    failures: Vec<FailureCheck<A>>,
    optional: bool,
}

/// Mathematical model of a [`DslQueryStep`].
pub struct QueryStepView<A> {
    pub query: A,
    pub conditions: Seq<A>,
    pub failures: Seq<FailureCheck<A>>,
    pub optional: bool,
}

impl<A> View for DslQueryStep<A> {
    type V = QueryStepView<A>;

    closed spec fn view(&self) -> QueryStepView<A> {
        QueryStepView {
            query: self.query,
            conditions: self.conditions@,
            failures: self.failures@,
            optional: self.optional,
        }
    }
}

/// What a step does once its conditions hold.
#[derive(Debug)]
pub enum StepBody<A> {
    /// Runs an action.
    Action(A),
    /// Runs a query and stores its response, or discards it.
    Query { query: DslQueryStep<A>, store: Option<A> },
}

/// A composable, state-mutating step.
#[derive(Debug)]
pub struct DslStep<A> {
    body: StepBody<A>,
    conditions: Vec<A>,
    failures: Vec<FailureCheck<A>>,
    optional: bool,
}

/// Mathematical model of a [`DslStep`].
pub struct StepView<A> {
    pub body: StepBody<A>,
    pub conditions: Seq<A>,
    pub failures: Seq<FailureCheck<A>>,
    pub optional: bool,
}

impl<A> View for DslStep<A> {
    type V = StepView<A>;

    closed spec fn view(&self) -> StepView<A> {
        StepView {
            body: self.body,
            conditions: self.conditions@,
            failures: self.failures@,
            optional: self.optional,
        }
    }
}

impl<A> DslStep<A> {
    /// Builds a step from one action.
    pub fn action(action: A) -> (result: Self)
        ensures
            result@ == (StepView {
                body: StepBody::Action(action),
                conditions: Seq::empty(),
                failures: Seq::empty(),
                optional: false,
            }),
    {
        DslStep {
            body: StepBody::Action(action),
            conditions: Vec::new(),
            failures: Vec::new(),
            optional: false,
        }
    }

    /// Builds a query whose response can be stored or discarded.
    pub fn query(query: A) -> (result: DslQueryStep<A>)
        ensures
            result@ == (QueryStepView {
                query,
                conditions: Seq::empty(),
                failures: Seq::empty(),
                optional: false,
            }),
    {
        DslQueryStep { query, conditions: Vec::new(), failures: Vec::new(), optional: false }
    }

    /// Adds a condition that must hold for this step to run.
    pub fn only_when(self, condition: A) -> (result: Self)
        ensures
            result@ == (StepView { conditions: self@.conditions.push(condition), ..self@ }),
    {
        let mut conditions: Vec<A> = self.conditions;
        conditions.push(condition);
        DslStep {
            body: self.body,
            conditions,
            failures: self.failures,
            optional: self.optional,
        }
    }

    /// Continues the flow when this step's action returns a failure other than a cancellation.
    pub fn optional(self) -> (result: Self)
        ensures
            result@ == (StepView { optional: true, ..self@ }),
    {
        DslStep {
            body: self.body,
            conditions: self.conditions,
            failures: self.failures,
            optional: true,
        }
    }

    fn checked(self, check: FailureCheck<A>) -> (result: Self)
        ensures
            result@ == (StepView { failures: self@.failures.push(check), ..self@ }),
    {
        let mut failures: Vec<FailureCheck<A>> = self.failures;
        failures.push(check);
        DslStep {
            body: self.body,
            conditions: self.conditions,
            failures,
            optional: self.optional,
        }
    }

    /// Rejects the step when a condition holds after a successful action.
    pub fn fail_if(self, condition: A) -> (result: Self)
        ensures
            result@ == (StepView {
                failures: self@.failures.push(FailureCheck::Matches(condition)),
                ..self@
            }),
    {
        self.checked(FailureCheck::Matches(condition))
    }

    /// Adds a check that may create a failure after a successful action.
    pub fn fail_if_with(self, failure: A) -> (result: Self)
        ensures
            result@ == (StepView {
                failures: self@.failures.push(FailureCheck::Fails(failure)),
                ..self@
            }),
    {
        self.checked(FailureCheck::Fails(failure))
    }

    /// Returns what the step does once its conditions hold.
    pub fn body(&self) -> (result: &StepBody<A>)
        ensures
            *result == self@.body,
    {
        &self.body
    }

    /// Returns the conditions in the order of their evaluation.
    pub fn conditions(&self) -> (result: &[A])
        ensures
            result@ == self@.conditions,
    {
        self.conditions.as_slice()
    }

    /// Returns the failure checks in the order of their evaluation.
    pub fn failures(&self) -> (result: &[FailureCheck<A>])
        ensures
            result@ == self@.failures,
    {
        self.failures.as_slice()
    }

    /// Returns the decorators of the step.
    pub fn guards(&self) -> (result: StepGuards)
        ensures
            result.conditions == self@.conditions.len(),
            result.failures == self@.failures.len(),
            result.optional == self@.optional,
    {
        StepGuards {
            conditions: self.conditions.len(),
            failures: self.failures.len(),
            optional: self.optional,
        }
    }
}

impl<A> DslQueryStep<A> {
    /// Adds a condition that must hold before the request is constructed.
    pub fn only_when(self, condition: A) -> (result: Self)
        ensures
            result@ == (QueryStepView { conditions: self@.conditions.push(condition), ..self@ }),
    {
        let mut conditions: Vec<A> = self.conditions;
        conditions.push(condition);
        DslQueryStep {
            query: self.query,
            conditions,
            failures: self.failures,
            optional: self.optional,
        }
    }

    /// Continues the flow when the request returns a failure other than a cancellation.
    pub fn optional(self) -> (result: Self)
        ensures
            result@ == (QueryStepView { optional: true, ..self@ }),
    {
        DslQueryStep {
            query: self.query,
            conditions: self.conditions,
            failures: self.failures,
            optional: true,
        }
    }

    fn checked(self, check: FailureCheck<A>) -> (result: Self)
        ensures
            result@ == (QueryStepView { failures: self@.failures.push(check), ..self@ }),
    {
        let mut failures: Vec<FailureCheck<A>> = self.failures;
        failures.push(check);
        DslQueryStep {
            query: self.query,
            conditions: self.conditions,
            failures,
            optional: self.optional,
        }
    }

    /// Rejects a successful response that matches a condition.
    pub fn fail_if_response(self, condition: A) -> (result: Self)
        ensures
            result@ == (QueryStepView {
                failures: self@.failures.push(FailureCheck::Matches(condition)),
                ..self@
            }),
    {
        self.checked(FailureCheck::Matches(condition))
    }

    /// Adds a check that may create a failure for a successful response.
    pub fn fail_if_response_with(self, failure: A) -> (result: Self)
        ensures
            result@ == (QueryStepView {
                failures: self@.failures.push(FailureCheck::Fails(failure)),
                ..self@
            }),
    {
        self.checked(FailureCheck::Fails(failure))
    }

    /// Converts this query into a step that stores an accepted response.
    pub fn into_state(self, store: A) -> (result: DslStep<A>)
        ensures
            result@ == (StepView {
                body: StepBody::Query { query: self, store: Some(store) },
                conditions: Seq::empty(),
                failures: Seq::empty(),
                optional: false,
            }),
    {
        DslStep {
            body: StepBody::Query { query: self, store: Some(store) },
            conditions: Vec::new(),
            failures: Vec::new(),
            optional: false,
        }
    }

    /// Converts this query into a step that discards an accepted response.
    pub fn discard(self) -> (result: DslStep<A>)
        ensures
            result@ == (StepView {
                body: StepBody::Query { query: self, store: None },
                conditions: Seq::empty(),
                failures: Seq::empty(),
                optional: false,
            }),
    {
        DslStep {
            body: StepBody::Query { query: self, store: None },
            conditions: Vec::new(),
            failures: Vec::new(),
            optional: false,
        }
    }

    /// Returns the query.
    pub fn request(&self) -> (result: &A)
        ensures
            *result == self@.query,
    {
        &self.query
    }

    /// Returns the conditions in the order of their evaluation.
    pub fn conditions(&self) -> (result: &[A])
        ensures
            result@ == self@.conditions,
    {
        self.conditions.as_slice()
    }

    /// Returns the response checks in the order of their evaluation.
    pub fn failures(&self) -> (result: &[FailureCheck<A>])
        ensures
            result@ == self@.failures,
    {
        self.failures.as_slice()
    }

    /// Returns the decorators of the query.
    pub fn guards(&self) -> (result: StepGuards)
        ensures
            result.conditions == self@.conditions.len(),
            result.failures == self@.failures.len(),
            result.optional == self@.optional,
    {
        StepGuards {
            conditions: self.conditions.len(),
            failures: self.failures.len(),
            optional: self.optional,
        }
    }
}

/// How far a step is from its end.
pub open spec fn guard_rank(guards: StepGuards, step: GuardStepView) -> nat {
    match step {
        GuardStepView::Condition { index } => if index < guards.conditions {
            (guards.conditions - index + guards.failures + 3) as nat
        } else {
            (guards.failures + 3) as nat
        },
        GuardStepView::Run => (guards.failures + 2) as nat,
        GuardStepView::Failure { index } => if index < guards.failures {
            (guards.failures - index + 1) as nat
        } else {
            1
        },
        GuardStepView::Keep => 0,
        GuardStepView::Finish(_) => 0,
    }
}

/// How a whole step ends, given what its callbacks return; and whether its body ran.
pub open spec fn whole_step(
    guards: StepGuards,
    conditions: spec_fn(int) -> bool,
    body: Result<(), error::ErrorView>,
    failures: spec_fn(int) -> Option<error::ErrorView>,
    step: GuardStepView,
) -> (bool, GuardStepView)
    decreases guard_rank(guards, step),
{
    match step {
        GuardStepView::Condition { index } => whole_step(
            guards,
            conditions,
            body,
            failures,
            guards.after_condition(index as int, conditions(index as int)),
        ),
        GuardStepView::Run => {
            let (_, end) = whole_step(guards, conditions, body, failures, guards.after_body(body));
            (true, end)
        },
        GuardStepView::Failure { index } => whole_step(
            guards,
            conditions,
            body,
            failures,
            guards.after_failure(index as int, failures(index as int)),
        ),
        other => (false, other),
    }
}

proof fn lemma_failures_decide(
    guards: StepGuards,
    conditions: spec_fn(int) -> bool,
    body: Result<(), error::ErrorView>,
    failures: spec_fn(int) -> Option<error::ErrorView>,
    index: int,
)
    requires
        0 <= index <= guards.failures,
    ensures
        ({
            let (_, end) = whole_step(guards, conditions, body, failures, guards.at_failure(index));
            &&& (forall|i: int|
                index <= i < guards.failures ==> #[trigger] failures(i) is None) ==> end
                == GuardStepView::Keep
            &&& forall|first: int|
                index <= first < guards.failures && #[trigger] failures(first) is Some && (forall|
                    i: int,
                |
                    index <= i < first ==> #[trigger] failures(i) is None) ==> end
                    == GuardStepView::Finish(Err(failures(first)->0))
        }),
    decreases guards.failures - index,
{
    if index < guards.failures {
        if failures(index) is None {
            lemma_failures_decide(guards, conditions, body, failures, index + 1);
        } else {
            let step = guards.after_failure(index, failures(index));
            assert(whole_step(guards, conditions, body, failures, step).1 == step);
        }
    }
}

pub(crate) proof fn lemma_conditions_decide(
    guards: StepGuards,
    conditions: spec_fn(int) -> bool,
    body: Result<(), error::ErrorView>,
    failures: spec_fn(int) -> Option<error::ErrorView>,
    index: int,
)
    requires
        0 <= index <= guards.conditions,
    ensures
        (forall|i: int| index <= i < guards.conditions ==> #[trigger] conditions(i)) ==> whole_step(
            guards,
            conditions,
            body,
            failures,
            guards.at_condition(index),
        ) == whole_step(guards, conditions, body, failures, GuardStepView::Run),
        (exists|i: int| index <= i < guards.conditions && !#[trigger] conditions(i)) ==> whole_step(
            guards,
            conditions,
            body,
            failures,
            guards.at_condition(index),
        ) == (false, GuardStepView::Finish(Ok(()))),
    decreases guards.conditions - index,
{
    if index < guards.conditions {
        if conditions(index) {
            lemma_conditions_decide(guards, conditions, body, failures, index + 1);
        } else {
            let step = GuardStepView::Finish(Ok(()));
            assert(whole_step(guards, conditions, body, failures, step) == (false, step));
        }
    }
}

/// A step runs exactly where all its conditions hold; a response is kept exactly where, in
/// addition, the query succeeds and no check fails; the first failing check is what a rejected
/// response returns.
pub proof fn lemma_step_keeps_only_accepted_results(
    guards: StepGuards,
    conditions: spec_fn(int) -> bool,
    body: Result<(), error::ErrorView>,
    failures: spec_fn(int) -> Option<error::ErrorView>,
)
    ensures
        ({
            let (ran, end) = whole_step(
                guards,
                conditions,
                body,
                failures,
                guards.at_condition(0),
            );
            let permitted = forall|i: int|
                0 <= i < guards.conditions ==> #[trigger] conditions(i);
            let passed = forall|i: int|
                0 <= i < guards.failures ==> #[trigger] failures(i) is None;
            &&& ran == permitted
            &&& end == GuardStepView::Keep <==> permitted && body is Ok && passed
            &&& permitted && body is Ok ==> forall|first: int|
                0 <= first < guards.failures && #[trigger] failures(first) is Some && (forall|
                    i: int,
                |
                    0 <= i < first ==> #[trigger] failures(i) is None) ==> end
                    == GuardStepView::Finish(Err(failures(first)->0))
        }),
{
    lemma_conditions_decide(guards, conditions, body, failures, 0);
    lemma_failures_decide(guards, conditions, body, failures, 0);
    let after = guards.after_body(body);
    if body is Err {
        assert(whole_step(guards, conditions, body, failures, after) == (false, after));
    } else {
        let passed = forall|i: int| 0 <= i < guards.failures ==> #[trigger] failures(i) is None;
        if !passed {
            let some = choose|i: int| 0 <= i < guards.failures && #[trigger] failures(i) is Some;
            lemma_first_failing(failures, some);
        }
    }
}

proof fn lemma_first_failing(failures: spec_fn(int) -> Option<error::ErrorView>, some: int) -> (first:
    int)
    requires
        0 <= some,
        failures(some) is Some,
    ensures
        0 <= first <= some,
        failures(first) is Some,
        forall|i: int| 0 <= i < first ==> #[trigger] failures(i) is None,
    decreases some,
{
    if exists|i: int| 0 <= i < some && #[trigger] failures(i) is Some {
        let earlier = choose|i: int| 0 <= i < some && #[trigger] failures(i) is Some;
        lemma_first_failing(failures, earlier)
    } else {
        some
    }
}

} // verus!
