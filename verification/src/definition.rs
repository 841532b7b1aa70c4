//! Ordered durable step definitions and the outcomes of their steps.

use vstd::prelude::*;

use crate::error;
use crate::error::{clone_text_option, CatgaError, CatgaResult, ErrorCode};
use crate::search;
use crate::suspension;
use crate::suspension::WaitCondition;
use crate::time::{Duration, Timestamp};

verus! {

/// The outcome returned by one registered durable flow step.
#[derive(Debug)]
pub enum FlowStepOutcome {
    /// Continue with the following registered step.
    Advance,
    /// Persist and execute the specified registered step.
    Goto(String),
    /// Persist the next step until this instant.
    SuspendUntil(Timestamp),
    /// Persist the next step until a wait condition is complete.
    Wait(WaitCondition),
    /// Mark the flow successfully completed.
    Complete,
    /// Mark the flow failed with this business error.
    Fail(CatgaError),
}

/// Mathematical model of a [`FlowStepOutcome`].
pub enum OutcomeView {
    Advance,
    Goto(Seq<char>),
    SuspendUntil(int),
    Wait(suspension::WaitView),
    Complete,
    Fail(error::ErrorView),
}

impl View for FlowStepOutcome {
    type V = OutcomeView;

    open spec fn view(&self) -> OutcomeView {
        match *self {
            FlowStepOutcome::Advance => OutcomeView::Advance,
            FlowStepOutcome::Goto(step_name) => OutcomeView::Goto(step_name@),
            FlowStepOutcome::SuspendUntil(resume_at) => OutcomeView::SuspendUntil(resume_at@),
            FlowStepOutcome::Wait(condition) => OutcomeView::Wait(condition@),
            FlowStepOutcome::Complete => OutcomeView::Complete,
            FlowStepOutcome::Fail(failure) => OutcomeView::Fail(failure@),
        }
    }
}

/// What a delay asks for.
pub open spec fn delay_outcome(duration: int, now: int) -> Result<OutcomeView, error::ErrorView> {
    if duration == 0 {
        Ok(OutcomeView::Advance)
    } else if crate::time::valid_timestamp(now + duration) {
        Ok(OutcomeView::SuspendUntil(now + duration))
    } else {
        Err(error::validation("flow delay exceeds the supported system time range"@))
    }
}

impl FlowStepOutcome {
    /// Creates a durable transition to a named registered step.
    pub fn goto(step_name: &str) -> (result: Self)
        ensures
            result@ == OutcomeView::Goto(step_name@),
    {
        FlowStepOutcome::Goto(step_name.to_owned())
    }

    /// Creates an absolute, durable scheduled-resume outcome.
    pub fn suspend_until(resume_at: Timestamp) -> (result: Self)
        ensures
            result@ == OutcomeView::SuspendUntil(resume_at@),
    {
        FlowStepOutcome::SuspendUntil(resume_at)
    }

    /// Creates a durable suspension that ends `duration` after `now`.
    ///
    /// A zero duration advances immediately, without a durable write or a scheduler operation.
    pub fn delay(duration: Duration, now: Timestamp) -> (result: CatgaResult<Self>)
        ensures
            match (delay_outcome(duration@, now@), result) {
                (Ok(expected), Ok(outcome)) => outcome@ == expected,
                (Err(expected), Err(failure)) => failure@ == expected,
                _ => false,
            },
    {
        if duration.is_zero() {
            return Ok(FlowStepOutcome::Advance);
        }
        match now.checked_add(duration) {
            Some(resume_at) => Ok(FlowStepOutcome::SuspendUntil(resume_at)),
            None => Err(
                CatgaError::new(
                    ErrorCode::Validation,
                    "flow delay exceeds the supported system time range",
                ),
            ),
        }
    }

    /// Creates a successful terminal outcome.
    pub fn complete() -> (result: Self)
        ensures
            result@ == OutcomeView::Complete,
    {
        FlowStepOutcome::Complete
    }

    /// Creates an external-result wait outcome.
    pub fn wait(condition: WaitCondition) -> (result: Self)
        ensures
            result@ == OutcomeView::Wait(condition@),
    {
        FlowStepOutcome::Wait(condition)
    }
}

/// One registered step: its name, its policy tag and whether it can be rolled back.
#[derive(Debug)]
pub struct RegisteredStep {
    name: String,
    tag: Option<String>,
    compensable: bool,
}

/// Mathematical model of a [`RegisteredStep`].
pub struct StepView {
    pub name: Seq<char>,
    pub tag: Option<Seq<char>>,
    pub compensable: bool,
}

impl View for RegisteredStep {
    type V = StepView;

    closed spec fn view(&self) -> StepView {
        StepView {
            name: self.name@,
            tag: error::text_option(self.tag),
            compensable: self.compensable,
        }
    }
}

impl DeepView for RegisteredStep {
    type V = StepView;

    open spec fn deep_view(&self) -> StepView {
        self@
    }
}

/// An ordered registry of durable steps; the handler of a step has the same place as the step.
#[derive(Debug)]
pub struct FlowDefinition {
    name: String,
    steps: Vec<RegisteredStep>,
}

/// Mathematical model of a [`FlowDefinition`].
pub struct DefinitionView {
    pub name: Seq<char>,
    pub steps: Seq<StepView>,
}

impl View for FlowDefinition {
    type V = DefinitionView;

    closed spec fn view(&self) -> DefinitionView {
        DefinitionView { name: self.name@, steps: self.steps.deep_view() }
    }
}

impl Clone for RegisteredStep {
    fn clone(&self) -> (result: Self)
        ensures
            result@ == self@,
    {
        RegisteredStep {
            name: self.name.clone(),
            tag: clone_text_option(&self.tag),
            compensable: self.compensable,
        }
    }
}

impl Clone for FlowDefinition {
    fn clone(&self) -> (result: Self)
        ensures
            result@ == self@,
    {
        let mut steps: Vec<RegisteredStep> = Vec::new();
        let mut index: usize = 0;
        while index < self.steps.len()
            invariant
                index <= self.steps@.len(),
                steps@.len() == index,
                forall|i: int| 0 <= i < index ==> (#[trigger] steps@[i])@ == self.steps@[i]@,
            decreases self.steps@.len() - index,
        {
            steps.push(self.steps[index].clone());
            index = index + 1;
        }
        assert(steps.deep_view() =~= self.steps.deep_view());
        FlowDefinition { name: self.name.clone(), steps }
    }
}

impl DefinitionView {
    pub open spec fn named(name: Seq<char>) -> spec_fn(StepView) -> bool {
        |step: StepView| step.name == name
    }

    /// The place of the first step with a name.
    pub open spec fn place(self, name: Seq<char>) -> Option<int> {
        search::first_where(self.steps, Self::named(name))
    }

    pub open spec fn first_step_name(self) -> Option<Seq<char>> {
        if self.steps.len() > 0 {
            Some(self.steps[0].name)
        } else {
            None
        }
    }

    /// The name of the step registered after the first step with a name.
    pub open spec fn next_step_name(self, name: Seq<char>) -> Option<Seq<char>> {
        match self.place(name) {
            Some(index) => if self.steps.len() - index > 1 {
                Some(self.steps[index + 1].name)
            } else {
                None
            },
            None => None,
        }
    }

    pub open spec fn has_step(self, name: Seq<char>) -> bool {
        self.place(name) is Some
    }

    pub open spec fn step_tag(self, name: Seq<char>) -> Option<Seq<char>> {
        match self.place(name) {
            Some(index) => self.steps[index].tag,
            None => None,
        }
    }

    pub open spec fn has_compensation(self, name: Seq<char>) -> bool {
        match self.place(name) {
            Some(index) => self.steps[index].compensable,
            None => false,
        }
    }
}

impl FlowDefinition {
    /// Creates an empty named flow definition.
    pub fn new(name: &str) -> (result: Self)
        ensures
            result@ == (DefinitionView { name: name@, steps: Seq::empty() }),
    {
        let steps: Vec<RegisteredStep> = Vec::new();
        assert(steps.deep_view() =~= Seq::empty());
        FlowDefinition { name: name.to_owned(), steps }
    }

    fn with_step(self, step: RegisteredStep) -> (result: Self)
        ensures
            result@ == (DefinitionView { steps: self@.steps.push(step@), ..self@ }),
    {
        let ghost before = self.steps.deep_view();
        let mut steps: Vec<RegisteredStep> = self.steps;
        steps.push(step);
        assert(steps.deep_view() =~= before.push(step@));
        FlowDefinition { name: self.name, steps }
    }

    /// Registers one named step.
    pub fn step(self, name: &str) -> (result: Self)
        ensures
            result@ == (DefinitionView {
                steps: self@.steps.push(
                    StepView { name: name@, tag: None, compensable: false },
                ),
                ..self@
            }),
    {
        self.with_step(RegisteredStep { name: name.to_owned(), tag: None, compensable: false })
    }

    /// Registers one named durable step with a static policy tag.
    pub fn step_with_tag(self, name: &str, tag: &str) -> (result: Self)
        ensures
            result@ == (DefinitionView {
                steps: self@.steps.push(
                    StepView { name: name@, tag: Some(tag@), compensable: false },
                ),
                ..self@
            }),
    {
        self.with_step(
            RegisteredStep { name: name.to_owned(), tag: Some(tag.to_owned()), compensable: false },
        )
    }

    /// Registers one named step that a later failure rolls back.
    pub fn step_with_compensation(self, name: &str) -> (result: Self)
        ensures
            result@ == (DefinitionView {
                steps: self@.steps.push(StepView { name: name@, tag: None, compensable: true }),
                ..self@
            }),
    {
        self.with_step(RegisteredStep { name: name.to_owned(), tag: None, compensable: true })
    }

    /// Returns the registered durable flow type.
    pub fn name(&self) -> (result: &str)
        ensures
            result@ == self@.name,
    {
        self.name.as_str()
    }

    /// Returns the first registered step.
    pub fn first_step_name(&self) -> (result: Option<&str>)
        ensures
            match (result, self@.first_step_name()) {
                (Some(name), Some(model)) => name@ == model,
                (None, None) => true,
                _ => false,
            },
    {
        if self.steps.len() > 0 {
            Some(self.steps[0].name.as_str())
        } else {
            None
        }
    }

    fn place(&self, name: &str) -> (result: Option<usize>)
        ensures
            match (result, self@.place(name@)) {
                (Some(index), Some(place)) => index == place && index < self.steps@.len()
                    && self@.steps == self.steps.deep_view(),
                (None, None) => true,
                _ => false,
            },
    {
        let wanted: String = name.to_owned();
        let ghost named = DefinitionView::named(name@);
        let mut index: usize = 0;
        while index < self.steps.len()
            invariant
                index <= self.steps@.len(),
                wanted@ == name@,
                named == DefinitionView::named(name@),
                self@.steps == self.steps.deep_view(),
                forall|i: int| 0 <= i < index ==> !named(#[trigger] self@.steps[i]),
            decreases self.steps@.len() - index,
        {
            if self.steps[index].name == wanted {
                proof {
                    assert(named(self@.steps[index as int]));
                    search::lemma_first(self@.steps, named, Some(index as int));
                }
                return Some(index);
            }
            assert(!named(self@.steps[index as int]));
            index = index + 1;
        }
        proof {
            search::lemma_first(self@.steps, named, None);
        }
        None
    }

    /// Returns the step registered after `name`.
    pub fn next_step_name(&self, name: &str) -> (result: Option<&str>)
        ensures
            match (result, self@.next_step_name(name@)) {
                (Some(next), Some(model)) => next@ == model,
                (None, None) => true,
                _ => false,
            },
    {
        match self.place(name) {
            Some(index) => if self.steps.len() - index > 1 {
                Some(self.steps[index + 1].name.as_str())
            } else {
                None
            },
            None => None,
        }
    }

    /// Returns whether a step with `name` is registered.
    pub fn has_step(&self, name: &str) -> (result: bool)
        ensures
            result == self@.has_step(name@),
    {
        self.place(name).is_some()
    }

    /// Returns the policy tag of `name`.
    pub fn step_tag(&self, name: &str) -> (result: Option<&str>)
        ensures
            match (result, self@.step_tag(name@)) {
                (Some(tag), Some(model)) => tag@ == model,
                (None, None) => true,
                _ => false,
            },
    {
        match self.place(name) {
            Some(index) => match &self.steps[index].tag {
                Some(tag) => Some(tag.as_str()),
                None => None,
            },
            None => None,
        }
    }

    /// Returns whether a later failure rolls `name` back.
    pub fn has_compensation(&self, name: &str) -> (result: bool)
        ensures
            result == self@.has_compensation(name@),
    {
        match self.place(name) {
            Some(index) => self.steps[index].compensable,
            None => false,
        }
    }

    /// Returns the place of the handler that executes `name`.
    pub fn handler_index(&self, name: &str) -> (result: CatgaResult<usize>)
        ensures
            match (result, self@.place(name@)) {
                (Ok(index), Some(place)) => index == place,
                (Err(failure), None) => failure@ == error::plain_error(
                    ErrorCode::NotFound,
                    "flow continuation references an unregistered step"@,
                ),
                _ => false,
            },
    {
        match self.place(name) {
            Some(index) => Ok(index),
            None => Err(
                CatgaError::new(
                    ErrorCode::NotFound,
                    "flow continuation references an unregistered step",
                ),
            ),
        }
    }
}

/// A delay ends as long after now as it lasts; a delay of no length goes on at once, and one that ends
/// outside the supported times is refused.
pub proof fn lemma_delays_last_as_long_as_asked(duration: int, now: int)
    requires
        duration >= 0,
        crate::time::valid_timestamp(now),
    ensures
        delay_outcome(0, now) == Ok::<OutcomeView, error::ErrorView>(OutcomeView::Advance),
        delay_outcome(duration, now) matches Ok(OutcomeView::SuspendUntil(resume_at)) ==> duration
            > 0 && resume_at - now == duration,
        duration > 0 && now + duration <= crate::time::max_timestamp_nanos() ==> delay_outcome(
            duration,
            now,
        ) is Ok && delay_outcome(duration, now)->Ok_0 is SuspendUntil,
        now + duration > crate::time::max_timestamp_nanos() ==> delay_outcome(duration, now) is Err,
{
}

/// The steps of a definition follow each other in the order of their registration: the first is the
/// first registered, and behind each stands the next, behind the last none. A name stands for the step
/// that was registered first under it.
pub proof fn lemma_steps_follow_in_the_order_of_registration(
    definition: DefinitionView,
    name: Seq<char>,
    place: int,
)
    requires
        0 <= place < definition.steps.len(),
        definition.steps[place].name == name,
        forall|i: int| 0 <= i < place ==> (#[trigger] definition.steps[i]).name != name,
    ensures
        definition.first_step_name() == Some(definition.steps[0].name),
        place + 1 < definition.steps.len() ==> definition.next_step_name(name) == Some(
            definition.steps[place + 1].name,
        ),
        place + 1 == definition.steps.len() ==> definition.next_step_name(name) is None,
        definition.has_step(name),
        definition.step_tag(name) == definition.steps[place].tag,
        definition.has_compensation(name) == definition.steps[place].compensable,
{
    let named = DefinitionView::named(name);
    assert forall|i: int| 0 <= i < place implies !#[trigger] named(definition.steps[i]) by {
        assert(definition.steps[i].name != name);
    }
    search::lemma_first(definition.steps, named, Some(place));
}

} // verus!
