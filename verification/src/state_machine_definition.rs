//! Read-optimized state-machine definitions and the handling of one event.
//!
//! States, event types and event categories are numbers; callbacks are opaque values of type `A`.
//! Each method takes what the last callback returned and answers with the next [`HandleStep`].

use std::collections::HashMap;

use vstd::prelude::*;

use crate::error;
use crate::error::CatgaResult;
use crate::state_machine_model;
use crate::state_machine_model::StateMachineResult;

verus! {

broadcast use vstd::std_specs::hash::group_hash_axioms;

/// What a transition reacts to.
#[derive(Clone, Copy, Debug, PartialEq, Eq, Structural)]
pub enum Trigger {
    /// Events of exactly this type.
    Event(u64),
    /// Events that declare this category.
    Category(u64),
}

/// An action, and how it is called.
#[derive(Debug)]
pub enum StateAction<A> {
    /// It returns when it is done.
    Sync(A),
    /// It returns a future, which is awaited.
    Async(A),
}

/// A reaction of a state to events.
#[derive(Debug)]
pub struct Transition<A> {
    pub trigger: Trigger,
    /// Picks the value of a category event that the guard and the action see.
    pub extractor: Option<A>,
    /// Approves the transition.
    pub guard: Option<A>,
    /// Runs before the state changes.
    pub action: Option<StateAction<A>>,
    /// The state that the transition leads to.
    pub target: Option<u64>,
}

/// The actions and transitions of one state.
#[derive(Debug)]
pub struct StateDefinition<A> {
    on_enter: Option<StateAction<A>>,
    on_exit: Option<StateAction<A>>,
    transitions: Vec<Transition<A>>,
}

/// Mathematical model of a [`StateDefinition`].
pub struct StateView<A> {
    pub on_enter: Option<StateAction<A>>,
    pub on_exit: Option<StateAction<A>>,
    pub transitions: Seq<Transition<A>>,
}

impl<A> View for StateDefinition<A> {
    type V = StateView<A>;

    closed spec fn view(&self) -> StateView<A> {
        StateView {
            on_enter: self.on_enter,
            on_exit: self.on_exit,
            transitions: self.transitions@,
        }
    }
}

/// Creates instances that an event starts.
#[derive(Debug)]
pub struct InitialFactory<A> {
    pub event: u64,
    pub initial_state: u64,
    pub factory: A,
}

/// How a missing instance is created.
#[derive(Debug)]
pub enum InitialState<'a, A> {
    /// The factory of the event creates it, in this state.
    FromEvent { factory: &'a A, initial_state: u64 },
    /// The default factory creates it, in this state.
    Default { factory: &'a A, initial_state: u64 },
    /// It stays missing.
    Missing,
}

/// A state-machine configuration.
#[derive(Debug)]
pub struct StateMachine<A> {
    initial: u64,
    states: HashMap<u64, StateDefinition<A>>,
    initial_factories: Vec<InitialFactory<A>>,
    default_initial_factory: Option<A>,
}

/// Mathematical model of a [`StateMachine`].
#[verifier::ext_equal]
pub struct MachineView<A> {
    pub initial: u64,
    pub states: Map<u64, StateView<A>>,
    pub initial_factories: Seq<InitialFactory<A>>,
    pub default_initial_factory: Option<A>,
}

impl<A> View for StateMachine<A> {
    type V = MachineView<A>;

    closed spec fn view(&self) -> MachineView<A> {
        MachineView {
            initial: self.initial,
            states: self.states@.map_values(|state: StateDefinition<A>| state@),
            initial_factories: self.initial_factories@,
            default_initial_factory: self.default_initial_factory,
        }
    }
}

pub open spec fn other_event<A>(event: u64) -> spec_fn(InitialFactory<A>) -> bool {
    |factory: InitialFactory<A>| factory.event != event
}

impl<A> MachineView<A> {
    /// The actions and transitions of a state; one that was not configured has none.
    pub open spec fn state(self, state: u64) -> StateView<A> {
        if self.states.contains_key(state) {
            self.states[state]
        } else {
            StateView { on_enter: None, on_exit: None, transitions: Seq::empty() }
        }
    }

    /// The machine with another definition of a state.
    pub open spec fn with_state(self, state: u64, definition: StateView<A>) -> Self {
        MachineView { states: self.states.insert(state, definition), ..self }
    }

    /// The machine with a factory for an event, in place of the one that it had.
    pub open spec fn with_factory(self, factory: InitialFactory<A>) -> Self {
        MachineView {
            initial_factories: self.initial_factories.filter(other_event(factory.event)).push(
                factory,
            ),
            ..self
        }
    }
}

/// Startup-only builder for a [`StateMachine`].
#[derive(Debug)]
pub struct StateMachineBuilder<A> {
    machine: StateMachine<A>,
}

impl<A> View for StateMachineBuilder<A> {
    type V = MachineView<A>;

    closed spec fn view(&self) -> MachineView<A> {
        self.machine@
    }
}

/// Startup-only builder for one state.
#[derive(Debug)]
pub struct StateDefinitionBuilder<A> {
    builder: StateMachineBuilder<A>,
    state: u64,
    definition: StateDefinition<A>,
}

/// Mathematical model of a [`StateDefinitionBuilder`].
pub struct StateBuilderView<A> {
    pub machine: MachineView<A>,
    pub state: u64,
    pub definition: StateView<A>,
}

impl<A> View for StateDefinitionBuilder<A> {
    type V = StateBuilderView<A>;

    closed spec fn view(&self) -> StateBuilderView<A> {
        StateBuilderView {
            machine: self.builder@,
            state: self.state,
            definition: self.definition@,
        }
    }
}

/// Startup-only builder for one transition.
#[derive(Debug)]
pub struct EventTransitionBuilder<A> {
    builder: StateDefinitionBuilder<A>,
    transition: Transition<A>,
}

/// Startup-only builder for one transition of a category.
#[derive(Debug)]
pub struct CategoryTransitionBuilder<A> {
    inner: EventTransitionBuilder<A>,
}

/// Mathematical model of an [`EventTransitionBuilder`] or a [`CategoryTransitionBuilder`].
pub struct TransitionBuilderView<A> {
    pub builder: StateBuilderView<A>,
    pub transition: Transition<A>,
}

impl<A> View for EventTransitionBuilder<A> {
    type V = TransitionBuilderView<A>;

    closed spec fn view(&self) -> TransitionBuilderView<A> {
        TransitionBuilderView { builder: self.builder@, transition: self.transition }
    }
}

impl<A> View for CategoryTransitionBuilder<A> {
    type V = TransitionBuilderView<A>;

    closed spec fn view(&self) -> TransitionBuilderView<A> {
        self.inner@
    }
}

impl<A> StateMachineBuilder<A> {
    /// Configures one state, creating it when necessary.
    pub fn state(self, state: u64) -> (result: StateDefinitionBuilder<A>)
        ensures
            result@.machine.initial == self@.initial,
            result@.machine.initial_factories == self@.initial_factories,
            result@.machine.default_initial_factory == self@.default_initial_factory,
            result@.machine.states == self@.states.remove(state),
            result@.state == state,
            result@.definition == self@.state(state),
    {
        let ghost before = self@;
        let mut states: HashMap<u64, StateDefinition<A>> = self.machine.states;
        let ghost old_states = states@;
        let definition: StateDefinition<A> = match states.remove(&state) {
            Some(definition) => definition,
            None => StateDefinition { on_enter: None, on_exit: None, transitions: Vec::new() },
        };
        let builder = StateMachineBuilder {
            machine: StateMachine {
                initial: self.machine.initial,
                states,
                initial_factories: self.machine.initial_factories,
                default_initial_factory: self.machine.default_initial_factory,
            },
        };
        assert(builder@.states =~= before.states.remove(state));
        assert(definition@.transitions =~= before.state(state).transitions);
        StateDefinitionBuilder { builder, state, definition }
    }

    /// Allows an event to create a missing instance in the supplied starting state.
    ///
    /// Registering an event again replaces its factory.
    pub fn starts_with(self, event: u64, initial_state: u64, factory: A) -> (result: Self)
        ensures
            result@ == self@.with_factory(InitialFactory { event, initial_state, factory }),
    {
        let ghost before = self@;
        let ghost other = other_event::<A>(event);
        let mut remaining: Vec<InitialFactory<A>> = self.machine.initial_factories;
        let ghost all = remaining@;
        let mut kept: Vec<InitialFactory<A>> = Vec::new();
        let ghost mut seen: int = 0;
        proof {
            assert(all.skip(0) =~= all);
            reveal(Seq::filter);
            assert(all.take(0).filter(other) =~= Seq::empty());
        }
        while remaining.len() > 0
            invariant
                0 <= seen <= all.len(),
                remaining@ == all.skip(seen),
                other == other_event::<A>(event),
                kept@ == all.take(seen).filter(other),
            decreases remaining@.len(),
        {
            let existing: InitialFactory<A> = remaining.remove(0);
            proof {
                let longer = all.take(seen + 1);
                assert(longer.drop_last() =~= all.take(seen));
                assert(longer.last() == existing);
                assert(remaining@ =~= all.skip(seen + 1));
                reveal(Seq::filter);
                seen = seen + 1;
            }
            if existing.event != event {
                kept.push(existing);
            }
        }
        assert(all.take(seen) =~= all);
        kept.push(InitialFactory { event, initial_state, factory });
        let result = StateMachineBuilder {
            machine: StateMachine {
                initial: self.machine.initial,
                states: self.machine.states,
                initial_factories: kept,
                default_initial_factory: self.machine.default_initial_factory,
            },
        };
        assert(result@ =~= before.with_factory(InitialFactory { event, initial_state, factory }));
        result
    }

    /// Allows an event to create a missing instance from this machine's default initial state.
    pub fn create_instance_from(self, event: u64, factory: A) -> (result: Self)
        ensures
            result@ == self@.with_factory(
                InitialFactory { event, initial_state: self@.initial, factory },
            ),
    {
        let initial: u64 = self.machine.initial;
        self.starts_with(event, initial, factory)
    }

    /// Enables lazy creation when no factory of the event matches.
    pub fn default_initial_state(self, factory: A) -> (result: Self)
        ensures
            result@ == (MachineView { default_initial_factory: Some(factory), ..self@ }),
    {
        StateMachineBuilder {
            machine: StateMachine {
                initial: self.machine.initial,
                states: self.machine.states,
                initial_factories: self.machine.initial_factories,
                default_initial_factory: Some(factory),
            },
        }
    }

    /// Freezes the definitions into a state machine.
    pub fn build(self) -> (result: StateMachine<A>)
        ensures
            result@ == self@,
    {
        self.machine
    }
}

impl<A> StateDefinitionBuilder<A> {
    /// Registers a synchronous entry action.
    pub fn on_enter(self, action: A) -> (result: Self)
        ensures
            result@ == (StateBuilderView {
                definition: StateView { on_enter: Some(StateAction::Sync(action)), ..self@.definition },
                ..self@
            }),
    {
        StateDefinitionBuilder {
            builder: self.builder,
            state: self.state,
            definition: StateDefinition {
                on_enter: Some(StateAction::Sync(action)),
                on_exit: self.definition.on_exit,
                transitions: self.definition.transitions,
            },
        }
    }

    /// Registers an asynchronous entry action.
    pub fn on_enter_async(self, action: A) -> (result: Self)
        ensures
            result@ == (StateBuilderView {
                definition: StateView { on_enter: Some(StateAction::Async(action)), ..self@.definition },
                ..self@
            }),
    {
        StateDefinitionBuilder {
            builder: self.builder,
            state: self.state,
            definition: StateDefinition {
                on_enter: Some(StateAction::Async(action)),
                on_exit: self.definition.on_exit,
                transitions: self.definition.transitions,
            },
        }
    }

    /// Registers a synchronous exit action.
    pub fn on_exit(self, action: A) -> (result: Self)
        ensures
            result@ == (StateBuilderView {
                definition: StateView { on_exit: Some(StateAction::Sync(action)), ..self@.definition },
                ..self@
            }),
    {
        StateDefinitionBuilder {
            builder: self.builder,
            state: self.state,
            definition: StateDefinition {
                on_enter: self.definition.on_enter,
                on_exit: Some(StateAction::Sync(action)),
                transitions: self.definition.transitions,
            },
        }
    }

    /// Registers an asynchronous exit action.
    pub fn on_exit_async(self, action: A) -> (result: Self)
        ensures
            result@ == (StateBuilderView {
                definition: StateView { on_exit: Some(StateAction::Async(action)), ..self@.definition },
                ..self@
            }),
    {
        StateDefinitionBuilder {
            builder: self.builder,
            state: self.state,
            definition: StateDefinition {
                on_enter: self.definition.on_enter,
                on_exit: Some(StateAction::Async(action)),
                transitions: self.definition.transitions,
            },
        }
    }

    /// Starts configuring a transition for events of a type.
    pub fn on(self, event: u64) -> (result: EventTransitionBuilder<A>)
        ensures
            result@ == (TransitionBuilderView {
                builder: self@,
                transition: Transition {
                    trigger: Trigger::Event(event),
                    extractor: None,
                    guard: None,
                    action: None,
                    target: None,
                },
            }),
    {
        EventTransitionBuilder {
            builder: self,
            transition: Transition {
                trigger: Trigger::Event(event),
                extractor: None,
                guard: None,
                action: None,
                target: None,
            },
        }
    }

    /// Starts configuring a transition for events that declare a category.
    pub fn on_category(self, category: u64, extractor: A) -> (result:
        CategoryTransitionBuilder<A>)
        ensures
            result@ == (TransitionBuilderView {
                builder: self@,
                transition: Transition {
                    trigger: Trigger::Category(category),
                    extractor: Some(extractor),
                    guard: None,
                    action: None,
                    target: None,
                },
            }),
    {
        CategoryTransitionBuilder {
            inner: EventTransitionBuilder {
                builder: self,
                transition: Transition {
                    trigger: Trigger::Category(category),
                    extractor: Some(extractor),
                    guard: None,
                    action: None,
                    target: None,
                },
            },
        }
    }

    /// Commits this state and returns to the machine.
    pub fn done(self) -> (result: StateMachineBuilder<A>)
        ensures
            result@ == self@.machine.with_state(self@.state, self@.definition),
    {
        let ghost model = self@;
        let mut states: HashMap<u64, StateDefinition<A>> = self.builder.machine.states;
        states.insert(self.state, self.definition);
        let result = StateMachineBuilder {
            machine: StateMachine {
                initial: self.builder.machine.initial,
                states,
                initial_factories: self.builder.machine.initial_factories,
                default_initial_factory: self.builder.machine.default_initial_factory,
            },
        };
        assert(result@ =~= model.machine.with_state(model.state, model.definition));
        result
    }
}

impl<A> EventTransitionBuilder<A> {
    /// Requires a guard to approve the transition.
    pub fn when(self, guard: A) -> (result: Self)
        ensures
            result@ == (TransitionBuilderView {
                transition: Transition { guard: Some(guard), ..self@.transition },
                ..self@
            }),
    {
        EventTransitionBuilder {
            builder: self.builder,
            transition: Transition { guard: Some(guard), ..self.transition },
        }
    }

    /// Registers a synchronous transition action.
    pub fn execute(self, action: A) -> (result: Self)
        ensures
            result@ == (TransitionBuilderView {
                transition: Transition { action: Some(StateAction::Sync(action)), ..self@.transition },
                ..self@
            }),
    {
        EventTransitionBuilder {
            builder: self.builder,
            transition: Transition { action: Some(StateAction::Sync(action)), ..self.transition },
        }
    }

    /// Registers an asynchronous transition action.
    pub fn execute_async(self, action: A) -> (result: Self)
        ensures
            result@ == (TransitionBuilderView {
                transition: Transition { action: Some(StateAction::Async(action)), ..self@.transition },
                ..self@
            }),
    {
        EventTransitionBuilder {
            builder: self.builder,
            transition: Transition { action: Some(StateAction::Async(action)), ..self.transition },
        }
    }

    /// Commits the transition, which changes the state after its action succeeds.
    pub fn transition_to(self, target: u64) -> (result: StateDefinitionBuilder<A>)
        ensures
            result@ == (StateBuilderView {
                definition: StateView {
                    transitions: self@.builder.definition.transitions.push(
                        Transition { target: Some(target), ..self@.transition },
                    ),
                    ..self@.builder.definition
                },
                ..self@.builder
            }),
    {
        EventTransitionBuilder {
            builder: self.builder,
            transition: Transition { target: Some(target), ..self.transition },
        }.finish()
    }

    /// Commits the transition and returns to its state.
    pub fn finish(self) -> (result: StateDefinitionBuilder<A>)
        ensures
            result@ == (StateBuilderView {
                definition: StateView {
                    transitions: self@.builder.definition.transitions.push(self@.transition),
                    ..self@.builder.definition
                },
                ..self@.builder
            }),
    {
        let mut transitions: Vec<Transition<A>> = self.builder.definition.transitions;
        transitions.push(self.transition);
        StateDefinitionBuilder {
            builder: self.builder.builder,
            state: self.builder.state,
            definition: StateDefinition {
                on_enter: self.builder.definition.on_enter,
                on_exit: self.builder.definition.on_exit,
                transitions,
            },
        }
    }

    /// Alias for [`Self::finish`] that reads naturally after a transition.
    pub fn and(self) -> (result: StateDefinitionBuilder<A>)
        ensures
            result@ == (StateBuilderView {
                definition: StateView {
                    transitions: self@.builder.definition.transitions.push(self@.transition),
                    ..self@.builder.definition
                },
                ..self@.builder
            }),
    {
        self.finish()
    }
}

impl<A> CategoryTransitionBuilder<A> {
    /// Requires a guard to approve the value of the category.
    pub fn when(self, guard: A) -> (result: Self)
        ensures
            result@ == (TransitionBuilderView {
                transition: Transition { guard: Some(guard), ..self@.transition },
                ..self@
            }),
    {
        CategoryTransitionBuilder { inner: self.inner.when(guard) }
    }

    /// Registers a synchronous transition action.
    pub fn execute(self, action: A) -> (result: Self)
        ensures
            result@ == (TransitionBuilderView {
                transition: Transition { action: Some(StateAction::Sync(action)), ..self@.transition },
                ..self@
            }),
    {
        CategoryTransitionBuilder { inner: self.inner.execute(action) }
    }

    /// Registers an asynchronous transition action.
    pub fn execute_async(self, action: A) -> (result: Self)
        ensures
            result@ == (TransitionBuilderView {
                transition: Transition { action: Some(StateAction::Async(action)), ..self@.transition },
                ..self@
            }),
    {
        CategoryTransitionBuilder { inner: self.inner.execute_async(action) }
    }

    /// Commits the transition, which changes the state after its action succeeds.
    pub fn transition_to(self, target: u64) -> (result: StateDefinitionBuilder<A>)
        ensures
            result@ == (StateBuilderView {
                definition: StateView {
                    transitions: self@.builder.definition.transitions.push(
                        Transition { target: Some(target), ..self@.transition },
                    ),
                    ..self@.builder.definition
                },
                ..self@.builder
            }),
    {
        self.inner.transition_to(target)
    }

    /// Commits the transition and returns to its state.
    pub fn finish(self) -> (result: StateDefinitionBuilder<A>)
        ensures
            result@ == (StateBuilderView {
                definition: StateView {
                    transitions: self@.builder.definition.transitions.push(self@.transition),
                    ..self@.builder.definition
                },
                ..self@.builder
            }),
    {
        self.inner.finish()
    }

    /// Alias for [`Self::finish`] that reads naturally after a transition.
    pub fn and(self) -> (result: StateDefinitionBuilder<A>)
        ensures
            result@ == (StateBuilderView {
                definition: StateView {
                    transitions: self@.builder.definition.transitions.push(self@.transition),
                    ..self@.builder.definition
                },
                ..self@.builder
            }),
    {
        self.inner.and()
    }
}

/// Whether a transition reacts to events of a type with some categories.
pub open spec fn reacts<A>(transition: Transition<A>, event: u64, categories: Seq<u64>) -> bool {
    match transition.trigger {
        Trigger::Event(expected) => expected == event,
        Trigger::Category(category) => categories.contains(category),
    }
}

/// Whether a transition is considered among those for exact types, or among the others.
pub open spec fn is_candidate<A>(
    transition: Transition<A>,
    exact: bool,
    event: u64,
    categories: Seq<u64>,
) -> bool {
    (transition.trigger is Event) == exact && reacts(transition, event, categories)
}

/// How many kinds of transitions are still to be considered after the current kind.
pub open spec fn passes(exact: bool) -> int {
    if exact {
        1
    } else {
        0
    }
}

/// The next transition to consider: those for exact types come first, each kind in the order of
/// registration.
pub open spec fn next_candidate<A>(
    transitions: Seq<Transition<A>>,
    event: u64,
    categories: Seq<u64>,
    exact: bool,
    from: int,
) -> Option<(bool, int)>
    decreases passes(exact), transitions.len() - from,
{
    if 0 <= from < transitions.len() {
        if is_candidate(transitions[from], exact, event, categories) {
            Some((exact, from))
        } else {
            next_candidate(transitions, event, categories, exact, from + 1)
        }
    } else if exact {
        next_candidate(transitions, event, categories, false, 0)
    } else {
        None
    }
}

/// The handling of an event by one transition.
#[derive(Clone, Copy, Debug, PartialEq, Eq, Structural)]
pub struct HandlePlan {
    /// The state in which the event was met.
    pub previous: u64,
    /// Whether the transition is for an exact type.
    pub exact: bool,
    /// The place of the transition among those of the state.
    pub transition: usize,
}

/// The next effect of handling an event.
#[derive(Debug)]
pub enum HandleStep {
    /// Ask whether the extractor and the guard of the transition, where it has them, accept the
    /// event, then call [`StateMachine::guard_evaluated`].
    CheckGuard(HandlePlan),
    /// Run the exit action of the previous state, then call [`StateMachine::exit_finished`].
    RunExit(HandlePlan),
    /// Run the action of the transition, where it has one, then call
    /// [`StateMachine::action_finished`].
    RunAction(HandlePlan),
    /// Set the state of the instance, then call [`StateMachine::state_set`].
    SetState { plan: HandlePlan, target: u64 },
    /// Run the entry action of the current state, then call [`StateMachine::enter_finished`].
    RunEnter { plan: HandlePlan, current: u64 },
    /// The handling ends with this result.
    Finish(CatgaResult<StateMachineResult<u64>>),
}

/// Mathematical model of a [`HandleStep`].
pub enum HandleStepView {
    CheckGuard(HandlePlan),
    RunExit(HandlePlan),
    RunAction(HandlePlan),
    SetState { plan: HandlePlan, target: u64 },
    RunEnter { plan: HandlePlan, current: u64 },
    Finish(Result<state_machine_model::ResultView<u64>, error::ErrorView>),
}

/// The model of the result of handling an event.
pub open spec fn handle_result(result: CatgaResult<StateMachineResult<u64>>) -> Result<
    state_machine_model::ResultView<u64>,
    error::ErrorView,
> {
    match result {
        Ok(result) => Ok(result@),
        Err(failure) => Err(failure@),
    }
}

impl View for HandleStep {
    type V = HandleStepView;

    open spec fn view(&self) -> HandleStepView {
        match *self {
            HandleStep::CheckGuard(plan) => HandleStepView::CheckGuard(plan),
            HandleStep::RunExit(plan) => HandleStepView::RunExit(plan),
            HandleStep::RunAction(plan) => HandleStepView::RunAction(plan),
            HandleStep::SetState { plan, target } => HandleStepView::SetState { plan, target },
            HandleStep::RunEnter { plan, current } => HandleStepView::RunEnter { plan, current },
            HandleStep::Finish(result) => HandleStepView::Finish(handle_result(result)),
        }
    }
}

/// The end of handling that led from one state to another.
pub open spec fn handled_step(previous: u64, current: u64, handled: bool) -> HandleStepView {
    HandleStepView::Finish(
        Ok(state_machine_model::ResultView { previous, current, handled }),
    )
}

impl<A> MachineView<A> {
    /// What is done with the transitions of a state from a place on.
    pub open spec fn consider(
        self,
        previous: u64,
        event: u64,
        categories: Seq<u64>,
        exact: bool,
        from: int,
    ) -> HandleStepView {
        match next_candidate(self.state(previous).transitions, event, categories, exact, from) {
            Some((exact, place)) => HandleStepView::CheckGuard(
                HandlePlan { previous, exact, transition: place as usize },
            ),
            None => handled_step(previous, previous, false),
        }
    }

    /// What follows the answer of a guard.
    pub open spec fn after_guard(
        self,
        plan: HandlePlan,
        event: u64,
        categories: Seq<u64>,
        result: Result<bool, error::ErrorView>,
    ) -> HandleStepView {
        match result {
            Err(failure) => HandleStepView::Finish(Err(failure)),
            Ok(true) => if self.state(plan.previous).on_exit is Some {
                HandleStepView::RunExit(plan)
            } else {
                HandleStepView::RunAction(plan)
            },
            Ok(false) => self.consider(
                plan.previous,
                event,
                categories,
                plan.exact,
                plan.transition + 1,
            ),
        }
    }

    /// What follows the exit action of the previous state.
    pub open spec fn after_exit(
        self,
        plan: HandlePlan,
        result: Result<(), error::ErrorView>,
    ) -> HandleStepView {
        match result {
            Ok(_) => HandleStepView::RunAction(plan),
            Err(failure) => HandleStepView::Finish(Err(failure)),
        }
    }

    /// What follows the entry action, which left the instance in a state.
    pub open spec fn after_enter(
        self,
        plan: HandlePlan,
        result: Result<(), error::ErrorView>,
        current: u64,
    ) -> HandleStepView {
        match result {
            Ok(_) => handled_step(plan.previous, current, true),
            Err(failure) => HandleStepView::Finish(Err(failure)),
        }
    }

    /// What follows the action of a transition that left the instance in a state.
    pub open spec fn after_action(
        self,
        plan: HandlePlan,
        result: Result<(), error::ErrorView>,
        current: u64,
    ) -> HandleStepView {
        let transitions = self.state(plan.previous).transitions;
        match result {
            Err(failure) => HandleStepView::Finish(Err(failure)),
            Ok(_) => if plan.transition < transitions.len()
                && transitions[plan.transition as int].target is Some {
                HandleStepView::SetState {
                    plan,
                    target: transitions[plan.transition as int].target->0,
                }
            } else {
                handled_step(plan.previous, current, true)
            },
        }
    }

    /// What follows the change of the state.
    pub open spec fn after_set(self, plan: HandlePlan, current: u64) -> HandleStepView {
        if self.state(current).on_enter is Some {
            HandleStepView::RunEnter { plan, current }
        } else {
            handled_step(plan.previous, current, true)
        }
    }
}

fn contains(categories: &[u64], category: u64) -> (result: bool)
    ensures
        result == categories@.contains(category),
{
    let mut index: usize = 0;
    while index < categories.len()
        invariant
            index <= categories@.len(),
            forall|i: int| 0 <= i < index ==> categories@[i] != category,
        decreases categories@.len() - index,
    {
        if categories[index] == category {
            assert(categories@[index as int] == category);
            return true;
        }
        index = index + 1;
    }
    false
}

fn considers<A>(transition: &Transition<A>, exact: bool, event: u64, categories: &[u64]) -> (result:
    bool)
    ensures
        result == is_candidate(*transition, exact, event, categories@),
{
    match transition.trigger {
        Trigger::Event(expected) => exact && expected == event,
        Trigger::Category(category) => !exact && contains(categories, category),
    }
}

impl<A> StateMachine<A> {
    /// Starts configuration with the supplied default initial state.
    pub fn builder(initial: u64) -> (result: StateMachineBuilder<A>)
        ensures
            result@ == (MachineView {
                initial,
                states: Map::<u64, StateView<A>>::empty(),
                initial_factories: Seq::<InitialFactory<A>>::empty(),
                default_initial_factory: None::<A>,
            }),
    {
        let result = StateMachineBuilder {
            machine: StateMachine {
                initial,
                states: HashMap::new(),
                initial_factories: Vec::new(),
                default_initial_factory: None,
            },
        };
        assert(result@.states =~= Map::<u64, StateView<A>>::empty());
        result
    }

    /// Returns the configured default initial state.
    pub fn initial(&self) -> (result: u64)
        ensures
            result == self@.initial,
    {
        self.initial
    }

    /// Returns the entry action of a state.
    pub fn on_enter(&self, state: u64) -> (result: Option<&StateAction<A>>)
        ensures
            match (result, self@.state(state).on_enter) {
                (Some(action), Some(expected)) => *action == expected,
                (None, None) => true,
                _ => false,
            },
    {
        match self.states.get(&state) {
            Some(definition) => match &definition.on_enter {
                Some(action) => Some(action),
                None => None,
            },
            None => None,
        }
    }

    /// Returns the exit action of a state.
    pub fn on_exit(&self, state: u64) -> (result: Option<&StateAction<A>>)
        ensures
            match (result, self@.state(state).on_exit) {
                (Some(action), Some(expected)) => *action == expected,
                (None, None) => true,
                _ => false,
            },
    {
        match self.states.get(&state) {
            Some(definition) => match &definition.on_exit {
                Some(action) => Some(action),
                None => None,
            },
            None => None,
        }
    }

    /// Returns the transition that a plan is about.
    pub fn transition(&self, plan: HandlePlan) -> (result: Option<&Transition<A>>)
        ensures
            match result {
                Some(transition) => plan.transition < usize::MAX && plan.transition < self@.state(
                    plan.previous,
                ).transitions.len() && *transition == self@.state(plan.previous).transitions[plan.transition as int],
                None => plan.transition >= self@.state(plan.previous).transitions.len(),
            },
    {
        match self.states.get(&plan.previous) {
            Some(definition) => {
                if plan.transition < definition.transitions.len() {
                    Some(&definition.transitions[plan.transition])
                } else {
                    None
                }
            },
            None => None,
        }
    }

    fn search(
        &self,
        previous: u64,
        event: u64,
        categories: &[u64],
        exact: bool,
        from: usize,
    ) -> (step: HandleStep)
        ensures
            step@ == self@.consider(previous, event, categories@, exact, from as int),
        decreases passes(exact),
    {
        let definition: &StateDefinition<A> = match self.states.get(&previous) {
            None => {
                assert(self@.state(previous).transitions.len() == 0);
                proof {
                    reveal_with_fuel(next_candidate, 2);
                }
                return HandleStep::Finish(Ok(StateMachineResult::new(previous, previous, false)));
            },
            Some(definition) => definition,
        };
        let ghost transitions = self@.state(previous).transitions;
        assert(definition.transitions@ == transitions);
        let mut place: usize = from;
        while place < definition.transitions.len()
            invariant
                from <= place,
                definition.transitions@ == transitions,
                transitions == self@.state(previous).transitions,
                next_candidate(transitions, event, categories@, exact, from as int)
                    == next_candidate(transitions, event, categories@, exact, place as int),
            decreases definition.transitions@.len() - place,
        {
            if considers(&definition.transitions[place], exact, event, categories) {
                return HandleStep::CheckGuard(HandlePlan { previous, exact, transition: place });
            }
            place = place + 1;
        }
        if exact {
            return self.search(previous, event, categories, false, 0);
        }
        HandleStep::Finish(Ok(StateMachineResult::new(previous, previous, false)))
    }

    /// Starts to handle an event of a type with some categories in a state.
    pub fn handle(&self, current: u64, event: u64, categories: &[u64]) -> (step: HandleStep)
        ensures
            step@ == self@.consider(current, event, categories@, true, 0),
    {
        self.search(current, event, categories, true, 0)
    }

    /// Goes on after the guard of a transition answered.
    pub fn guard_evaluated(
        &self,
        plan: HandlePlan,
        event: u64,
        categories: &[u64],
        result: CatgaResult<bool>,
    ) -> (step: HandleStep)
        ensures
            step@ == self@.after_guard(plan, event, categories@, error::flag_result(result)),
    {
        match result {
            Err(failure) => HandleStep::Finish(Err(failure)),
            Ok(applies) => {
                if !applies {
                    let from: usize = if self.transition(plan).is_some() {
                        plan.transition + 1
                    } else {
                        plan.transition
                    };
                    return self.search(plan.previous, event, categories, plan.exact, from);
                }
                if self.on_exit(plan.previous).is_some() {
                    HandleStep::RunExit(plan)
                } else {
                    HandleStep::RunAction(plan)
                }
            },
        }
    }

    /// Goes on after the exit action of the previous state.
    pub fn exit_finished(&self, plan: HandlePlan, result: CatgaResult<()>) -> (step: HandleStep)
        ensures
            step@ == self@.after_exit(plan, error::unit_result(result)),
    {
        match result {
            Ok(_) => HandleStep::RunAction(plan),
            Err(failure) => HandleStep::Finish(Err(failure)),
        }
    }

    /// Goes on after the action of the transition, which left the instance in `current`.
    pub fn action_finished(&self, plan: HandlePlan, result: CatgaResult<()>, current: u64) -> (step:
        HandleStep)
        ensures
            step@ == self@.after_action(plan, error::unit_result(result), current),
    {
        match result {
            Err(failure) => HandleStep::Finish(Err(failure)),
            Ok(_) => match self.transition(plan) {
                Some(transition) => match transition.target {
                    Some(target) => HandleStep::SetState { plan, target },
                    None => HandleStep::Finish(
                        Ok(StateMachineResult::new(plan.previous, current, true)),
                    ),
                },
                None => HandleStep::Finish(
                    Ok(StateMachineResult::new(plan.previous, current, true)),
                ),
            },
        }
    }

    /// Goes on after the state of the instance was set, which is now `current`.
    pub fn state_set(&self, plan: HandlePlan, current: u64) -> (step: HandleStep)
        ensures
            step@ == self@.after_set(plan, current),
    {
        if self.on_enter(current).is_some() {
            HandleStep::RunEnter { plan, current }
        } else {
            HandleStep::Finish(Ok(StateMachineResult::new(plan.previous, current, true)))
        }
    }

    /// Goes on after the entry action, which left the instance in `current`.
    pub fn enter_finished(&self, plan: HandlePlan, result: CatgaResult<()>, current: u64) -> (step:
        HandleStep)
        ensures
            step@ == self@.after_enter(plan, error::unit_result(result), current),
    {
        match result {
            Ok(_) => HandleStep::Finish(Ok(StateMachineResult::new(plan.previous, current, true))),
            Err(failure) => HandleStep::Finish(Err(failure)),
        }
    }

    /// Returns how an event creates a missing instance.
    pub fn initial_for(&self, event: u64) -> (result: InitialState<'_, A>)
        ensures
            match crate::search::first_where(self@.initial_factories, starts_from(event)) {
                Some(place) => result matches InitialState::FromEvent { factory, initial_state }
                    && *factory == self@.initial_factories[place].factory && initial_state
                    == self@.initial_factories[place].initial_state,
                None => match self@.default_initial_factory {
                    Some(expected) => result matches InitialState::Default {
                        factory,
                        initial_state,
                    } && *factory == expected && initial_state == self@.initial,
                    None => result matches InitialState::Missing,
                },
            },
    {
        let mut index: usize = 0;
        let ghost wanted = starts_from::<A>(event);
        while index < self.initial_factories.len()
            invariant
                index <= self.initial_factories@.len(),
                wanted == starts_from::<A>(event),
                forall|i: int|
                    0 <= i < index ==> !#[trigger] wanted(self.initial_factories@[i]),
            decreases self.initial_factories@.len() - index,
        {
            if self.initial_factories[index].event == event {
                proof {
                    assert(wanted(self.initial_factories@[index as int]));
                    crate::search::lemma_first(
                        self.initial_factories@,
                        wanted,
                        Some(index as int),
                    );
                }
                return InitialState::FromEvent {
                    factory: &self.initial_factories[index].factory,
                    initial_state: self.initial_factories[index].initial_state,
                };
            }
            index = index + 1;
        }
        proof {
            crate::search::lemma_first(self.initial_factories@, wanted, None);
        }
        match &self.default_initial_factory {
            Some(factory) => InitialState::Default { factory, initial_state: self.initial },
            None => InitialState::Missing,
        }
    }
}

pub open spec fn starts_from<A>(event: u64) -> spec_fn(InitialFactory<A>) -> bool {
    |factory: InitialFactory<A>| factory.event == event
}

/// The transition that handles an event, given what each guard answers.
pub open spec fn selected<A>(
    transitions: Seq<Transition<A>>,
    event: u64,
    categories: Seq<u64>,
    guards: spec_fn(int) -> bool,
    exact: bool,
    from: int,
) -> Option<(bool, int)>
    decreases passes(exact), transitions.len() - from,
{
    match next_candidate(transitions, event, categories, exact, from) {
        None => None,
        Some((found_exact, place)) => if guards(place) {
            Some((found_exact, place))
        } else if (found_exact == exact && from <= place < transitions.len()) || (exact
            && !found_exact) {
            selected(transitions, event, categories, guards, found_exact, place + 1)
        } else {
            None
        },
    }
}

proof fn lemma_next_candidate<A>(
    transitions: Seq<Transition<A>>,
    event: u64,
    categories: Seq<u64>,
    exact: bool,
    from: int,
)
    requires
        0 <= from,
    ensures
        match next_candidate(transitions, event, categories, exact, from) {
            Some((true, place)) => {
                &&& exact
                &&& from <= place < transitions.len()
                &&& is_candidate(transitions[place], true, event, categories)
                &&& forall|i: int|
                    from <= i < place ==> !#[trigger] is_candidate(
                        transitions[i],
                        true,
                        event,
                        categories,
                    )
            },
            Some((false, place)) => {
                &&& 0 <= place < transitions.len()
                &&& !exact ==> from <= place
                &&& is_candidate(transitions[place], false, event, categories)
                &&& exact ==> forall|i: int|
                    from <= i < transitions.len() ==> !#[trigger] is_candidate(
                        transitions[i],
                        true,
                        event,
                        categories,
                    )
                &&& forall|i: int|
                    (if exact {
                        0
                    } else {
                        from
                    }) <= i < place ==> !#[trigger] is_candidate(
                        transitions[i],
                        false,
                        event,
                        categories,
                    )
            },
            None => {
                &&& exact ==> forall|i: int|
                    from <= i < transitions.len() ==> !#[trigger] is_candidate(
                        transitions[i],
                        true,
                        event,
                        categories,
                    )
                &&& forall|i: int|
                    (if exact {
                        0
                    } else {
                        from
                    }) <= i < transitions.len() ==> !#[trigger] is_candidate(
                        transitions[i],
                        false,
                        event,
                        categories,
                    )
            },
        },
    decreases passes(exact), transitions.len() - from,
{
    if from < transitions.len() {
        if !is_candidate(transitions[from], exact, event, categories) {
            lemma_next_candidate(transitions, event, categories, exact, from + 1);
        }
    } else if exact {
        lemma_next_candidate(transitions, event, categories, false, 0);
    }
}

/// Whether a transition takes an event: it reacts to it and its guard approves.
pub open spec fn takes<A>(
    transitions: Seq<Transition<A>>,
    event: u64,
    categories: Seq<u64>,
    guards: spec_fn(int) -> bool,
    exact: bool,
    place: int,
) -> bool {
    is_candidate(transitions[place], exact, event, categories) && guards(place)
}

proof fn lemma_selection<A>(
    transitions: Seq<Transition<A>>,
    event: u64,
    categories: Seq<u64>,
    guards: spec_fn(int) -> bool,
    exact: bool,
    from: int,
)
    requires
        0 <= from,
    ensures
        match selected(transitions, event, categories, guards, exact, from) {
            Some((true, place)) => {
                &&& exact
                &&& from <= place < transitions.len()
                &&& takes(transitions, event, categories, guards, true, place)
                &&& forall|i: int|
                    from <= i < place ==> !#[trigger] takes(
                        transitions,
                        event,
                        categories,
                        guards,
                        true,
                        i,
                    )
            },
            Some((false, place)) => {
                &&& 0 <= place < transitions.len()
                &&& !exact ==> from <= place
                &&& takes(transitions, event, categories, guards, false, place)
                &&& exact ==> forall|i: int|
                    from <= i < transitions.len() ==> !#[trigger] takes(
                        transitions,
                        event,
                        categories,
                        guards,
                        true,
                        i,
                    )
                &&& forall|i: int|
                    (if exact {
                        0
                    } else {
                        from
                    }) <= i < place ==> !#[trigger] takes(
                        transitions,
                        event,
                        categories,
                        guards,
                        false,
                        i,
                    )
            },
            None => {
                &&& exact ==> forall|i: int|
                    from <= i < transitions.len() ==> !#[trigger] takes(
                        transitions,
                        event,
                        categories,
                        guards,
                        true,
                        i,
                    )
                &&& forall|i: int|
                    (if exact {
                        0
                    } else {
                        from
                    }) <= i < transitions.len() ==> !#[trigger] takes(
                        transitions,
                        event,
                        categories,
                        guards,
                        false,
                        i,
                    )
            },
        },
    decreases passes(exact), transitions.len() - from,
{
    lemma_next_candidate(transitions, event, categories, exact, from);
    if let Some((found_exact, place)) = next_candidate(
        transitions,
        event,
        categories,
        exact,
        from,
    ) {
        if !guards(place) {
            lemma_selection(transitions, event, categories, guards, found_exact, place + 1);
        }
    }
}

/// An event is handled by the first registered transition for its exact type that applies; only
/// where none does, by the first that applies for one of its categories; and it stays unhandled
/// exactly where no transition applies.
pub proof fn lemma_exact_types_take_precedence<A>(
    transitions: Seq<Transition<A>>,
    event: u64,
    categories: Seq<u64>,
    guards: spec_fn(int) -> bool,
    other: int,
)
    requires
        0 <= other < transitions.len(),
    ensures
        match selected(transitions, event, categories, guards, true, 0) {
            Some((true, place)) => {
                &&& takes(transitions, event, categories, guards, true, place)
                &&& takes(transitions, event, categories, guards, true, other) ==> place <= other
            },
            Some((false, place)) => {
                &&& takes(transitions, event, categories, guards, false, place)
                &&& !takes(transitions, event, categories, guards, true, other)
                &&& takes(transitions, event, categories, guards, false, other) ==> place <= other
            },
            None => {
                &&& !takes(transitions, event, categories, guards, true, other)
                &&& !takes(transitions, event, categories, guards, false, other)
            },
        },
{
    lemma_selection(transitions, event, categories, guards, true, 0);
}

/// The step at which a driver stops asking guards, within a number of questions: it asks the guard
/// that it is told to ask and reports what that guard answered.
pub open spec fn asked<A>(
    machine: MachineView<A>,
    event: u64,
    categories: Seq<u64>,
    answers: spec_fn(int) -> Result<bool, error::ErrorView>,
    step: HandleStepView,
    questions: nat,
) -> HandleStepView
    decreases questions,
{
    match step {
        HandleStepView::CheckGuard(plan) => if questions == 0 {
            step
        } else {
            let next = machine.after_guard(
                plan,
                event,
                categories,
                answers(plan.transition as int),
            );
            asked(machine, event, categories, answers, next, (questions - 1) as nat)
        },
        _ => step,
    }
}

/// Whether a transition is for the exact type of an event and its guard does not refuse.
pub open spec fn wants_type<A>(
    transition: Transition<A>,
    event: u64,
    answer: Result<bool, error::ErrorView>,
) -> bool {
    transition.trigger == Trigger::Event(event) && answer != Ok::<bool, error::ErrorView>(false)
}

/// Whether a transition is for a category of an event and its guard does not refuse.
pub open spec fn wants_category<A>(
    transition: Transition<A>,
    categories: Seq<u64>,
    answer: Result<bool, error::ErrorView>,
) -> bool {
    &&& transition.trigger matches Trigger::Category(category) && categories.contains(category)
    &&& answer != Ok::<bool, error::ErrorView>(false)
}

/// How many guards may still be asked from a place on.
spec fn open_questions<A>(transitions: Seq<Transition<A>>, exact: bool, from: int) -> int {
    let here = if from < transitions.len() {
        transitions.len() - from
    } else {
        0
    };
    if exact {
        here + transitions.len()
    } else {
        here
    }
}

/// Whether a step is what the first transition that wants an event leads to, among those from a
/// place on.
spec fn settles<A>(
    machine: MachineView<A>,
    previous: u64,
    event: u64,
    categories: Seq<u64>,
    answers: spec_fn(int) -> Result<bool, error::ErrorView>,
    exact: bool,
    from: int,
    step: HandleStepView,
) -> bool {
    let transitions = machine.state(previous).transitions;
    let others = if exact {
        0
    } else {
        from
    };
    ||| exists|place: int|
        {
            &&& exact && from <= place < transitions.len()
            &&& #[trigger] wants_type(transitions[place], event, answers(place))
            &&& forall|i: int|
                from <= i < place ==> !#[trigger] wants_type(transitions[i], event, answers(i))
            &&& leads_to(machine, previous, true, place, answers(place), step)
        }
    ||| exists|place: int|
        {
            &&& others <= place < transitions.len()
            &&& exact ==> forall|i: int|
                from <= i < transitions.len() ==> !#[trigger] wants_type(
                    transitions[i],
                    event,
                    answers(i),
                )
            &&& #[trigger] wants_category(transitions[place], categories, answers(place))
            &&& forall|i: int|
                others <= i < place ==> !#[trigger] wants_category(
                    transitions[i],
                    categories,
                    answers(i),
                )
            &&& leads_to(machine, previous, false, place, answers(place), step)
        }
    ||| {
        &&& exact ==> forall|i: int|
            from <= i < transitions.len() ==> !#[trigger] wants_type(
                transitions[i],
                event,
                answers(i),
            )
        &&& forall|i: int|
            others <= i < transitions.len() ==> !#[trigger] wants_category(
                transitions[i],
                categories,
                answers(i),
            )
        &&& step == HandleStepView::Finish(
            Ok(
                state_machine_model::ResultView {
                    previous,
                    current: previous,
                    handled: false,
                },
            ),
        )
    }
}

/// Whether a step is what follows the answer of the guard that decided: the failure of the guard,
/// or the start of its transition, with the exit action of the state where it has one.
pub open spec fn leads_to<A>(
    machine: MachineView<A>,
    previous: u64,
    exact: bool,
    place: int,
    answer: Result<bool, error::ErrorView>,
    step: HandleStepView,
) -> bool {
    match answer {
        Err(failure) => step == HandleStepView::Finish(Err(failure)),
        Ok(_) => match step {
            HandleStepView::RunExit(plan) => {
                &&& plan == HandlePlan { previous, exact, transition: place as usize }
                &&& machine.states.contains_key(previous)
                &&& machine.states[previous].on_exit is Some
            },
            HandleStepView::RunAction(plan) => {
                &&& plan == HandlePlan { previous, exact, transition: place as usize }
                &&& machine.states.contains_key(previous) ==> machine.states[previous].on_exit is None
            },
            _ => false,
        },
    }
}

proof fn lemma_guards_are_asked_in_order<A>(
    machine: MachineView<A>,
    previous: u64,
    event: u64,
    categories: Seq<u64>,
    answers: spec_fn(int) -> Result<bool, error::ErrorView>,
    exact: bool,
    from: int,
    questions: nat,
)
    requires
        0 <= from,
        machine.state(previous).transitions.len() <= usize::MAX,
        questions >= open_questions(machine.state(previous).transitions, exact, from),
    ensures
        settles(
            machine,
            previous,
            event,
            categories,
            answers,
            exact,
            from,
            asked(
                machine,
                event,
                categories,
                answers,
                machine.consider(previous, event, categories, exact, from),
                questions,
            ),
        ),
    decreases questions,
{
    let transitions = machine.state(previous).transitions;
    let step = machine.consider(previous, event, categories, exact, from);
    let end = asked(machine, event, categories, answers, step, questions);
    lemma_next_candidate(transitions, event, categories, exact, from);
    assert forall|i: int|
        0 <= i < transitions.len() && #[trigger] wants_type(transitions[i], event, answers(i)) implies
        is_candidate(transitions[i], true, event, categories) by {}
    assert forall|i: int|
        0 <= i < transitions.len() && #[trigger] wants_category(
            transitions[i],
            categories,
            answers(i),
        ) implies is_candidate(transitions[i], false, event, categories) by {}
    match next_candidate(transitions, event, categories, exact, from) {
        None => {},
        Some((found, place)) => {
            let plan = HandlePlan { previous, exact: found, transition: place as usize };
            if answers(place) == Ok::<bool, error::ErrorView>(false) {
                let less = (questions - 1) as nat;
                lemma_guards_are_asked_in_order(
                    machine,
                    previous,
                    event,
                    categories,
                    answers,
                    found,
                    place + 1,
                    less,
                );
                let rest = machine.consider(previous, event, categories, found, place + 1);
                assert(end == asked(machine, event, categories, answers, rest, less));
                assert(!wants_type(transitions[place], event, answers(place)));
                assert(!wants_category(transitions[place], categories, answers(place)));
            } else {
                let next = machine.after_guard(plan, event, categories, answers(place));
                assert(end == next) by {
                    assert(asked(
                        machine,
                        event,
                        categories,
                        answers,
                        next,
                        (questions - 1) as nat,
                    ) == next);
                }
                if found {
                    assert(wants_type(transitions[place], event, answers(place)));
                } else {
                    assert(wants_category(transitions[place], categories, answers(place)));
                }
            }
        },
    }
}

/// A driver that asks the guards it is told to ask reaches the first transition for the exact type
/// of the event whose guard does not refuse; only where there is none, the first for one of its
/// categories; and it ends unhandled only where every guard of a transition that reacts refuses. A
/// refusal never ends the search. The transition that is reached starts with the exit action of the
/// state, where it has one, and a guard that fails ends the handling with its failure.
pub proof fn lemma_refused_transitions_are_passed_over<A>(
    machine: MachineView<A>,
    current: u64,
    event: u64,
    categories: Seq<u64>,
    answers: spec_fn(int) -> Result<bool, error::ErrorView>,
    questions: nat,
)
    requires
        machine.states.contains_key(current),
        machine.states[current].transitions.len() <= usize::MAX,
        questions >= 2 * machine.states[current].transitions.len(),
    ensures
        ({
            let transitions = machine.states[current].transitions;
            let first = machine.consider(current, event, categories, true, 0);
            let end = asked(machine, event, categories, answers, first, questions);
            &&& forall|place: int|
                {
                    &&& 0 <= place < transitions.len()
                    &&& #[trigger] wants_type(transitions[place], event, answers(place))
                    &&& forall|i: int|
                        0 <= i < place ==> !#[trigger] wants_type(transitions[i], event, answers(i))
                } ==> leads_to(machine, current, true, place, answers(place), end)
            &&& forall|place: int|
                {
                    &&& 0 <= place < transitions.len()
                    &&& #[trigger] wants_category(transitions[place], categories, answers(place))
                    &&& forall|i: int|
                        0 <= i < transitions.len() ==> !#[trigger] wants_type(
                            transitions[i],
                            event,
                            answers(i),
                        )
                    &&& forall|i: int|
                        0 <= i < place ==> !#[trigger] wants_category(
                            transitions[i],
                            categories,
                            answers(i),
                        )
                } ==> leads_to(machine, current, false, place, answers(place), end)
            &&& end == HandleStepView::Finish(
                Ok(
                    state_machine_model::ResultView {
                        previous: current,
                        current,
                        handled: false,
                    },
                ),
            ) <==> forall|i: int|
                0 <= i < transitions.len() ==> !wants_type(
                    #[trigger] transitions[i],
                    event,
                    answers(i),
                ) && !wants_category(transitions[i], categories, answers(i))
        }),
{
    lemma_guards_are_asked_in_order(
        machine,
        current,
        event,
        categories,
        answers,
        true,
        0,
        questions,
    );
    let transitions = machine.states[current].transitions;
    let first = machine.consider(current, event, categories, true, 0);
    let end = asked(machine, event, categories, answers, first, questions);
    assert forall|place: int|
        {
            &&& 0 <= place < transitions.len()
            &&& #[trigger] wants_type(transitions[place], event, answers(place))
            &&& forall|i: int|
                0 <= i < place ==> !#[trigger] wants_type(transitions[i], event, answers(i))
        } implies leads_to(machine, current, true, place, answers(place), end) by {
        assert forall|other: int|
            {
                &&& 0 <= other < transitions.len()
                &&& #[trigger] wants_type(transitions[other], event, answers(other))
                &&& forall|i: int|
                    0 <= i < other ==> !#[trigger] wants_type(transitions[i], event, answers(i))
            } implies other == place by {}
    }
    assert forall|place: int|
        {
            &&& 0 <= place < transitions.len()
            &&& #[trigger] wants_category(transitions[place], categories, answers(place))
            &&& forall|i: int|
                0 <= i < transitions.len() ==> !#[trigger] wants_type(
                    transitions[i],
                    event,
                    answers(i),
                )
            &&& forall|i: int|
                0 <= i < place ==> !#[trigger] wants_category(
                    transitions[i],
                    categories,
                    answers(i),
                )
        } implies leads_to(machine, current, false, place, answers(place), end) by {
        assert forall|other: int|
            {
                &&& 0 <= other < transitions.len()
                &&& #[trigger] wants_category(transitions[other], categories, answers(other))
                &&& forall|i: int|
                    0 <= i < other ==> !#[trigger] wants_category(
                        transitions[i],
                        categories,
                        answers(i),
                    )
            } implies other == place by {}
    }
}

/// An effect of handling an event on an instance.
pub enum HandleEffect {
    /// The exit action of the previous state.
    Exit,
    /// The action of the transition.
    Action,
    /// The change to a state.
    Change(u64),
    /// The entry action of a state.
    Enter(u64),
}

/// What the callbacks of one handling return, and the state in which each leaves the instance.
pub struct HandleReplies {
    pub exit: Result<(), error::ErrorView>,
    pub action: Result<(), error::ErrorView>,
    /// The state after the action.
    pub left_in: u64,
    pub enter: Result<(), error::ErrorView>,
    /// The state after the entry action.
    pub entered_in: u64,
}

/// What a driver does from a step on, within a number of effects, and the step at which it stops.
pub open spec fn performed<A>(
    machine: MachineView<A>,
    replies: HandleReplies,
    step: HandleStepView,
    effects: nat,
) -> (Seq<HandleEffect>, HandleStepView)
    decreases effects,
{
    if effects == 0 {
        (Seq::empty(), step)
    } else {
        let less = (effects - 1) as nat;
        match step {
            HandleStepView::RunExit(plan) => {
                let rest = performed(machine, replies, machine.after_exit(plan, replies.exit), less);
                (seq![HandleEffect::Exit] + rest.0, rest.1)
            },
            HandleStepView::RunAction(plan) => {
                let next = machine.after_action(plan, replies.action, replies.left_in);
                let rest = performed(machine, replies, next, less);
                (seq![HandleEffect::Action] + rest.0, rest.1)
            },
            HandleStepView::SetState { plan, target } => {
                let rest = performed(machine, replies, machine.after_set(plan, target), less);
                (seq![HandleEffect::Change(target)] + rest.0, rest.1)
            },
            HandleStepView::RunEnter { plan, current } => {
                let next = machine.after_enter(plan, replies.enter, replies.entered_in);
                let rest = performed(machine, replies, next, less);
                (seq![HandleEffect::Enter(current)] + rest.0, rest.1)
            },
            _ => (Seq::empty(), step),
        }
    }
}

/// An accepted transition runs the exit action of its state, where there is one, before its own
/// action, its own action before the state changes, and the entry action of the new state, where
/// there is one, last. The first of them that fails ends the handling with its failure, and nothing
/// behind it happens. Without a target the state is not changed and no entry action runs.
pub proof fn lemma_transitions_act_in_order<A>(
    machine: MachineView<A>,
    plan: HandlePlan,
    replies: HandleReplies,
    with_exit: bool,
)
    requires
        machine.states.contains_key(plan.previous),
        plan.transition < machine.states[plan.previous].transitions.len(),
    ensures
        ({
            let target = machine.states[plan.previous].transitions[plan.transition as int].target;
            let start = if with_exit {
                HandleStepView::RunExit(plan)
            } else {
                HandleStepView::RunAction(plan)
            };
            let (effects, end) = performed(machine, replies, start, 5);
            let before = if with_exit {
                seq![HandleEffect::Exit]
            } else {
                Seq::<HandleEffect>::empty()
            };
            if with_exit && replies.exit is Err {
                &&& effects =~= before
                &&& end == HandleStepView::Finish(Err(replies.exit->Err_0))
            } else if replies.action is Err {
                &&& effects =~= before.push(HandleEffect::Action)
                &&& end == HandleStepView::Finish(Err(replies.action->Err_0))
            } else if target is None {
                &&& effects =~= before.push(HandleEffect::Action)
                &&& end is Finish && end->Finish_0 is Ok
                &&& end->Finish_0->Ok_0.previous == plan.previous
                &&& end->Finish_0->Ok_0.current == replies.left_in
                &&& end->Finish_0->Ok_0.handled
            } else {
                let entered = target->0;
                let changed = before.push(HandleEffect::Action).push(HandleEffect::Change(entered));
                if machine.states.contains_key(entered) && machine.states[entered].on_enter is Some {
                    &&& effects =~= changed.push(HandleEffect::Enter(entered))
                    &&& end is Finish
                    &&& match replies.enter {
                        Err(failure) => end->Finish_0 == Err::<
                            state_machine_model::ResultView<u64>,
                            error::ErrorView,
                        >(failure),
                        Ok(_) => {
                            &&& end->Finish_0 is Ok
                            &&& end->Finish_0->Ok_0.previous == plan.previous
                            &&& end->Finish_0->Ok_0.current == replies.entered_in
                            &&& end->Finish_0->Ok_0.handled
                        },
                    }
                } else {
                    &&& effects =~= changed
                    &&& end is Finish && end->Finish_0 is Ok
                    &&& end->Finish_0->Ok_0.previous == plan.previous
                    &&& end->Finish_0->Ok_0.current == entered
                    &&& end->Finish_0->Ok_0.handled
                }
            }
        }),
{
    reveal_with_fuel(performed, 6);
}

proof fn lemma_filtered_factories<A>(
    factories: Seq<InitialFactory<A>>,
    removed: u64,
    event: u64,
)
    ensures
        ({
            let kept = factories.filter(other_event(removed));
            &&& event == removed ==> crate::search::first_where(kept, starts_from(event)) is None
            &&& event != removed ==> match (
                crate::search::first_where(kept, starts_from(event)),
                crate::search::first_where(factories, starts_from(event)),
            ) {
                (Some(now), Some(before)) => {
                    &&& 0 <= now < kept.len()
                    &&& 0 <= before < factories.len()
                    &&& kept[now] == factories[before]
                },
                (None, None) => true,
                _ => false,
            }
        }),
    decreases factories.len(),
{
    reveal(Seq::filter);
    let kept = factories.filter(other_event(removed));
    if factories.len() > 0 {
        let init = factories.drop_last();
        let kept_init = init.filter(other_event(removed));
        lemma_filtered_factories(init, removed, event);
        if other_event(removed)(factories.last()) {
            assert(kept == kept_init.push(factories.last()));
            assert(kept.drop_last() =~= kept_init);
        } else {
            assert(kept == kept_init);
        }
    }
}

/// The factory that was registered last for an event creates its instances, in the state that was
/// registered with it; the other events keep theirs.
pub proof fn lemma_last_factory_wins<A>(
    machine: MachineView<A>,
    factory: InitialFactory<A>,
    event: u64,
)
    ensures
        ({
            let after = machine.with_factory(factory);
            let place = crate::search::first_where(after.initial_factories, starts_from(event));
            &&& event == factory.event ==> {
                &&& place is Some && 0 <= place->0 < after.initial_factories.len()
                &&& after.initial_factories[place->0] == factory
            }
            &&& event != factory.event ==> match (
                place,
                crate::search::first_where(machine.initial_factories, starts_from(event)),
            ) {
                (Some(now), Some(before)) => after.initial_factories[now]
                    == machine.initial_factories[before],
                (None, None) => true,
                _ => false,
            }
            &&& after.states == machine.states
            &&& after.initial == machine.initial
            &&& after.default_initial_factory == machine.default_initial_factory
        }),
{
    let kept = machine.initial_factories.filter(other_event(factory.event));
    let after = machine.with_factory(factory).initial_factories;
    lemma_filtered_factories(machine.initial_factories, factory.event, event);
    assert(after.drop_last() =~= kept);
}

/// In a state that was not configured no event is handled.
pub proof fn lemma_unknown_states_handle_nothing<A>(
    machine: MachineView<A>,
    current: u64,
    event: u64,
    categories: Seq<u64>,
)
    requires
        !machine.states.contains_key(current),
    ensures
        machine.consider(current, event, categories, true, 0) == HandleStepView::Finish(
            Ok(
                state_machine_model::ResultView {
                    previous: current,
                    current,
                    handled: false,
                },
            ),
        ),
{
    reveal_with_fuel(next_candidate, 2);
}

} // verus!
