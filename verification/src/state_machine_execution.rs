//! Persistent execution and event routing for state machines.
//!
//! Each function takes what the last effect returned and answers with the next
//! [`InstanceStep`].

use std::collections::HashMap;

use vstd::prelude::*;

use crate::error;
use crate::error::{CatgaError, CatgaResult, ErrorCode};
use crate::state_machine_model;
use crate::state_machine_model::{StateMachineResult, StateMachineSnapshot};
use crate::text;
use crate::text::{is_blank, join};
use crate::time::Timestamp;

verus! {

broadcast use vstd::std_specs::hash::group_hash_axioms;

/// The instance that an event is handled by.
#[derive(Debug)]
pub enum Instance<S> {
    /// An instance that the event creates.
    New { instance_id: String },
    /// A stored instance.
    Existing { snapshot: StateMachineSnapshot<S> },
}

/// Mathematical model of an [`Instance`].
pub enum InstanceView<S> {
    New { instance_id: Seq<char> },
    Existing { snapshot: state_machine_model::SnapshotView<S> },
}

impl<S> View for Instance<S> {
    type V = InstanceView<S>;

    open spec fn view(&self) -> InstanceView<S> {
        match *self {
            Instance::New { instance_id } => InstanceView::New { instance_id: instance_id@ },
            Instance::Existing { snapshot } => InstanceView::Existing { snapshot: snapshot@ },
        }
    }
}

/// The next effect of handling an event on a persistent instance.
#[derive(Debug)]
pub enum InstanceStep<S, K> {
    /// Create an initial state for the event, then call [`initial_created`].
    CreateInitial { instance_id: String },
    /// Handle the event on a copy of the state, then call [`event_handled`].
    Handle { instance: Instance<S> },
    /// Store the new instance, then call [`instance_created`].
    Create { snapshot: StateMachineSnapshot<S>, result: StateMachineResult<K> },
    /// Replace the snapshot of the expected version, then call [`instance_updated`].
    Update {
        expected_version: i64,
        next: StateMachineSnapshot<S>,
        result: StateMachineResult<K>,
    },
    /// The handling ends with this result.
    Finish(CatgaResult<StateMachineResult<K>>),
}

/// Mathematical model of an [`InstanceStep`].
pub enum InstanceStepView<S, K> {
    CreateInitial { instance_id: Seq<char> },
    Handle { instance: InstanceView<S> },
    Create {
        snapshot: state_machine_model::SnapshotView<S>,
        result: state_machine_model::ResultView<K>,
    },
    Update {
        expected_version: i64,
        next: state_machine_model::SnapshotView<S>,
        result: state_machine_model::ResultView<K>,
    },
    Finish(Result<state_machine_model::ResultView<K>, error::ErrorView>),
}

/// The model of the result of handling an event.
pub open spec fn handling_result<K>(result: CatgaResult<StateMachineResult<K>>) -> Result<
    state_machine_model::ResultView<K>,
    error::ErrorView,
> {
    match result {
        Ok(result) => Ok(result@),
        Err(failure) => Err(failure@),
    }
}

/// The model of a loaded snapshot.
pub open spec fn snapshot_result<S>(result: CatgaResult<Option<StateMachineSnapshot<S>>>) -> Result<
    Option<state_machine_model::SnapshotView<S>>,
    error::ErrorView,
> {
    match result {
        Ok(Some(snapshot)) => Ok(Some(snapshot@)),
        Ok(None) => Ok(None),
        Err(failure) => Err(failure@),
    }
}

impl<S, K> View for InstanceStep<S, K> {
    type V = InstanceStepView<S, K>;

    open spec fn view(&self) -> InstanceStepView<S, K> {
        match *self {
            InstanceStep::CreateInitial { instance_id } => InstanceStepView::CreateInitial {
                instance_id: instance_id@,
            },
            InstanceStep::Handle { instance } => InstanceStepView::Handle { instance: instance@ },
            InstanceStep::Create { snapshot, result } => InstanceStepView::Create {
                snapshot: snapshot@,
                result: result@,
            },
            InstanceStep::Update { expected_version, next, result } => InstanceStepView::Update {
                expected_version,
                next: next@,
                result: result@,
            },
            InstanceStep::Finish(result) => InstanceStepView::Finish(handling_result(result)),
        }
    }
}

/// A failure of one instance, with its identity in the message.
pub open spec fn instance_failure(
    code: ErrorCode,
    instance_id: Seq<char>,
    message: Seq<char>,
) -> error::ErrorView {
    error::plain_error(code, "state-machine instance '"@ + instance_id + message)
}

fn fail_instance(code: ErrorCode, instance_id: &str, message: &str) -> (result: CatgaError)
    ensures
        result@ == instance_failure(code, instance_id@, message@),
{
    let named: String = join("state-machine instance '", instance_id);
    let text: String = join(named.as_str(), message);
    CatgaError::new(code, text.as_str())
}

/// What follows the load of an instance.
pub open spec fn after_instance_load<S, K>(
    instance_id: Seq<char>,
    loaded: Result<Option<state_machine_model::SnapshotView<S>>, error::ErrorView>,
) -> InstanceStepView<S, K> {
    match loaded {
        Err(failure) => InstanceStepView::Finish(Err(failure)),
        Ok(None) => InstanceStepView::CreateInitial { instance_id },
        Ok(Some(snapshot)) => InstanceStepView::Handle {
            instance: InstanceView::Existing { snapshot },
        },
    }
}

/// What follows the attempt to create an initial state.
pub open spec fn after_initial<S, K>(
    instance_id: Seq<char>,
    created: Result<bool, error::ErrorView>,
) -> InstanceStepView<S, K> {
    match created {
        Err(failure) => InstanceStepView::Finish(Err(failure)),
        Ok(true) => InstanceStepView::Handle { instance: InstanceView::New { instance_id } },
        Ok(false) => InstanceStepView::Finish(
            Err(instance_failure(ErrorCode::NotFound, instance_id, "' does not exist"@)),
        ),
    }
}

/// What follows the handling of an event that left a state: only handled events are stored.
pub open spec fn after_handling<S, K>(
    instance: InstanceView<S>,
    result: Result<state_machine_model::ResultView<K>, error::ErrorView>,
    state: S,
    now: int,
) -> InstanceStepView<S, K> {
    match result {
        Err(failure) => InstanceStepView::Finish(Err(failure)),
        Ok(result) => if !result.handled {
            InstanceStepView::Finish(Ok(result))
        } else {
            match instance {
                InstanceView::New { instance_id } => InstanceStepView::Create {
                    snapshot: state_machine_model::SnapshotView::initial(instance_id, state, now),
                    result,
                },
                InstanceView::Existing { snapshot } => if snapshot.can_advance() {
                    InstanceStepView::Update {
                        expected_version: snapshot.version,
                        next: snapshot.advanced(state, now),
                        result,
                    }
                } else {
                    InstanceStepView::Finish(
                        Err(state_machine_model::snapshot_version_exhausted()),
                    )
                },
            }
        },
    }
}

/// How handling ends once its outcome was stored, or another writer was faster.
pub open spec fn after_instance_write<S, K>(
    instance_id: Seq<char>,
    result: state_machine_model::ResultView<K>,
    written: Result<bool, error::ErrorView>,
    message: Seq<char>,
) -> InstanceStepView<S, K> {
    match written {
        Err(failure) => InstanceStepView::Finish(Err(failure)),
        Ok(true) => InstanceStepView::Finish(Ok(result)),
        Ok(false) => InstanceStepView::Finish(
            Err(instance_failure(ErrorCode::Conflict, instance_id, message)),
        ),
    }
}

/// Goes on after the instance of an event was loaded.
pub fn instance_loaded<S, K>(
    instance_id: &str,
    loaded: CatgaResult<Option<StateMachineSnapshot<S>>>,
) -> (step: InstanceStep<S, K>)
    ensures
        step@ == after_instance_load::<S, K>(instance_id@, snapshot_result(loaded)),
{
    match loaded {
        Err(failure) => InstanceStep::Finish(Err(failure)),
        Ok(None) => InstanceStep::CreateInitial { instance_id: instance_id.to_owned() },
        Ok(Some(snapshot)) => InstanceStep::Handle { instance: Instance::Existing { snapshot } },
    }
}

/// Goes on after an initial state was created for a missing instance, or none could be.
pub fn initial_created<S, K>(instance_id: String, created: CatgaResult<bool>) -> (step: InstanceStep<
    S,
    K,
>)
    ensures
        step@ == after_initial::<S, K>(instance_id@, error::flag_result(created)),
{
    match created {
        Err(failure) => InstanceStep::Finish(Err(failure)),
        Ok(created) => {
            if created {
                InstanceStep::Handle { instance: Instance::New { instance_id } }
            } else {
                InstanceStep::Finish(
                    Err(
                        fail_instance(
                            ErrorCode::NotFound,
                            instance_id.as_str(),
                            "' does not exist",
                        ),
                    ),
                )
            }
        },
    }
}

/// Goes on after the event was handled, which left `state`.
pub fn event_handled<S, K>(
    instance: Instance<S>,
    result: CatgaResult<StateMachineResult<K>>,
    state: S,
    now: Timestamp,
) -> (step: InstanceStep<S, K>)
    ensures
        step@ == after_handling(instance@, handling_result(result), state, now@),
{
    let result: StateMachineResult<K> = match result {
        Err(failure) => {
            return InstanceStep::Finish(Err(failure));
        },
        Ok(result) => result,
    };
    if !result.handled() {
        return InstanceStep::Finish(Ok(result));
    }
    match instance {
        Instance::New { instance_id } => InstanceStep::Create {
            snapshot: StateMachineSnapshot::new(instance_id.as_str(), state, now),
            result,
        },
        Instance::Existing { snapshot } => match snapshot.next_version(state, now) {
            Ok(next) => InstanceStep::Update {
                expected_version: snapshot.version(),
                next,
                result,
            },
            Err(failure) => InstanceStep::Finish(Err(failure)),
        },
    }
}

fn finish_write<S, K>(
    instance_id: &str,
    result: StateMachineResult<K>,
    written: CatgaResult<bool>,
    message: &str,
) -> (step: InstanceStep<S, K>)
    ensures
        step@ == after_instance_write::<S, K>(
            instance_id@,
            result@,
            error::flag_result(written),
            message@,
        ),
{
    match written {
        Err(failure) => InstanceStep::Finish(Err(failure)),
        Ok(stored) => {
            if stored {
                InstanceStep::Finish(Ok(result))
            } else {
                InstanceStep::Finish(
                    Err(fail_instance(ErrorCode::Conflict, instance_id, message)),
                )
            }
        },
    }
}

/// Ends the handling after a new instance was stored, or existed.
pub fn instance_created<S, K>(
    instance_id: &str,
    result: StateMachineResult<K>,
    created: CatgaResult<bool>,
) -> (step: InstanceStep<S, K>)
    ensures
        step@ == after_instance_write::<S, K>(
            instance_id@,
            result@,
            error::flag_result(created),
            "' was created concurrently"@,
        ),
{
    finish_write(instance_id, result, created, "' was created concurrently")
}

/// Ends the handling after a snapshot was replaced, or had changed.
pub fn instance_updated<S, K>(
    instance_id: &str,
    result: StateMachineResult<K>,
    updated: CatgaResult<bool>,
) -> (step: InstanceStep<S, K>)
    ensures
        step@ == after_instance_write::<S, K>(
            instance_id@,
            result@,
            error::flag_result(updated),
            "' changed while handling its event"@,
        ),
{
    finish_write(instance_id, result, updated, "' changed while handling its event")
}

/// An event that no transition handles changes nothing, and every stored change of an instance
/// follows the version that it replaces.
pub proof fn lemma_only_handled_events_are_stored<S, K>(
    instance: InstanceView<S>,
    result: state_machine_model::ResultView<K>,
    state: S,
    now: int,
)
    ensures
        !result.handled ==> after_handling(instance, Ok(result), state, now)
            == InstanceStepView::<S, K>::Finish(Ok(result)),
        after_handling(instance, Ok(result), state, now) matches InstanceStepView::Update {
            expected_version,
            next,
            ..
        } ==> {
            &&& result.handled
            &&& next.version == expected_version + 1
            &&& next.state == state
            &&& instance matches InstanceView::Existing { snapshot } && snapshot.version
                == expected_version && snapshot.instance_id == next.instance_id
        },
{
}

/// Where an event finds the identity of its instance.
#[derive(Debug)]
pub enum EventRoute<'a, A> {
    /// The selector of its type.
    Typed(&'a A),
    /// The selector of all other types.
    Fallback(&'a A),
}

/// Routes events to the instances that selectors name.
#[derive(Debug)]
pub struct StateMachineEventRouter<A> {
    routes: HashMap<u64, A>,
    fallback: Option<A>,
}

/// Mathematical model of a [`StateMachineEventRouter`].
pub struct RouterView<A> {
    pub routes: Map<u64, A>,
    pub fallback: Option<A>,
}

impl<A> View for StateMachineEventRouter<A> {
    type V = RouterView<A>;

    closed spec fn view(&self) -> RouterView<A> {
        RouterView { routes: self.routes@, fallback: self.fallback }
    }
}

impl<A> StateMachineEventRouter<A> {
    /// Creates an empty router.
    pub fn new() -> (result: Self)
        ensures
            result@ == (RouterView { routes: Map::<u64, A>::empty(), fallback: None::<A> }),
    {
        StateMachineEventRouter { routes: HashMap::new(), fallback: None }
    }

    /// Registers the instance selector for one event type.
    pub fn for_event(self, event: u64, resolver: A) -> (result: Self)
        ensures
            result@ == (RouterView { routes: self@.routes.insert(event, resolver), ..self@ }),
    {
        let mut routes: HashMap<u64, A> = self.routes;
        routes.insert(event, resolver);
        StateMachineEventRouter { routes, fallback: self.fallback }
    }

    /// Configures a selector used only when an event type has none of its own.
    pub fn with_fallback(self, resolver: A) -> (result: Self)
        ensures
            result@ == (RouterView { fallback: Some(resolver), ..self@ }),
    {
        StateMachineEventRouter { routes: self.routes, fallback: Some(resolver) }
    }

    /// Finds the selector for an event type.
    pub fn route(&self, event: u64, event_name: &str) -> (result: CatgaResult<EventRoute<'_, A>>)
        ensures
            if self@.routes.contains_key(event) {
                result matches Ok(EventRoute::Typed(resolver)) && *resolver == self@.routes[event]
            } else {
                match self@.fallback {
                    Some(fallback) => result matches Ok(EventRoute::Fallback(resolver))
                        && *resolver == fallback,
                    None => result matches Err(failure) && failure@ == error::plain_error(
                        ErrorCode::Unsupported,
                        "no state-machine route is registered for event "@ + event_name@,
                    ),
                }
            },
    {
        match self.routes.get(&event) {
            Some(resolver) => {
                return Ok(EventRoute::Typed(resolver));
            },
            None => {},
        }
        match &self.fallback {
            Some(resolver) => Ok(EventRoute::Fallback(resolver)),
            None => Err(
                CatgaError::new(
                    ErrorCode::Unsupported,
                    join("no state-machine route is registered for event ", event_name).as_str(),
                ),
            ),
        }
    }
}

/// Rejects an instance identity that the selector of a type left blank.
pub fn validate_instance_id(instance_id: &str, event_name: &str) -> (result: CatgaResult<()>)
    ensures
        match result {
            Ok(_) => !text::blank(instance_id@),
            Err(failure) => text::blank(instance_id@) && failure@ == error::validation(
                "state-machine instance id cannot be empty for event "@ + event_name@,
            ),
        },
{
    if is_blank(instance_id) {
        return Err(
            CatgaError::new(
                ErrorCode::Validation,
                join(
                    "state-machine instance id cannot be empty for event ",
                    event_name,
                ).as_str(),
            ),
        );
    }
    Ok(())
}

/// Rejects an instance identity that the fallback selector left blank.
pub fn validate_fallback_instance_id(instance_id: &str) -> (result: CatgaResult<()>)
    ensures
        match result {
            Ok(_) => !text::blank(instance_id@),
            Err(failure) => text::blank(instance_id@) && failure@ == error::validation(
                "state-machine fallback instance id cannot be empty"@,
            ),
        },
{
    if is_blank(instance_id) {
        return Err(
            CatgaError::new(
                ErrorCode::Validation,
                "state-machine fallback instance id cannot be empty",
            ),
        );
    }
    Ok(())
}

} // verus!
