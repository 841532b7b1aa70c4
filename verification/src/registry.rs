//! Named flow definitions that can be replaced while flows are under way.
//!
//! A registry is a value: a reader keeps the one that it has, and a writer publishes a changed
//! copy.

use vstd::prelude::*;

use crate::continuation::FlowContinuation;
use crate::definition;
use crate::definition::FlowDefinition;
use crate::error;
use crate::error::{CatgaError, CatgaResult, ErrorCode};
use crate::runtime;
use crate::runtime::FlowRuntime;
use crate::text_map::TextMap;
use crate::time::{Duration, Timestamp};

verus! {

/// An immutable flow definition paired with its registry version.
#[derive(Debug)]
pub struct VersionedFlowDefinition {
    definition: FlowDefinition,
    version: u64,
}

/// Mathematical model of a [`VersionedFlowDefinition`].
pub struct VersionedView {
    pub definition: definition::DefinitionView,
    pub version: u64,
}

impl View for VersionedFlowDefinition {
    type V = VersionedView;

    closed spec fn view(&self) -> VersionedView {
        VersionedView { definition: self.definition@, version: self.version }
    }
}

impl Clone for VersionedFlowDefinition {
    fn clone(&self) -> (result: Self)
        ensures
            result@ == self@,
    {
        VersionedFlowDefinition { definition: self.definition.clone(), version: self.version }
    }
}

impl VersionedFlowDefinition {
    /// Returns the immutable flow definition.
    pub fn definition(&self) -> (result: &FlowDefinition)
        ensures
            result@ == self@.definition,
    {
        &self.definition
    }

    /// Returns the version that reloads have assigned.
    pub fn version(&self) -> (result: u64)
        ensures
            result == self@.version,
    {
        self.version
    }
}

/// A notification about a replaced flow definition.
#[derive(Debug)]
pub struct FlowReloaded {
    flow_name: String,
    old_version: u64,
    new_version: u64,
    reloaded_at: Timestamp,
}

/// Mathematical model of a [`FlowReloaded`].
pub struct ReloadedView {
    pub flow_name: Seq<char>,
    pub old_version: u64,
    pub new_version: u64,
    pub reloaded_at: int,
}

impl View for FlowReloaded {
    type V = ReloadedView;

    closed spec fn view(&self) -> ReloadedView {
        ReloadedView {
            flow_name: self.flow_name@,
            old_version: self.old_version,
            new_version: self.new_version,
            reloaded_at: self.reloaded_at@,
        }
    }
}

impl Clone for FlowReloaded {
    fn clone(&self) -> (result: Self)
        ensures
            result@ == self@,
    {
        FlowReloaded {
            flow_name: self.flow_name.clone(),
            old_version: self.old_version,
            new_version: self.new_version,
            reloaded_at: self.reloaded_at,
        }
    }
}

impl FlowReloaded {
    /// Returns the name of the reloaded flow.
    pub fn flow_name(&self) -> (result: &str)
        ensures
            result@ == self@.flow_name,
    {
        self.flow_name.as_str()
    }

    /// Returns the version that was visible immediately before the reload.
    pub fn old_version(&self) -> (result: u64)
        ensures
            result == self@.old_version,
    {
        self.old_version
    }

    /// Returns the version made visible by the reload.
    pub fn new_version(&self) -> (result: u64)
        ensures
            result == self@.new_version,
    {
        self.new_version
    }

    /// Returns when the replacement became visible.
    pub fn reloaded_at(&self) -> (result: Timestamp)
        ensures
            result@ == self@.reloaded_at,
    {
        self.reloaded_at
    }
}

/// The rejection of a definition without a name.
pub open spec fn unnamed() -> error::ErrorView {
    error::validation("a flow definition requires a non-empty name"@)
}

/// The failure of a version that cannot grow any more.
pub open spec fn version_overflow() -> error::ErrorView {
    error::plain_error(ErrorCode::Conflict, "flow definition version overflowed"@)
}

fn validate_name(flow_name: &str) -> (result: CatgaResult<()>)
    ensures
        match result {
            Ok(_) => flow_name@.len() > 0,
            Err(failure) => flow_name@.len() == 0 && failure@ == unnamed(),
        },
{
    if flow_name.is_empty() {
        return Err(
            CatgaError::new(ErrorCode::Validation, "a flow definition requires a non-empty name"),
        );
    }
    Ok(())
}

/// A version of each flow definition.
#[derive(Debug)]
pub struct FlowVersionManager {
    versions: TextMap<u64>,
}

impl View for FlowVersionManager {
    type V = Map<Seq<char>, u64>;

    closed spec fn view(&self) -> Map<Seq<char>, u64> {
        self.versions@
    }
}

impl Clone for FlowVersionManager {
    fn clone(&self) -> (result: Self)
        ensures
            result@ == self@,
    {
        let result = FlowVersionManager { versions: self.versions.clone() };
        assert(result@ =~= self@);
        result
    }
}

/// The version of a flow; one that has none is at version zero.
pub open spec fn current_version(versions: Map<Seq<char>, u64>, flow_name: Seq<char>) -> u64 {
    if versions.contains_key(flow_name) {
        versions[flow_name]
    } else {
        0
    }
}

/// The versions with that of one definition raised by one.
pub open spec fn incremented(versions: Map<Seq<char>, u64>, flow_name: Seq<char>) -> Map<
    Seq<char>,
    u64,
> {
    versions.insert(flow_name, (current_version(versions, flow_name) + 1) as u64)
}

impl FlowVersionManager {
    /// Creates a manager without versions.
    pub fn new() -> (result: Self)
        ensures
            result@ == Map::<Seq<char>, u64>::empty(),
    {
        FlowVersionManager { versions: TextMap::new() }
    }

    /// Returns the current version for `flow_name`, or zero when it has not been assigned.
    pub fn current(&self, flow_name: &str) -> (result: u64)
        ensures
            result == current_version(self@, flow_name@),
    {
        match self.versions.get(flow_name) {
            Some(version) => *version,
            None => 0,
        }
    }

    /// Assigns an explicit version to `flow_name`.
    pub fn set(self, flow_name: &str, version: u64) -> (result: CatgaResult<Self>)
        ensures
            match result {
                Ok(manager) => flow_name@.len() > 0 && manager@ == self@.insert(
                    flow_name@,
                    version,
                ),
                Err(failure) => flow_name@.len() == 0 && failure@ == unnamed(),
            },
    {
        match validate_name(flow_name) {
            Err(failure) => Err(failure),
            Ok(_) => Ok(FlowVersionManager { versions: self.versions.insert(flow_name, version) }),
        }
    }

    /// Increments the version for `flow_name` and returns it with the changed manager.
    pub fn increment(self, flow_name: &str) -> (result: CatgaResult<(Self, u64)>)
        ensures
            match result {
                Ok((manager, version)) => {
                    &&& flow_name@.len() > 0
                    &&& version == current_version(self@, flow_name@) + 1
                    &&& manager@ == incremented(self@, flow_name@)
                },
                Err(failure) => if flow_name@.len() == 0 {
                    failure@ == unnamed()
                } else {
                    current_version(self@, flow_name@) == u64::MAX && failure@ == version_overflow()
                },
            },
    {
        match validate_name(flow_name) {
            Err(failure) => {
                return Err(failure);
            },
            Ok(_) => {},
        }
        let version: u64 = match self.current(flow_name).checked_add(1) {
            Some(version) => version,
            None => {
                return Err(
                    CatgaError::new(ErrorCode::Conflict, "flow definition version overflowed"),
                );
            },
        };
        Ok((FlowVersionManager { versions: self.versions.insert(flow_name, version) }, version))
    }
}

/// Named, immutable durable flow definitions.
#[derive(Debug)]
pub struct FlowRegistry {
    definitions: TextMap<VersionedFlowDefinition>,
}

impl View for FlowRegistry {
    type V = Map<Seq<char>, VersionedView>;

    closed spec fn view(&self) -> Map<Seq<char>, VersionedView> {
        self.definitions@.map_values(|entry: VersionedFlowDefinition| entry@)
    }
}

impl Clone for FlowRegistry {
    fn clone(&self) -> (result: Self)
        ensures
            result@ == self@,
    {
        let result = FlowRegistry { definitions: self.definitions.clone() };
        assert forall|name: Seq<char>| self@.contains_key(name) implies result@[name]
            == self@[name] by {
            assert(cloned::<VersionedFlowDefinition>(
                self.definitions@[name],
                result.definitions@[name],
            ));
        }
        assert(result@ =~= self@);
        result
    }
}

/// The version of a registered flow; one that is not registered is at version zero.
pub open spec fn registered_version(
    registry: Map<Seq<char>, VersionedView>,
    flow_name: Seq<char>,
) -> u64 {
    if registry.contains_key(flow_name) {
        registry[flow_name].version
    } else {
        0
    }
}

/// The registry after a registration, which keeps the version of the name.
pub open spec fn with_registered(
    registry: Map<Seq<char>, VersionedView>,
    definition: definition::DefinitionView,
) -> Map<Seq<char>, VersionedView> {
    registry.insert(
        definition.name,
        VersionedView { definition, version: registered_version(registry, definition.name) },
    )
}

/// The registry after a reload, which raises the version of the name.
pub open spec fn with_reloaded(
    registry: Map<Seq<char>, VersionedView>,
    definition: definition::DefinitionView,
) -> Map<Seq<char>, VersionedView> {
    registry.insert(
        definition.name,
        VersionedView {
            definition,
            version: (registered_version(registry, definition.name) + 1) as u64,
        },
    )
}

/// What is reported of a reload.
pub open spec fn reload_event(
    registry: Map<Seq<char>, VersionedView>,
    definition: definition::DefinitionView,
    now: int,
) -> ReloadedView {
    ReloadedView {
        flow_name: definition.name,
        old_version: registered_version(registry, definition.name),
        new_version: (registered_version(registry, definition.name) + 1) as u64,
        reloaded_at: now,
    }
}

impl FlowRegistry {
    /// Creates an empty registry.
    pub fn new() -> (result: Self)
        ensures
            result@ == Map::<Seq<char>, VersionedView>::empty(),
    {
        let result = FlowRegistry { definitions: TextMap::new() };
        assert(result@ =~= Map::<Seq<char>, VersionedView>::empty());
        result
    }

    fn version_of(&self, flow_name: &str) -> (result: u64)
        ensures
            result == registered_version(self@, flow_name@),
    {
        match self.definitions.get(flow_name) {
            Some(entry) => entry.version,
            None => 0,
        }
    }

    fn with(self, definition: FlowDefinition, version: u64) -> (result: Self)
        ensures
            result@ == self@.insert(
                definition@.name,
                VersionedView { definition: definition@, version },
            ),
    {
        let ghost before = self@;
        let ghost entries = self.definitions@;
        let name: String = definition.name().to_owned();
        let ghost model = VersionedView { definition: definition@, version };
        let definitions: TextMap<VersionedFlowDefinition> = self.definitions.insert(
            name.as_str(),
            VersionedFlowDefinition { definition, version },
        );
        let result = FlowRegistry { definitions };
        assert(result@ =~= before.insert(name@, model));
        result
    }

    /// Registers a definition without changing an existing reload version.
    pub fn register(self, definition: FlowDefinition) -> (result: CatgaResult<Self>)
        ensures
            match result {
                Ok(registry) => definition@.name.len() > 0 && registry@ == with_registered(
                    self@,
                    definition@,
                ),
                Err(failure) => definition@.name.len() == 0 && failure@ == unnamed(),
            },
    {
        match validate_name(definition.name()) {
            Err(failure) => {
                return Err(failure);
            },
            Ok(_) => {},
        }
        let version: u64 = self.version_of(definition.name());
        Ok(self.with(definition, version))
    }

    /// Replaces a definition, increments its version, and describes the replacement.
    pub fn reload(self, definition: FlowDefinition, now: Timestamp) -> (result: CatgaResult<
        (Self, FlowReloaded),
    >)
        ensures
            ({
                let old_version = registered_version(self@, definition@.name);
                match result {
                    Ok((registry, event)) => {
                        &&& definition@.name.len() > 0
                        &&& event@ == reload_event(self@, definition@, now@)
                        &&& old_version < u64::MAX
                        &&& registry@ == with_reloaded(self@, definition@)
                    },
                    Err(failure) => if definition@.name.len() == 0 {
                        failure@ == unnamed()
                    } else {
                        old_version == u64::MAX && failure@ == version_overflow()
                    },
                }
            }),
    {
        match validate_name(definition.name()) {
            Err(failure) => {
                return Err(failure);
            },
            Ok(_) => {},
        }
        let old_version: u64 = self.version_of(definition.name());
        let new_version: u64 = match old_version.checked_add(1) {
            Some(version) => version,
            None => {
                return Err(
                    CatgaError::new(ErrorCode::Conflict, "flow definition version overflowed"),
                );
            },
        };
        let event = FlowReloaded {
            flow_name: definition.name().to_owned(),
            old_version,
            new_version,
            reloaded_at: now,
        };
        Ok((self.with(definition, new_version), event))
    }

    /// Returns the current definition for `flow_name`.
    pub fn get(&self, flow_name: &str) -> (result: Option<&VersionedFlowDefinition>)
        ensures
            match result {
                Some(entry) => self@.contains_key(flow_name@) && entry@ == self@[flow_name@],
                None => !self@.contains_key(flow_name@),
            },
    {
        self.definitions.get(flow_name)
    }

    /// Returns whether a definition is registered under `flow_name`.
    pub fn contains(&self, flow_name: &str) -> (result: bool)
        ensures
            result == self@.contains_key(flow_name@),
    {
        self.definitions.contains(flow_name)
    }

    /// Returns all registered names, each once.
    pub fn names(&self) -> (result: Vec<String>)
        ensures
            forall|name: Seq<char>|
                self@.contains_key(name) <==> result.deep_view().contains(name),
            result.deep_view().no_duplicates(),
    {
        self.definitions.keys()
    }

    /// Removes a definition and returns whether it was present, with the changed registry.
    pub fn unregister(self, flow_name: &str) -> (result: (Self, bool))
        ensures
            result.0@ == self@.remove(flow_name@),
            result.1 == self@.contains_key(flow_name@),
    {
        let ghost before = self@;
        let present: bool = self.definitions.contains(flow_name);
        let result = FlowRegistry { definitions: self.definitions.remove(flow_name) };
        assert(result@ =~= before.remove(flow_name@));
        (result, present)
    }
}

/// Runs durable flows against the definition that is registered for their flow type.
#[derive(Debug)]
pub struct RegistryFlowRuntime {
    owner: String,
    stale_after: Duration,
}

/// Mathematical model of a [`RegistryFlowRuntime`].
pub struct RegistryRuntimeView {
    pub owner: Seq<char>,
    pub stale_after: int,
}

impl View for RegistryFlowRuntime {
    type V = RegistryRuntimeView;

    closed spec fn view(&self) -> RegistryRuntimeView {
        RegistryRuntimeView { owner: self.owner@, stale_after: self.stale_after@ }
    }
}

/// The failure of a flow type without a definition.
pub open spec fn unregistered() -> error::ErrorView {
    error::plain_error(
        ErrorCode::NotFound,
        "no flow definition is registered for this flow type"@,
    )
}

impl RegistryRuntimeView {
    /// The runtime of the definition that is registered for a flow type.
    pub open spec fn resolved(
        self,
        registry: Map<Seq<char>, VersionedView>,
        flow_type: Seq<char>,
    ) -> Result<runtime::RuntimeView, error::ErrorView> {
        if registry.contains_key(flow_type) {
            Ok(
                runtime::RuntimeView {
                    stale_after: self.stale_after,
                    definition: registry[flow_type].definition,
                    owner: self.owner,
                    tag_policy: None,
                },
            )
        } else {
            Err(unregistered())
        }
    }
}

/// The model of a runtime that was created.
pub open spec fn runtime_result(result: CatgaResult<FlowRuntime>) -> Result<
    runtime::RuntimeView,
    error::ErrorView,
> {
    match result {
        Ok(created) => Ok(created@),
        Err(failure) => Err(failure@),
    }
}

impl RegistryFlowRuntime {
    /// Creates a runtime that resolves durable flow types through a registry.
    pub fn new(owner: &str) -> (result: Self)
        ensures
            result@ == (RegistryRuntimeView { owner: owner@, stale_after: 30_000_000_000 }),
    {
        RegistryFlowRuntime { owner: owner.to_owned(), stale_after: Duration::from_secs(30) }
    }

    /// Sets how long an unheartbeated running continuation remains exclusively owned.
    pub fn with_stale_after(self, stale_after: Duration) -> (result: Self)
        ensures
            result@ == (RegistryRuntimeView { stale_after: stale_after@, ..self@ }),
    {
        RegistryFlowRuntime { stale_after, ..self }
    }

    /// Creates the runtime of the definition that is registered for a flow type.
    pub fn runtime_for_type(&self, registry: &FlowRegistry, flow_type: &str) -> (result: CatgaResult<
        FlowRuntime,
    >)
        ensures
            runtime_result(result) == self@.resolved(registry@, flow_type@),
    {
        match registry.get(flow_type) {
            Some(entry) => Ok(
                FlowRuntime::new(
                    entry.definition().clone(),
                    self.owner.as_str(),
                ).with_stale_after(self.stale_after),
            ),
            None => Err(
                CatgaError::new(
                    ErrorCode::NotFound,
                    "no flow definition is registered for this flow type",
                ),
            ),
        }
    }

    /// Creates the runtime of the definition that is registered for the type of a loaded flow.
    pub fn runtime_for_id(
        &self,
        registry: &FlowRegistry,
        loaded: CatgaResult<Option<FlowContinuation>>,
    ) -> (result: CatgaResult<FlowRuntime>)
        ensures
            runtime_result(result) == match runtime::load_view(loaded) {
                Err(failure) => Err(failure),
                Ok(None) => Err(runtime::missing_flow()),
                Ok(Some(flow)) => self@.resolved(registry@, flow.state.flow_type),
            },
    {
        match loaded {
            Err(failure) => Err(failure),
            Ok(None) => Err(CatgaError::new(ErrorCode::NotFound, "flow does not exist")),
            Ok(Some(flow)) => self.runtime_for_type(registry, flow.state().flow_type()),
        }
    }
}

/// A reload is seen by the next lookup with a version that is one higher, and it changes no other
/// flow; registering again keeps the version.
pub proof fn lemma_reloads_raise_one_version(
    registry: Map<Seq<char>, VersionedView>,
    definition: definition::DefinitionView,
    other: Seq<char>,
    now: int,
)
    requires
        registered_version(registry, definition.name) < u64::MAX,
        other != definition.name,
    ensures
        ({
            let reloaded = with_reloaded(registry, definition);
            let registered = with_registered(registry, definition);
            let event = reload_event(registry, definition, now);
            let old_version: int = if registry.contains_key(definition.name) {
                registry[definition.name].version as int
            } else {
                0
            };
            &&& reloaded.contains_key(definition.name)
            &&& reloaded[definition.name].definition == definition
            &&& reloaded[definition.name].version == old_version + 1
            &&& registered.contains_key(definition.name)
            &&& registered[definition.name].definition == definition
            &&& registered[definition.name].version == old_version
            &&& event.flow_name == definition.name
            &&& event.old_version == old_version
            &&& event.new_version == old_version + 1
            &&& event.reloaded_at == now
            &&& reloaded.contains_key(other) == registry.contains_key(other)
            &&& registry.contains_key(other) ==> reloaded[other] == registry[other]
            &&& registered.contains_key(other) == registry.contains_key(other)
            &&& registry.contains_key(other) ==> registered[other] == registry[other]
        }),
{
}

/// Raising the version of one definition raises it by one, from zero where it has none, and changes
/// no other.
pub proof fn lemma_increments_raise_one_version(
    versions: Map<Seq<char>, u64>,
    flow_name: Seq<char>,
    other: Seq<char>,
)
    requires
        current_version(versions, flow_name) < u64::MAX,
        other != flow_name,
    ensures
        versions.contains_key(flow_name) ==> incremented(versions, flow_name)[flow_name]
            == versions[flow_name] + 1,
        !versions.contains_key(flow_name) ==> incremented(versions, flow_name)[flow_name] == 1,
        incremented(versions, flow_name).contains_key(flow_name),
        current_version(incremented(versions, flow_name), other) == current_version(
            versions,
            other,
        ),
{
}

/// A runtime is resolved to the definition that is registered under the type of the flow, with the
/// owner and the stale period of the registry runtime; without one the type is not found.
pub proof fn lemma_flows_run_under_their_registered_definition(
    runtimes: RegistryRuntimeView,
    registry: Map<Seq<char>, VersionedView>,
    definition: definition::DefinitionView,
    flow_type: Seq<char>,
)
    ensures
        ({
            let resolved = runtimes.resolved(
                with_registered(registry, definition),
                definition.name,
            );
            &&& resolved is Ok
            &&& resolved->Ok_0.definition == definition
            &&& resolved->Ok_0.owner == runtimes.owner
            &&& resolved->Ok_0.stale_after == runtimes.stale_after
            &&& resolved->Ok_0.tag_policy is None
        }),
        !registry.contains_key(flow_type) ==> {
            let refused = runtimes.resolved(registry, flow_type);
            &&& refused is Err
            &&& refused->Err_0.code == ErrorCode::NotFound
        },
{
}

} // verus!
