//! Durable and compensating flow primitives.
//!
//! The modules hold the decisions of flows: what to run, what to store and what to answer. Work
//! that only a caller can do, such as running an action, loading a record or waiting, is asked for
//! as a step; the caller does it and hands the outcome back.

pub mod attempt;
pub mod auto_discovery;
pub mod bytes;
pub mod child_launch;
pub mod continuation;
pub mod definition;
pub mod derives;
pub mod dispatch_code;
pub mod dsl;
pub mod dsl_checkpoint;
pub mod dsl_concurrent;
pub mod dsl_cursor;
pub mod dsl_fan_out;
pub mod dsl_for_each;
pub mod dsl_laws;
pub mod dsl_lifecycle;
pub mod dsl_parallel_recovery;
pub mod dsl_progress;
pub mod dsl_recovery;
pub mod dsl_step;
pub mod dsl_throttle;
pub mod dsl_when_any;
pub mod error;
pub mod execution_laws;
pub mod executor;
pub mod handlers;
pub mod local;
pub mod message_derive;
pub mod message_laws;
pub mod message_options;
pub mod message_syntax;
pub mod persistence;
pub mod reconciliation;
pub mod record;
pub mod registration;
pub mod registration_laws;
pub mod registry;
pub mod runtime;
pub mod runtime_laws;
pub mod runtime_wait;
pub mod scheduler;
pub mod search;
pub mod state;
pub mod state_machine_definition;
pub mod state_machine_execution;
pub mod state_machine_model;
pub mod suspension;
pub mod suspension_store;
pub mod syntax;
pub mod tag_policy;
pub mod text;
pub mod text_map;
pub mod time;
pub mod timeout;
pub mod typed_mediator;
pub mod wait_laws;
pub mod wire;

pub use auto_discovery::{catga_auto, catga_handler, expand_auto, expand_handler};
pub use continuation::FlowContinuation;
pub use definition::{FlowDefinition, FlowStepOutcome};
pub use derives::{
    catga_main, catga_request, derive_command, derive_event, expand_catga_main,
    expand_derive_command, expand_derive_event,
};
pub use dsl::{DslFlow, DslOperation};
pub use dsl_checkpoint::{
    CheckpointFrame, CheckpointLevel, CheckpointWork, ParallelBranchProgress,
    MAX_CHECKPOINT_PATH_DEPTH, MAX_CHECKPOINT_STATE_BYTES,
};
pub use dsl_lifecycle::{DslFlowLifecycleEvent, DslFlowLifecycleHooks};
pub use dsl_progress::{DslProgressKind, DslStepProgress};
pub use dsl_throttle::FlowThrottle;
pub use error::{CatgaError, CatgaResult, ErrorCode};
pub use executor::{FlowExecutor, FlowHeartbeatOptions, FlowRecoveryOptions};
pub use handlers::catga_handlers;
pub use local::{Flow, FlowResult};
pub use message_derive::{derive_message, expand_message, read_message, MessageDeclaration};
pub use persistence::{decode_continuation, encode_continuation};
pub use registry::{
    FlowRegistry, FlowReloaded, FlowVersionManager, RegistryFlowRuntime, VersionedFlowDefinition,
};
pub use runtime::{FlowRuntime, FlowRuntimeResult};
pub use scheduler::{MemoryFlowScheduler, ScheduledResume};
pub use state::{FlowState, FlowStatus, MAX_FLOW_DATA_BYTES};
pub use state_machine_definition::{StateMachine, StateMachineBuilder};
pub use state_machine_execution::StateMachineEventRouter;
pub use state_machine_model::{
    decode_state_machine_snapshot, encode_state_machine_snapshot, StateMachineResult,
    StateMachineSnapshot, StateMachineState,
};
pub use suspension::{
    FlowChildLaunch, FlowChildLaunchState, WaitCondition, WaitPolicy, WaitResult,
    MAX_FLOW_COMPENSATIONS, MAX_WAIT_CHILDREN, MAX_WAIT_RESULT_BYTES,
};
pub use suspension_store::{
    FlowQuery, FlowSummary, MAX_FLOW_QUERY_RESULTS, MAX_FLOW_QUERY_SCAN,
};
pub use tag_policy::FlowTagPolicy;
pub use time::{Duration, Timestamp};
pub use timeout::flow_timeout_deadline_unix_ms;
pub use typed_mediator::catga_typed_mediator;
