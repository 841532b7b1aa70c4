//! Versioned state of one durable flow.

use vstd::prelude::*;

use crate::bytes;
use crate::error;
use crate::error::{clone_text_option, CatgaError, CatgaResult, ErrorCode};
use crate::record;
use crate::record::Record;
use crate::time::Timestamp;

verus! {

/// Largest flow input that a durable record retains.
pub const MAX_FLOW_DATA_BYTES: usize = 1048576;

/// The lifecycle phase of a durable flow.
#[derive(Clone, Copy, Debug, PartialEq, Eq, Structural)]
pub enum FlowStatus {
    /// The forward action is eligible to run.
    Running,
    /// Completed actions are being undone.
    Compensating,
    /// The flow is persisted until an external trigger resumes it.
    Suspended,
    /// The flow completed successfully.
    Done,
    /// The flow completed with an error.
    Failed,
    /// The flow was stopped before it reached another terminal outcome.
    Cancelled,
}

impl FlowStatus {
    /// A flow in one of these phases never changes again.
    pub open spec fn spec_is_terminal(self) -> bool {
        self == FlowStatus::Done || self == FlowStatus::Failed || self == FlowStatus::Cancelled
    }

    /// Returns whether this phase is terminal.
    #[verifier::when_used_as_spec(spec_is_terminal)]
    pub fn is_terminal(self) -> (result: bool)
        ensures
            result == self.spec_is_terminal(),
    {
        matches!(self, FlowStatus::Done | FlowStatus::Failed | FlowStatus::Cancelled)
    }
}

/// Mathematical model of a [`FlowState`].
pub struct FlowStateView {
    pub id: Seq<char>,
    pub flow_type: Seq<char>,
    pub status: FlowStatus,
    pub step: u32,
    pub version: i64,
    pub owner: Option<Seq<char>>,
    pub heartbeat: int,
    pub data: Seq<u8>,
    pub error: Option<error::ErrorView>,
}

impl FlowStateView {
    /// The state of a new flow.
    pub open spec fn initial(
        id: Seq<char>,
        flow_type: Seq<char>,
        data: Seq<u8>,
        owner: Seq<char>,
        now: int,
    ) -> Self {
        FlowStateView {
            id,
            flow_type,
            status: FlowStatus::Running,
            step: 0,
            version: 0,
            owner: Some(owner),
            heartbeat: now,
            data,
            error: None,
        }
    }

    pub open spec fn claimed_by(self, owner: Seq<char>, now: int) -> Self {
        FlowStateView { owner: Some(owner), heartbeat: now, ..self }
    }

    pub open spec fn heartbeated_at(self, heartbeat: int) -> Self {
        FlowStateView { heartbeat, ..self }
    }

    pub open spec fn at_step(self, step: u32) -> Self {
        FlowStateView { step, ..self }
    }

    pub open spec fn compensating(self) -> Self {
        FlowStateView { status: FlowStatus::Compensating, ..self }
    }

    pub open spec fn with_error(self, error: error::ErrorView) -> Self {
        FlowStateView { error: Some(error), ..self }
    }

    pub open spec fn suspended(self) -> Self {
        FlowStateView { status: FlowStatus::Suspended, owner: None, ..self }
    }

    pub open spec fn running(self) -> Self {
        FlowStateView { status: FlowStatus::Running, ..self }
    }

    pub open spec fn done(self, step: u32) -> Self {
        FlowStateView { status: FlowStatus::Done, step, owner: None, error: None, ..self }
    }

    pub open spec fn failed(self, error: error::ErrorView) -> Self {
        FlowStateView { status: FlowStatus::Failed, owner: None, error: Some(error), ..self }
    }

    pub open spec fn cancelled(self) -> Self {
        FlowStateView { status: FlowStatus::Cancelled, owner: None, error: None, ..self }
    }

    /// Whether a further version exists.
    pub open spec fn can_advance(self) -> bool {
        self.version < i64::MAX
    }

    /// The state at the following version.
    pub open spec fn advanced(self) -> Self {
        FlowStateView { version: (self.version + 1) as i64, ..self }
    }

    /// The number of completed steps after one more, as far as it can be counted.
    pub open spec fn following_step(self) -> u32 {
        if self.step < u32::MAX {
            (self.step + 1) as u32
        } else {
            u32::MAX
        }
    }

    /// Whether the flow input is within its bound.
    pub open spec fn valid(self) -> bool {
        self.data.len() <= MAX_FLOW_DATA_BYTES
    }
}

/// The rejection of a version that has no successor.
pub open spec fn version_exhausted() -> error::ErrorView {
    error::plain_error(
        ErrorCode::Conflict,
        "flow state version cannot advance beyond i64::MAX"@,
    )
}

/// The rejection of an oversized flow input.
pub open spec fn oversized_data() -> error::ErrorView {
    error::validation("flow data exceeds the durable size limit"@)
}

/// Immutable, versioned state for one durable flow execution.
#[derive(Debug)]
pub struct FlowState {
    id: String,
    flow_type: String,
    status: FlowStatus,
    step: u32,
    version: i64,
    owner: Option<String>,
    heartbeat: Timestamp,
    data: Vec<u8>,
    error: Option<CatgaError>,
}

/// The model of an optional failure.
pub open spec fn error_option(value: Option<CatgaError>) -> Option<error::ErrorView> {
    match value {
        Some(failure) => Some(failure@),
        None => None,
    }
}

/// Clones an optional failure.
pub fn clone_error_option(value: &Option<CatgaError>) -> (result: Option<CatgaError>)
    ensures
        error_option(result) == error_option(*value),
{
    match value {
        Some(failure) => Some(failure.clone()),
        None => None,
    }
}

impl View for FlowState {
    type V = FlowStateView;

    closed spec fn view(&self) -> FlowStateView {
        FlowStateView {
            id: self.id@,
            flow_type: self.flow_type@,
            status: self.status,
            step: self.step,
            version: self.version,
            owner: error::text_option(self.owner),
            heartbeat: self.heartbeat@,
            data: self.data@,
            error: error_option(self.error),
        }
    }
}

impl Clone for FlowState {
    fn clone(&self) -> (result: Self)
        ensures
            result@ == self@,
    {
        FlowState {
            id: self.id.clone(),
            flow_type: self.flow_type.clone(),
            status: self.status,
            step: self.step,
            version: self.version,
            owner: clone_text_option(&self.owner),
            heartbeat: self.heartbeat,
            data: bytes::copy_bytes(&self.data),
            error: clone_error_option(&self.error),
        }
    }
}

impl FlowState {
    /// Creates a running flow owned by `owner` at version zero.
    pub fn new(id: &str, flow_type: &str, data: Vec<u8>, owner: &str, now: Timestamp) -> (result:
        Self)
        ensures
            result@ == FlowStateView::initial(id@, flow_type@, data@, owner@, now@),
    {
        FlowState {
            id: id.to_owned(),
            flow_type: flow_type.to_owned(),
            status: FlowStatus::Running,
            step: 0,
            version: 0,
            owner: Some(owner.to_owned()),
            heartbeat: now,
            data,
            error: None,
        }
    }

    /// Returns the stable flow identity.
    pub fn id(&self) -> (result: &str)
        ensures
            result@ == self@.id,
    {
        self.id.as_str()
    }

    /// Returns the stable flow type used to select handlers.
    pub fn flow_type(&self) -> (result: &str)
        ensures
            result@ == self@.flow_type,
    {
        self.flow_type.as_str()
    }

    /// Returns the current lifecycle phase.
    pub fn status(&self) -> (result: FlowStatus)
        ensures
            result == self@.status,
    {
        self.status
    }

    /// Returns the completed step count.
    pub fn step(&self) -> (result: u32)
        ensures
            result == self@.step,
    {
        self.step
    }

    /// Returns the completed step count after one more step; the largest count stays.
    pub fn following_step(&self) -> (result: u32)
        ensures
            result == self@.following_step(),
    {
        if self.step < u32::MAX {
            self.step + 1
        } else {
            self.step
        }
    }

    /// Returns the optimistic-concurrency version.
    pub fn version(&self) -> (result: i64)
        ensures
            result == self@.version,
    {
        self.version
    }

    /// Returns the process currently responsible for the flow, when claimed.
    pub fn owner(&self) -> (result: Option<&str>)
        ensures
            match (result, self@.owner) {
                (Some(owner), Some(model)) => owner@ == model,
                (None, None) => true,
                _ => false,
            },
    {
        match &self.owner {
            Some(owner) => Some(owner.as_str()),
            None => None,
        }
    }

    /// Returns whether `owner` is responsible for the flow.
    pub fn is_owned_by(&self, owner: &str) -> (result: bool)
        ensures
            result == (self@.owner == Some(owner@)),
    {
        match &self.owner {
            Some(current) => *current == owner.to_owned(),
            None => false,
        }
    }

    /// Returns when the current owner last recorded liveness.
    pub fn heartbeat(&self) -> (result: Timestamp)
        ensures
            result@ == self@.heartbeat,
    {
        self.heartbeat
    }

    /// Returns immutable flow input without copying it.
    pub fn data(&self) -> (result: &[u8])
        ensures
            result@ == self@.data,
    {
        self.data.as_slice()
    }

    /// Returns an owned copy of the flow input.
    pub fn shared_data(&self) -> (result: Vec<u8>)
        ensures
            result@ == self@.data,
    {
        bytes::copy_bytes(&self.data)
    }

    /// Returns the terminal failure, when the flow has failed.
    pub fn error(&self) -> (result: Option<&CatgaError>)
        ensures
            match (result, self@.error) {
                (Some(failure), Some(model)) => failure@ == model,
                (None, None) => true,
                _ => false,
            },
    {
        match &self.error {
            Some(failure) => Some(failure),
            None => None,
        }
    }

    /// Returns a new state owned by `owner`, with a fresh heartbeat.
    pub fn claimed_by(self, owner: &str, now: Timestamp) -> (result: Self)
        ensures
            result@ == self@.claimed_by(owner@, now@),
    {
        FlowState { owner: Some(owner.to_owned()), heartbeat: now, ..self }
    }

    /// Returns a new state with an explicit owner heartbeat.
    pub fn heartbeated_at(self, heartbeat: Timestamp) -> (result: Self)
        ensures
            result@ == self@.heartbeated_at(heartbeat@),
    {
        FlowState { heartbeat, ..self }
    }

    /// Returns a new state at the supplied completed-step count.
    pub fn at_step(self, step: u32) -> (result: Self)
        ensures
            result@ == self@.at_step(step),
    {
        FlowState { step, ..self }
    }

    /// Marks the flow as compensating.
    pub fn compensating(self) -> (result: Self)
        ensures
            result@ == self@.compensating(),
    {
        FlowState { status: FlowStatus::Compensating, ..self }
    }

    /// Retains a failure while completed actions are being undone.
    pub fn with_error(self, error: CatgaError) -> (result: Self)
        ensures
            result@ == self@.with_error(error@),
    {
        FlowState { error: Some(error), ..self }
    }

    /// Marks the flow as persisted and waiting for a later resume.
    pub fn suspended(self) -> (result: Self)
        ensures
            result@ == self@.suspended(),
    {
        FlowState { status: FlowStatus::Suspended, owner: None, ..self }
    }

    /// Marks the flow as actively executing under its current owner.
    pub fn running(self) -> (result: Self)
        ensures
            result@ == self@.running(),
    {
        FlowState { status: FlowStatus::Running, ..self }
    }

    /// Marks the flow as successfully completed at `step`.
    pub fn done(self, step: u32) -> (result: Self)
        ensures
            result@ == self@.done(step),
    {
        FlowState { status: FlowStatus::Done, step, owner: None, error: None, ..self }
    }

    /// Marks the flow as failed, retaining the operation error.
    pub fn failed(self, error: CatgaError) -> (result: Self)
        ensures
            result@ == self@.failed(error@),
    {
        FlowState { status: FlowStatus::Failed, owner: None, error: Some(error), ..self }
    }

    /// Marks the flow as cancelled and clears active ownership.
    pub fn cancelled(self) -> (result: Self)
        ensures
            result@ == self@.cancelled(),
    {
        FlowState { status: FlowStatus::Cancelled, owner: None, error: None, ..self }
    }

    /// Returns a new state for the next optimistic-concurrency version.
    pub fn next_version(self) -> (result: CatgaResult<Self>)
        ensures
            match result {
                Ok(next) => self@.can_advance() && next@ == self@.advanced(),
                Err(failure) => !self@.can_advance() && failure@ == version_exhausted(),
            },
    {
        if self.version == i64::MAX {
            return Err(
                CatgaError::new(
                    ErrorCode::Conflict,
                    "flow state version cannot advance beyond i64::MAX",
                ),
            );
        }
        Ok(FlowState { version: self.version + 1, ..self })
    }

    /// Returns whether `next` is the exact representable successor of `expected`.
    pub fn is_next_version(expected: i64, next: i64) -> (result: bool)
        ensures
            result == (expected + 1 == next),
    {
        expected < i64::MAX && expected + 1 == next
    }

    /// Validates the bound on the flow input.
    pub fn validate(&self) -> (result: CatgaResult<()>)
        ensures
            match result {
                Ok(_) => self@.valid(),
                Err(failure) => !self@.valid() && failure@ == oversized_data(),
            },
    {
        if self.data.len() > MAX_FLOW_DATA_BYTES {
            return Err(
                CatgaError::new(ErrorCode::Validation, "flow data exceeds the durable size limit"),
            );
        }
        Ok(())
    }
}

/// The number of a lifecycle phase in a durable record.
pub open spec fn status_number(status: FlowStatus) -> u8 {
    match status {
        FlowStatus::Running => 0,
        FlowStatus::Compensating => 1,
        FlowStatus::Suspended => 2,
        FlowStatus::Done => 3,
        FlowStatus::Failed => 4,
        FlowStatus::Cancelled => 5,
    }
}

/// The lifecycle phase with a number, where there is one.
pub open spec fn numbered_status(number: u8) -> Option<FlowStatus> {
    if number == 0 {
        Some(FlowStatus::Running)
    } else if number == 1 {
        Some(FlowStatus::Compensating)
    } else if number == 2 {
        Some(FlowStatus::Suspended)
    } else if number == 3 {
        Some(FlowStatus::Done)
    } else if number == 4 {
        Some(FlowStatus::Failed)
    } else if number == 5 {
        Some(FlowStatus::Cancelled)
    } else {
        None
    }
}

fn encode_status(status: FlowStatus) -> (result: u8)
    ensures
        result == status_number(status),
{
    match status {
        FlowStatus::Running => 0,
        FlowStatus::Compensating => 1,
        FlowStatus::Suspended => 2,
        FlowStatus::Done => 3,
        FlowStatus::Failed => 4,
        FlowStatus::Cancelled => 5,
    }
}

fn decode_status(number: u8) -> (result: Option<FlowStatus>)
    ensures
        result == numbered_status(number),
{
    match number {
        0 => Some(FlowStatus::Running),
        1 => Some(FlowStatus::Compensating),
        2 => Some(FlowStatus::Suspended),
        3 => Some(FlowStatus::Done),
        4 => Some(FlowStatus::Failed),
        5 => Some(FlowStatus::Cancelled),
        _ => None,
    }
}

/// The fields of a durable flow state, in their order.
pub type StateFields = (
    (String, (String, (u8, (u32, i64)))),
    (Option<String>, (Timestamp, (Vec<u8>, Option<CatgaError>))),
);

/// The fields of a modelled flow state.
pub open spec fn state_fields(value: FlowStateView) -> (
    (Seq<char>, (Seq<char>, (u8, (u32, i64)))),
    (Option<Seq<char>>, (int, (Seq<u8>, Option<error::ErrorView>))),
) {
    (
        (value.id, (value.flow_type, (status_number(value.status), (value.step, value.version)))),
        (value.owner, (value.heartbeat, (value.data, value.error))),
    )
}

impl DeepView for FlowState {
    type V = FlowStateView;

    open spec fn deep_view(&self) -> FlowStateView {
        self@
    }
}

/// A flow state is its fields in order; one whose input is oversized is neither written nor read.
impl Record for FlowState {
    open spec fn fits(value: FlowStateView) -> bool {
        value.valid() && <StateFields as Record>::fits(state_fields(value))
    }

    open spec fn valid(value: FlowStateView) -> bool {
        true
    }

    open spec fn layout(value: FlowStateView) -> Seq<u8> {
        <StateFields as Record>::layout(state_fields(value))
    }

    open spec fn parse(bytes: Seq<u8>, at: int) -> Option<(FlowStateView, int)> {
        match <StateFields as Record>::parse(bytes, at) {
            Some((fields, next)) => {
                let ((id, (flow_type, (number, (step, version)))), rest) = fields;
                let (owner, (heartbeat, (data, error))) = rest;
                match numbered_status(number) {
                    Some(status) => if data.len() <= MAX_FLOW_DATA_BYTES {
                        Some(
                            (
                                FlowStateView {
                                    id,
                                    flow_type,
                                    status,
                                    step,
                                    version,
                                    owner,
                                    heartbeat,
                                    data,
                                    error,
                                },
                                next,
                            ),
                        )
                    } else {
                        None
                    },
                    None => None,
                }
            },
            None => None,
        }
    }

    proof fn lemma_round_trip(value: FlowStateView, bytes: Seq<u8>, at: int) {
        <StateFields as Record>::lemma_round_trip(state_fields(value), bytes, at);
    }

    proof fn lemma_progress(bytes: Seq<u8>, at: int) {
        <StateFields as Record>::lemma_progress(bytes, at);
    }

    fn write(&self, out: &mut Vec<u8>) -> (written: bool) {
        if self.data.len() > MAX_FLOW_DATA_BYTES {
            return false;
        }
        let copy: FlowState = self.clone();
        let fields: StateFields = (
            (
                copy.id,
                (copy.flow_type, (encode_status(copy.status), (copy.step, copy.version))),
            ),
            (copy.owner, (copy.heartbeat, (copy.data, copy.error))),
        );
        assert(copy.data.deep_view() =~= copy.data@);
        assert(fields.deep_view() == state_fields(self@));
        fields.write(out)
    }

    fn read(bytes: &[u8], at: usize) -> (result: Option<(Self, usize)>) {
        match <StateFields as Record>::read(bytes, at) {
            Some((fields, next)) => {
                let ((id, (flow_type, (number, (step, version)))), rest) = fields;
                let (owner, (heartbeat, (data, error))) = rest;
                assert(data.deep_view() =~= data@);
                match decode_status(number) {
                    Some(status) => {
                        if data.len() <= MAX_FLOW_DATA_BYTES {
                            let state = FlowState {
                                id,
                                flow_type,
                                status,
                                step,
                                version,
                                owner,
                                heartbeat,
                                data,
                                error,
                            };
                            Some((state, next))
                        } else {
                            None
                        }
                    },
                    None => None,
                }
            },
            None => None,
        }
    }
}

/// The changes of a state: each sets what it is named after, and the identity, the type and the input of
/// a flow never change. A flow that has ended or is suspended has no owner.
pub proof fn lemma_states_keep_their_flow(
    value: FlowStateView,
    owner: Seq<char>,
    error: error::ErrorView,
    step: u32,
    now: int,
)
    ensures
        value.claimed_by(owner, now) == (FlowStateView {
            id: value.id,
            flow_type: value.flow_type,
            status: value.status,
            step: value.step,
            version: value.version,
            owner: Some(owner),
            heartbeat: now,
            data: value.data,
            error: value.error,
        }),
        value.done(step) == (FlowStateView {
            id: value.id,
            flow_type: value.flow_type,
            status: FlowStatus::Done,
            step,
            version: value.version,
            owner: None,
            heartbeat: value.heartbeat,
            data: value.data,
            error: None,
        }),
        value.failed(error) == (FlowStateView {
            id: value.id,
            flow_type: value.flow_type,
            status: FlowStatus::Failed,
            step: value.step,
            version: value.version,
            owner: None,
            heartbeat: value.heartbeat,
            data: value.data,
            error: Some(error),
        }),
        value.cancelled() == (FlowStateView {
            id: value.id,
            flow_type: value.flow_type,
            status: FlowStatus::Cancelled,
            step: value.step,
            version: value.version,
            owner: None,
            heartbeat: value.heartbeat,
            data: value.data,
            error: None,
        }),
        value.suspended() == (FlowStateView {
            id: value.id,
            flow_type: value.flow_type,
            status: FlowStatus::Suspended,
            step: value.step,
            version: value.version,
            owner: None,
            heartbeat: value.heartbeat,
            data: value.data,
            error: value.error,
        }),
        value.version < i64::MAX ==> value.advanced().version == value.version + 1,
        value.step < u32::MAX ==> value.following_step() == value.step + 1,
        value.step == u32::MAX ==> value.following_step() == u32::MAX,
        FlowStatus::Done.spec_is_terminal(),
        FlowStatus::Failed.spec_is_terminal(),
        FlowStatus::Cancelled.spec_is_terminal(),
        !FlowStatus::Running.spec_is_terminal(),
        !FlowStatus::Compensating.spec_is_terminal(),
        !FlowStatus::Suspended.spec_is_terminal(),
        value.valid() <==> value.data.len() <= 1048576,
{
}

/// A status is read back from the number under which it is stored.
pub proof fn lemma_statuses_are_read_back(status: FlowStatus)
    ensures
        numbered_status(status_number(status)) == Some(status),
{
}

} // verus!
