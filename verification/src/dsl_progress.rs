//! Versioned progress records of checkpointed DSL flows.

use vstd::prelude::*;

use crate::bytes::copy_bytes;
use crate::error;
use crate::error::{CatgaError, CatgaResult, ErrorCode};

verus! {

/// Slot that holds the final state of a completed checkpointed flow.
pub const TERMINAL_STEP_INDEX: u32 = u32::MAX;

/// What the payload of a progress record holds.
#[derive(Clone, Copy, Debug, PartialEq, Eq, Structural)]
pub enum DslProgressKind {
    /// The application state after a completed top-level step.
    ApplicationState,
    /// A cursor into a top-level step that has not completed.
    CheckpointFrame,
    /// The application state after the whole flow.
    Terminal,
}

/// Mathematical model of a [`DslStepProgress`].
pub struct ProgressView {
    pub flow_id: Seq<char>,
    pub step_index: u32,
    pub version: i64,
    pub payload: Seq<u8>,
    pub kind: DslProgressKind,
}

/// The failure of a record whose version cannot grow any more.
pub open spec fn progress_version_exhausted() -> error::ErrorView {
    error::plain_error(ErrorCode::Conflict, "DSL progress version is exhausted"@)
}

impl ProgressView {
    /// The first record of a top-level step.
    pub open spec fn initial(flow_id: Seq<char>, step_index: u32, payload: Seq<u8>) -> Self {
        ProgressView {
            flow_id,
            step_index,
            version: 0,
            payload,
            kind: DslProgressKind::ApplicationState,
        }
    }

    /// The record that holds a cursor.
    pub open spec fn checkpoint_frame(self, payload: Seq<u8>) -> Self {
        ProgressView { payload, kind: DslProgressKind::CheckpointFrame, ..self }
    }

    /// The record that holds the final state of the flow.
    pub open spec fn terminal(self, payload: Seq<u8>) -> Self {
        ProgressView { payload, kind: DslProgressKind::Terminal, ..self }
    }

    /// Whether a following version exists.
    pub open spec fn can_advance(self) -> bool {
        self.version < i64::MAX
    }

    /// The following version with another payload.
    pub open spec fn advanced(self, payload: Seq<u8>) -> Self {
        ProgressView { version: (self.version + 1) as i64, payload, ..self }
    }

    /// The following version, which holds the state after the completed step.
    pub open spec fn completed(self, payload: Seq<u8>) -> Self {
        ProgressView { kind: DslProgressKind::ApplicationState, ..self.advanced(payload) }
    }
}

/// One versioned progress record of a top-level step.
#[derive(Debug)]
pub struct DslStepProgress {
    flow_id: String,
    step_index: u32,
    version: i64,
    payload: Vec<u8>,
    kind: DslProgressKind,
}

impl View for DslStepProgress {
    type V = ProgressView;

    closed spec fn view(&self) -> ProgressView {
        ProgressView {
            flow_id: self.flow_id@,
            step_index: self.step_index,
            version: self.version,
            payload: self.payload@,
            kind: self.kind,
        }
    }
}

impl Clone for DslStepProgress {
    fn clone(&self) -> (result: Self)
        ensures
            result@ == self@,
    {
        let payload: Vec<u8> = copy_bytes(&self.payload);
        DslStepProgress {
            flow_id: self.flow_id.clone(),
            step_index: self.step_index,
            version: self.version,
            payload,
            kind: self.kind,
        }
    }
}

impl DslStepProgress {
    /// Creates the first record of a top-level step; it holds application state.
    pub fn new(flow_id: &str, step_index: u32, payload: Vec<u8>) -> (result: Self)
        ensures
            result@ == ProgressView::initial(flow_id@, step_index, payload@),
    {
        DslStepProgress {
            flow_id: flow_id.to_owned(),
            step_index,
            version: 0,
            payload,
            kind: DslProgressKind::ApplicationState,
        }
    }

    /// Returns this record with a cursor as its payload.
    pub fn checkpoint_frame(self, payload: Vec<u8>) -> (result: Self)
        ensures
            result@ == self@.checkpoint_frame(payload@),
    {
        DslStepProgress { payload, kind: DslProgressKind::CheckpointFrame, ..self }
    }

    /// Returns this record with the final state of the flow as its payload.
    pub fn terminal(self, payload: Vec<u8>) -> (result: Self)
        ensures
            result@ == self@.terminal(payload@),
    {
        DslStepProgress { payload, kind: DslProgressKind::Terminal, ..self }
    }

    /// Returns the flow that the record belongs to.
    pub fn flow_id(&self) -> (result: &str)
        ensures
            result@ == self@.flow_id,
    {
        self.flow_id.as_str()
    }

    /// Returns the top-level step that the record belongs to.
    pub fn step_index(&self) -> (result: u32)
        ensures
            result == self@.step_index,
    {
        self.step_index
    }

    /// Returns the optimistic version.
    pub fn version(&self) -> (result: i64)
        ensures
            result == self@.version,
    {
        self.version
    }

    /// Returns the payload.
    pub fn payload(&self) -> (result: &[u8])
        ensures
            result@ == self@.payload,
    {
        self.payload.as_slice()
    }

    /// Consumes the record and returns its payload.
    pub fn into_payload(self) -> (result: Vec<u8>)
        ensures
            result@ == self@.payload,
    {
        self.payload
    }

    /// Returns what the payload holds.
    pub fn kind(&self) -> (result: DslProgressKind)
        ensures
            result == self@.kind,
    {
        self.kind
    }

    /// Creates the following version with another payload of the same kind.
    pub fn next_version(&self, payload: Vec<u8>) -> (result: CatgaResult<Self>)
        ensures
            match result {
                Ok(next) => self@.can_advance() && next@ == self@.advanced(payload@),
                Err(failure) => !self@.can_advance() && failure@ == progress_version_exhausted(),
            },
    {
        if self.version == i64::MAX {
            return Err(CatgaError::new(ErrorCode::Conflict, "DSL progress version is exhausted"));
        }
        Ok(
            DslStepProgress {
                flow_id: self.flow_id.clone(),
                step_index: self.step_index,
                version: self.version + 1,
                payload,
                kind: self.kind,
            },
        )
    }

    /// Creates the following version, which holds the state after the completed step.
    pub fn completed_application_state(&self, payload: Vec<u8>) -> (result: CatgaResult<Self>)
        ensures
            match result {
                Ok(next) => self@.can_advance() && next@ == self@.completed(payload@),
                Err(failure) => !self@.can_advance() && failure@ == progress_version_exhausted(),
            },
    {
        match self.next_version(payload) {
            Ok(next) => Ok(DslStepProgress { kind: DslProgressKind::ApplicationState, ..next }),
            Err(failure) => Err(failure),
        }
    }

    /// Whether `next` follows `expected` without a gap.
    pub fn is_next_version(expected: i64, next: i64) -> (result: bool)
        ensures
            result == (next == expected + 1),
    {
        expected < i64::MAX && next == expected + 1
    }
}

} // verus!
