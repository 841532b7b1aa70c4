//! Where a checkpointed flow starts again, and how its progress is stored.
//!
//! Each method takes what the last effect returned and answers with the next one.

use vstd::prelude::*;

use crate::bytes::copy_bytes;
use crate::dsl::DslFlow;
use crate::dsl_checkpoint;
use crate::dsl_checkpoint::{CheckpointFrame, CheckpointLevel, CheckpointWork};
use crate::dsl_cursor;
use crate::dsl_lifecycle;
use crate::dsl_lifecycle::DslRunMode;
use crate::dsl_progress;
use crate::dsl_progress::{DslProgressKind, DslStepProgress};
use crate::error;
use crate::error::{CatgaError, CatgaResult, ErrorCode};

verus! {

/// How often a conflicting write of progress is repeated.
pub const MAX_CHECKPOINT_CAS_RETRIES: usize = 3;

/// A write of one progress record under optimistic concurrency.
#[derive(Debug)]
pub struct ProgressWrite {
    flow_id: String,
    step_index: u32,
    payload: Vec<u8>,
    kind: DslProgressKind,
    attempts: usize,
}

/// Mathematical model of a [`ProgressWrite`].
pub struct WriteView {
    pub flow_id: Seq<char>,
    pub step_index: u32,
    pub payload: Seq<u8>,
    pub kind: DslProgressKind,
    pub attempts: int,
}

impl View for ProgressWrite {
    type V = WriteView;

    closed spec fn view(&self) -> WriteView {
        WriteView {
            flow_id: self.flow_id@,
            step_index: self.step_index,
            payload: self.payload@,
            kind: self.kind,
            attempts: self.attempts as int,
        }
    }
}

/// The next effect of a write.
#[derive(Debug)]
pub enum WriteStep {
    /// Create the record unless one exists, then call [`ProgressWrite::created`].
    Create { write: ProgressWrite, record: DslStepProgress },
    /// Load the record, then call [`ProgressWrite::loaded`].
    Load { write: ProgressWrite },
    /// Replace the record of the expected version, then call [`ProgressWrite::updated`].
    Update { write: ProgressWrite, expected_version: i64, record: DslStepProgress },
    /// The write ends with this result.
    Finish(CatgaResult<()>),
}

/// Mathematical model of a [`WriteStep`].
pub enum WriteStepView {
    Create { write: WriteView, record: dsl_progress::ProgressView },
    Load { write: WriteView },
    Update { write: WriteView, expected_version: i64, record: dsl_progress::ProgressView },
    Finish(Result<(), error::ErrorView>),
}

impl View for WriteStep {
    type V = WriteStepView;

    open spec fn view(&self) -> WriteStepView {
        match *self {
            WriteStep::Create { write, record } => WriteStepView::Create {
                write: write@,
                record: record@,
            },
            WriteStep::Load { write } => WriteStepView::Load { write: write@ },
            WriteStep::Update { write, expected_version, record } => WriteStepView::Update {
                write: write@,
                expected_version,
                record: record@,
            },
            WriteStep::Finish(result) => WriteStepView::Finish(error::unit_result(result)),
        }
    }
}

/// The model of a loaded record.
pub open spec fn progress_result(result: CatgaResult<Option<DslStepProgress>>) -> Result<
    Option<dsl_progress::ProgressView>,
    error::ErrorView,
> {
    match result {
        Ok(Some(record)) => Ok(Some(record@)),
        Ok(None) => Ok(None),
        Err(failure) => Err(failure@),
    }
}

impl WriteView {
    /// The record that is created where none exists.
    pub open spec fn first_record(self) -> dsl_progress::ProgressView {
        dsl_progress::ProgressView {
            kind: self.kind,
            ..dsl_progress::ProgressView::initial(self.flow_id, self.step_index, self.payload)
        }
    }

    /// The record that replaces an existing one.
    pub open spec fn next_record(self, current: dsl_progress::ProgressView) ->
        dsl_progress::ProgressView {
        dsl_progress::ProgressView { kind: self.kind, ..current.advanced(self.payload) }
    }

    /// What follows a creation.
    pub open spec fn after_create(self, result: Result<bool, error::ErrorView>) -> WriteStepView {
        match result {
            Err(failure) => WriteStepView::Finish(Err(failure)),
            Ok(true) => WriteStepView::Finish(Ok(())),
            Ok(false) => WriteStepView::Load { write: self },
        }
    }

    /// What follows a load.
    pub open spec fn after_load(
        self,
        result: Result<Option<dsl_progress::ProgressView>, error::ErrorView>,
    ) -> WriteStepView {
        match result {
            Err(failure) => WriteStepView::Finish(Err(failure)),
            Ok(None) => WriteStepView::Finish(
                Err(
                    error::plain_error(
                        ErrorCode::Conflict,
                        "DSL checkpoint disappeared while updating its cursor"@,
                    ),
                ),
            ),
            Ok(Some(current)) => if current.can_advance() {
                WriteStepView::Update {
                    write: self,
                    expected_version: current.version,
                    record: self.next_record(current),
                }
            } else {
                WriteStepView::Finish(Err(dsl_progress::progress_version_exhausted()))
            },
        }
    }

    /// What follows a replacement.
    pub open spec fn after_update(self, result: Result<bool, error::ErrorView>) -> WriteStepView {
        match result {
            Err(failure) => WriteStepView::Finish(Err(failure)),
            Ok(true) => WriteStepView::Finish(Ok(())),
            Ok(false) => if self.attempts + 1 < MAX_CHECKPOINT_CAS_RETRIES {
                WriteStepView::Load { write: WriteView { attempts: self.attempts + 1, ..self } }
            } else {
                WriteStepView::Finish(
                    Err(
                        error::plain_error(
                            ErrorCode::Conflict,
                            "DSL checkpoint cursor update conflicted after bounded retries"@,
                        ),
                    ),
                )
            },
        }
    }
}

impl ProgressWrite {
    /// Starts to store the progress of a top-level step.
    pub fn start(
        flow_id: &str,
        step_index: u32,
        payload: Vec<u8>,
        kind: DslProgressKind,
    ) -> (step: WriteStep)
        ensures
            ({
                let write = WriteView {
                    flow_id: flow_id@,
                    step_index,
                    payload: payload@,
                    kind,
                    attempts: 0,
                };
                step@ == (WriteStepView::Create { write, record: write.first_record() })
            }),
    {
        let first: DslStepProgress = DslStepProgress::new(
            flow_id,
            step_index,
            copy_bytes(&payload),
        );
        let record: DslStepProgress = match kind {
            DslProgressKind::ApplicationState => first,
            DslProgressKind::CheckpointFrame => first.checkpoint_frame(copy_bytes(&payload)),
            DslProgressKind::Terminal => first.terminal(copy_bytes(&payload)),
        };
        let write = ProgressWrite {
            flow_id: flow_id.to_owned(),
            step_index,
            payload,
            kind,
            attempts: 0,
        };
        WriteStep::Create { write, record }
    }

    /// Returns the flow whose progress is written.
    pub fn flow_id(&self) -> (result: &str)
        ensures
            result@ == self@.flow_id,
    {
        self.flow_id.as_str()
    }

    /// Returns the top-level step whose progress is written.
    pub fn step_index(&self) -> (result: u32)
        ensures
            result == self@.step_index,
    {
        self.step_index
    }

    /// Goes on after the record was created, or one existed.
    pub fn created(self, result: CatgaResult<bool>) -> (step: WriteStep)
        ensures
            step@ == self@.after_create(error::flag_result(result)),
    {
        match result {
            Err(failure) => WriteStep::Finish(Err(failure)),
            Ok(created) => {
                if created {
                    WriteStep::Finish(Ok(()))
                } else {
                    WriteStep::Load { write: self }
                }
            },
        }
    }

    /// Goes on after the existing record was loaded.
    pub fn loaded(self, result: CatgaResult<Option<DslStepProgress>>) -> (step: WriteStep)
        ensures
            step@ == self@.after_load(progress_result(result)),
    {
        let current: DslStepProgress = match result {
            Err(failure) => {
                return WriteStep::Finish(Err(failure));
            },
            Ok(None) => {
                return WriteStep::Finish(
                    Err(
                        CatgaError::new(
                            ErrorCode::Conflict,
                            "DSL checkpoint disappeared while updating its cursor",
                        ),
                    ),
                );
            },
            Ok(Some(current)) => current,
        };
        let expected_version: i64 = current.version();
        let next: CatgaResult<DslStepProgress> = match self.kind {
            DslProgressKind::ApplicationState => current.completed_application_state(
                copy_bytes(&self.payload),
            ),
            DslProgressKind::CheckpointFrame => match current.next_version(
                copy_bytes(&self.payload),
            ) {
                Ok(next) => Ok(next.checkpoint_frame(copy_bytes(&self.payload))),
                Err(failure) => Err(failure),
            },
            DslProgressKind::Terminal => match current.next_version(copy_bytes(&self.payload)) {
                Ok(next) => Ok(next.terminal(copy_bytes(&self.payload))),
                Err(failure) => Err(failure),
            },
        };
        match next {
            Ok(record) => WriteStep::Update { write: self, expected_version, record },
            Err(failure) => WriteStep::Finish(Err(failure)),
        }
    }

    /// Goes on after the record was replaced, or another writer was faster.
    pub fn updated(self, result: CatgaResult<bool>) -> (step: WriteStep)
        ensures
            step@ == self@.after_update(error::flag_result(result)),
    {
        match result {
            Err(failure) => WriteStep::Finish(Err(failure)),
            Ok(updated) => {
                if updated {
                    WriteStep::Finish(Ok(()))
                } else if self.attempts < MAX_CHECKPOINT_CAS_RETRIES - 1 {
                    WriteStep::Load {
                        write: ProgressWrite { attempts: self.attempts + 1, ..self },
                    }
                } else {
                    WriteStep::Finish(
                        Err(
                            CatgaError::new(
                                ErrorCode::Conflict,
                                "DSL checkpoint cursor update conflicted after bounded retries",
                            ),
                        ),
                    )
                }
            },
        }
    }
}

/// A replacement follows the loaded record without a gap, belongs to the same step of the same
/// flow, and holds the written payload.
pub proof fn lemma_replacements_are_fenced(
    write: WriteView,
    current: dsl_progress::ProgressView,
)
    ensures
        write.after_load(Ok(Some(current))) matches WriteStepView::Update {
            expected_version,
            record,
            ..
        } ==> {
            &&& expected_version == current.version
            &&& record.version == expected_version + 1
            &&& record.flow_id == current.flow_id
            &&& record.step_index == current.step_index
            &&& record.payload == write.payload
            &&& record.kind == write.kind
        },
{
}

/// Where a checkpointed flow starts.
#[derive(Debug)]
pub enum StartStep {
    /// Load the record of the final state, then call [`DslFlow::terminal_loaded`].
    LoadTerminal,
    /// Load the record of a step, then call [`DslFlow::progress_loaded`] with it.
    Load { step_index: u32 },
    /// The flow has completed with this encoded state.
    Completed { payload: Vec<u8> },
    /// Start with the initial state.
    Fresh,
    /// Start at a step with this encoded state, and with this path and progress in it.
    Resume {
        payload: Vec<u8>,
        start: usize,
        levels: Vec<CheckpointLevel>,
        work: Option<CheckpointWork>,
    },
    /// The flow cannot start.
    Fail(CatgaError),
}

/// Mathematical model of a [`StartStep`].
pub enum StartStepView {
    LoadTerminal,
    Load { step_index: u32 },
    Completed { payload: Seq<u8> },
    Fresh,
    Resume {
        payload: Seq<u8>,
        start: int,
        levels: Seq<CheckpointLevel>,
        work: Option<dsl_checkpoint::WorkView>,
    },
    Fail(error::ErrorView),
}

impl View for StartStep {
    type V = StartStepView;

    open spec fn view(&self) -> StartStepView {
        match *self {
            StartStep::LoadTerminal => StartStepView::LoadTerminal,
            StartStep::Load { step_index } => StartStepView::Load { step_index },
            StartStep::Completed { payload } => StartStepView::Completed { payload: payload@ },
            StartStep::Fresh => StartStepView::Fresh,
            StartStep::Resume { payload, start, levels, work } => StartStepView::Resume {
                payload: payload@,
                start: start as int,
                levels: levels@,
                work: dsl_cursor::work_option(work),
            },
            StartStep::Fail(failure) => StartStepView::Fail(failure@),
        }
    }
}

/// Which record is loaded when no step from `bound` on has one.
pub open spec fn scan_below(bound: int) -> StartStepView {
    if bound <= 0 {
        StartStepView::Fresh
    } else if !dsl_lifecycle::is_numbered(bound - 1) {
        StartStepView::Fail(dsl_lifecycle::step_index_exhausted())
    } else {
        StartStepView::Load { step_index: (bound - 1) as u32 }
    }
}

/// The step after a completed one; no step follows the largest number.
pub open spec fn following_step(step_index: u32) -> int {
    if step_index < u32::MAX {
        step_index + 1
    } else {
        step_index as int
    }
}

/// Where a flow starts that has a record at a step.
pub open spec fn start_from(step_index: u32, record: dsl_progress::ProgressView) -> StartStepView {
    if record.kind != DslProgressKind::CheckpointFrame {
        StartStepView::Resume {
            payload: record.payload,
            start: following_step(step_index),
            levels: Seq::empty(),
            work: None,
        }
    } else if !dsl_checkpoint::is_frame(record.payload) {
        StartStepView::Fail(
            error::validation("DSL checkpoint frame record has no internal frame payload"@),
        )
    } else {
        match dsl_checkpoint::frame_outcome(record.payload) {
            Ok(frame) => StartStepView::Resume {
                payload: frame.state,
                start: step_index as int,
                levels: frame.levels,
                work: Some(frame.work),
            },
            Err(message) => StartStepView::Fail(error::validation(message)),
        }
    }
}

/// What follows the load of the record of a step.
pub open spec fn after_progress(
    step_index: u32,
    result: Result<Option<dsl_progress::ProgressView>, error::ErrorView>,
) -> StartStepView {
    match result {
        Err(failure) => StartStepView::Fail(failure),
        Ok(None) => scan_below(step_index as int),
        Ok(Some(record)) => start_from(step_index, record),
    }
}

/// What follows the load of the record of the final state.
pub open spec fn after_terminal(
    length: int,
    result: Result<Option<dsl_progress::ProgressView>, error::ErrorView>,
) -> StartStepView {
    match result {
        Err(failure) => StartStepView::Fail(failure),
        Ok(None) => scan_below(length),
        Ok(Some(record)) => if record.kind == DslProgressKind::Terminal {
            StartStepView::Completed { payload: record.payload }
        } else {
            StartStepView::Fail(
                error::plain_error(
                    ErrorCode::Conflict,
                    "DSL terminal checkpoint slot holds another record"@,
                ),
            )
        },
    }
}

fn load_below(bound: usize) -> (step: StartStep)
    ensures
        step@ == scan_below(bound as int),
{
    if bound == 0 {
        StartStep::Fresh
    } else if bound > 4294967295 {
        StartStep::Fail(CatgaError::new(ErrorCode::Internal, "DSL step index exceeds u32"))
    } else {
        StartStep::Load { step_index: (bound - 1) as u32 }
    }
}

impl<A> DslFlow<A> {
    /// Runs a named flow from its latest durable checkpoint: looks first for its final state.
    ///
    /// The caller must hold an exclusive lease of the flow.
    pub fn run_checkpointed(&self) -> (step: StartStep)
        ensures
            step@ == StartStepView::LoadTerminal,
    {
        self.find_start(DslRunMode::Checkpointed)
    }

    /// Looks for the latest durable checkpoint of a flow or of a branch.
    pub fn find_start(&self, mode: DslRunMode) -> (step: StartStep)
        ensures
            step@ == match mode {
                DslRunMode::Local => StartStepView::Fresh,
                DslRunMode::Checkpointed => StartStepView::LoadTerminal,
                DslRunMode::CheckpointedBranch => scan_below(self@.len() as int),
            },
    {
        match mode {
            DslRunMode::Local => StartStep::Fresh,
            DslRunMode::Checkpointed => StartStep::LoadTerminal,
            DslRunMode::CheckpointedBranch => load_below(self.len()),
        }
    }

    /// Goes on after the record of the final state was loaded.
    pub fn terminal_loaded(&self, result: CatgaResult<Option<DslStepProgress>>) -> (step: StartStep)
        ensures
            step@ == after_terminal(self@.len() as int, progress_result(result)),
    {
        match result {
            Err(failure) => StartStep::Fail(failure),
            Ok(None) => load_below(self.len()),
            Ok(Some(record)) => {
                if record.kind() == DslProgressKind::Terminal {
                    StartStep::Completed { payload: record.into_payload() }
                } else {
                    StartStep::Fail(
                        CatgaError::new(
                            ErrorCode::Conflict,
                            "DSL terminal checkpoint slot holds another record",
                        ),
                    )
                }
            },
        }
    }

    /// Goes on after the record of a step was loaded.
    pub fn progress_loaded(
        &self,
        step_index: u32,
        result: CatgaResult<Option<DslStepProgress>>,
    ) -> (step: StartStep)
        ensures
            step@ == after_progress(step_index, progress_result(result)),
    {
        let record: DslStepProgress = match result {
            Err(failure) => {
                return StartStep::Fail(failure);
            },
            Ok(None) => {
                return load_below(step_index as usize);
            },
            Ok(Some(record)) => record,
        };
        if record.kind() != DslProgressKind::CheckpointFrame {
            let start: u32 = if step_index < u32::MAX {
                step_index + 1
            } else {
                step_index
            };
            return StartStep::Resume {
                payload: record.into_payload(),
                start: start as usize,
                levels: Vec::new(),
                work: None,
            };
        }
        match CheckpointFrame::decode(record.payload()) {
            Err(failure) => StartStep::Fail(failure),
            Ok(None) => StartStep::Fail(
                CatgaError::new(
                    ErrorCode::Validation,
                    "DSL checkpoint frame record has no internal frame payload",
                ),
            ),
            Ok(Some(frame)) => StartStep::Resume {
                payload: frame.state,
                start: step_index as usize,
                levels: frame.levels,
                work: Some(frame.work),
            },
        }
    }
}

/// The whole search below a bound, given what the store holds for each step.
pub open spec fn whole_search(
    records: spec_fn(u32) -> Option<dsl_progress::ProgressView>,
    bound: nat,
) -> StartStepView
    decreases bound,
{
    match scan_below(bound as int) {
        StartStepView::Load { step_index } => match records(step_index) {
            Some(record) => after_progress(step_index, Ok(Some(record))),
            None => whole_search(records, step_index as nat),
        },
        other => other,
    }
}

/// The search ends at the latest step that has a record; without one the flow starts afresh.
pub proof fn lemma_search_finds_the_latest_record(
    records: spec_fn(u32) -> Option<dsl_progress::ProgressView>,
    bound: nat,
    latest: u32,
)
    requires
        bound <= u32::MAX,
        latest < bound,
        forall|later: u32| latest < later < bound ==> #[trigger] records(later) is None,
    ensures
        records(latest) matches Some(record) ==> whole_search(records, bound) == start_from(
            latest,
            record,
        ),
        records(latest) is None && (forall|earlier: u32|
            earlier < latest ==> #[trigger] records(earlier) is None) ==> whole_search(
            records,
            bound,
        ) == StartStepView::Fresh,
    decreases bound,
{
    let place = (bound - 1) as u32;
    if place == latest {
        if records(latest) is None && (forall|earlier: u32|
            earlier < latest ==> #[trigger] records(earlier) is None) {
            if latest > 0 {
                lemma_search_finds_the_latest_record(records, latest as nat, (latest - 1) as u32);
            } else {
                assert(whole_search(records, 0) == StartStepView::Fresh);
            }
        }
    } else {
        assert(records(place) is None);
        lemma_search_finds_the_latest_record(records, place as nat, latest);
    }
}

} // verus!
