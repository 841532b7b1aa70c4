//! Branch-local progress for durable parallel DSL recovery.

use vstd::prelude::*;

use crate::bytes::copy_range;
use crate::dsl_checkpoint;
use crate::dsl_checkpoint::{
    clone_payload, CheckpointFrame, CheckpointLevel, CheckpointWork, ParallelBranchProgress,
};
use crate::dsl_cursor;
use crate::dsl_progress;
use crate::dsl_progress::{DslProgressKind, DslStepProgress};
use crate::error;
use crate::error::{CatgaError, CatgaResult, ErrorCode};
use crate::state;
use crate::text::same_text;

verus! {

/// Largest number of branches of a checkpointed parallel step.
pub const MAX_CHECKPOINT_PARALLEL_BRANCHES: usize = 64;

/// Largest payload of one branch, and largest sum of the payloads of all branches.
pub const MAX_PARALLEL_BRANCH_PAYLOAD_BYTES: usize = 1048576;

/// The bytes that the progress of a branch keeps.
pub open spec fn branch_bytes(branch: dsl_checkpoint::BranchProgressView) -> Seq<u8> {
    match branch {
        dsl_checkpoint::BranchProgressView::Completed { state } => state,
        dsl_checkpoint::BranchProgressView::InProgress { payload, .. } => payload,
    }
}

/// The size of the progress of a branch, where it has any.
pub open spec fn branch_size(branch: Option<dsl_checkpoint::BranchProgressView>) -> nat {
    match branch {
        Some(branch) => branch_bytes(branch).len(),
        None => 0,
    }
}

/// The sum of the sizes of all branches but the one at `index`.
pub open spec fn other_size(
    saved: Seq<Option<dsl_checkpoint::BranchProgressView>>,
    index: int,
) -> nat
    decreases saved.len(),
{
    if saved.len() == 0 {
        0
    } else {
        other_size(saved.drop_last(), index) + if saved.len() - 1 == index {
            0
        } else {
            branch_size(saved.last())
        }
    }
}

/// The sum of the sizes of all branches.
pub open spec fn saved_size(saved: Seq<Option<dsl_checkpoint::BranchProgressView>>) -> nat {
    other_size(saved, -1)
}

/// Why one of the branches is too large: the first that exceeds a limit decides.
pub open spec fn branch_failure(saved: Seq<Option<dsl_checkpoint::BranchProgressView>>) -> Option<
    Seq<char>,
>
    decreases saved.len(),
{
    if saved.len() == 0 {
        None
    } else if let Some(message) = branch_failure(saved.drop_last()) {
        Some(message)
    } else if branch_size(saved.last()) > MAX_PARALLEL_BRANCH_PAYLOAD_BYTES {
        Some("parallel branch checkpoint payload exceeds the size limit"@)
    } else if saved_size(saved) > usize::MAX {
        Some("parallel branch checkpoint payload size overflow"@)
    } else {
        None
    }
}

/// Why saved branches are too large, or `None` where they are not.
pub open spec fn saved_failure(saved: Seq<Option<dsl_checkpoint::BranchProgressView>>) -> Option<
    Seq<char>,
> {
    match branch_failure(saved) {
        Some(message) => Some(message),
        None => if saved_size(saved) > MAX_PARALLEL_BRANCH_PAYLOAD_BYTES {
            Some("parallel branch checkpoint payloads exceed the aggregate size limit"@)
        } else {
            None
        },
    }
}

/// Why the branch at `index` cannot keep a payload of a size beside the others.
pub open spec fn replacement_failure(
    saved: Seq<Option<dsl_checkpoint::BranchProgressView>>,
    index: int,
    size: nat,
) -> Option<Seq<char>> {
    if size > MAX_PARALLEL_BRANCH_PAYLOAD_BYTES {
        Some("parallel branch checkpoint payload exceeds the size limit"@)
    } else if size + other_size(saved, index) > usize::MAX {
        Some("parallel branch checkpoint payload size overflow"@)
    } else if size + other_size(saved, index) > MAX_PARALLEL_BRANCH_PAYLOAD_BYTES {
        Some("parallel branch checkpoint payloads exceed the aggregate size limit"@)
    } else {
        None
    }
}

/// Whether a result accepts, or rejects with the expected message.
pub open spec fn verdict(result: CatgaResult<()>, failure: Option<Seq<char>>) -> bool {
    match (result, failure) {
        (Ok(_), None) => true,
        (Err(returned), Some(message)) => returned@ == error::validation(message),
        _ => false,
    }
}

fn reject(message: &str) -> (result: CatgaError)
    ensures
        result@ == error::validation(message@),
{
    CatgaError::new(ErrorCode::Validation, message)
}

proof fn lemma_other_size_grows(
    saved: Seq<Option<dsl_checkpoint::BranchProgressView>>,
    index: int,
    count: int,
)
    requires
        0 <= count <= saved.len(),
    ensures
        other_size(saved.take(count), index) <= other_size(saved, index),
    decreases saved.len(),
{
    if count == saved.len() {
        assert(saved.take(count) =~= saved);
    } else {
        let init = saved.drop_last();
        assert(init.take(count) =~= saved.take(count));
        lemma_other_size_grows(init, index, count);
    }
}

proof fn lemma_early_branch_failure(
    saved: Seq<Option<dsl_checkpoint::BranchProgressView>>,
    count: int,
)
    requires
        0 <= count <= saved.len(),
        branch_failure(saved.take(count)) is Some,
    ensures
        branch_failure(saved) == branch_failure(saved.take(count)),
    decreases saved.len(),
{
    if count == saved.len() {
        assert(saved.take(count) =~= saved);
    } else {
        let init = saved.drop_last();
        assert(init.take(count) =~= saved.take(count));
        lemma_early_branch_failure(init, count);
    }
}

fn size_of_branch(branch: &Option<ParallelBranchProgress>) -> (result: usize)
    ensures
        result == branch_size(branch.deep_view()),
{
    match branch {
        None => 0,
        Some(ParallelBranchProgress::Completed { state }) => state.len(),
        Some(
            ParallelBranchProgress::InProgress { step_index: _, checkpoint_frame: _, payload },
        ) => payload.len(),
    }
}

fn validate_saved_progress(saved: &Vec<Option<ParallelBranchProgress>>) -> (result: CatgaResult<()>)
    ensures
        verdict(result, saved_failure(saved.deep_view())),
{
    let ghost model = saved.deep_view();
    let mut total: usize = 0;
    let mut index: usize = 0;
    assert(model.take(0) =~= Seq::empty());
    while index < saved.len()
        invariant
            index <= saved@.len(),
            model == saved.deep_view(),
            branch_failure(model.take(index as int)) is None,
            total == saved_size(model.take(index as int)),
        decreases saved@.len() - index,
    {
        let size: usize = size_of_branch(&saved[index]);
        let ghost longer = model.take(index + 1);
        proof {
            assert(longer.drop_last() =~= model.take(index as int));
            assert(longer.last() == model[index as int]);
        }
        if size > MAX_PARALLEL_BRANCH_PAYLOAD_BYTES {
            proof {
                lemma_early_branch_failure(model, index + 1);
            }
            return Err(reject("parallel branch checkpoint payload exceeds the size limit"));
        }
        total = match total.checked_add(size) {
            Some(total) => total,
            None => {
                proof {
                    lemma_early_branch_failure(model, index + 1);
                }
                return Err(reject("parallel branch checkpoint payload size overflow"));
            },
        };
        index = index + 1;
    }
    assert(model.take(index as int) =~= model);
    if total > MAX_PARALLEL_BRANCH_PAYLOAD_BYTES {
        return Err(
            reject("parallel branch checkpoint payloads exceed the aggregate size limit"),
        );
    }
    Ok(())
}

fn validate_replacement_payload(
    saved: &Vec<Option<ParallelBranchProgress>>,
    index: usize,
    size: usize,
) -> (result: CatgaResult<()>)
    ensures
        verdict(result, replacement_failure(saved.deep_view(), index as int, size as nat)),
{
    let ghost model = saved.deep_view();
    if size > MAX_PARALLEL_BRANCH_PAYLOAD_BYTES {
        return Err(reject("parallel branch checkpoint payload exceeds the size limit"));
    }
    let mut total: usize = size;
    let mut at: usize = 0;
    assert(model.take(0) =~= Seq::empty());
    while at < saved.len()
        invariant
            at <= saved@.len(),
            model == saved.deep_view(),
            size <= MAX_PARALLEL_BRANCH_PAYLOAD_BYTES,
            total == size + other_size(model.take(at as int), index as int),
        decreases saved@.len() - at,
    {
        let ghost longer = model.take(at + 1);
        proof {
            assert(longer.drop_last() =~= model.take(at as int));
            assert(longer.last() == model[at as int]);
            lemma_other_size_grows(model, index as int, at + 1);
        }
        if at != index {
            total = match total.checked_add(size_of_branch(&saved[at])) {
                Some(total) => total,
                None => {
                    return Err(reject("parallel branch checkpoint payload size overflow"));
                },
            };
        }
        at = at + 1;
    }
    assert(model.take(at as int) =~= model);
    if total > MAX_PARALLEL_BRANCH_PAYLOAD_BYTES {
        return Err(
            reject("parallel branch checkpoint payloads exceed the aggregate size limit"),
        );
    }
    Ok(())
}

/// The progress of one branch while it runs: the record of the latest step that stored any.
#[derive(Debug)]
pub struct BranchProgressStore {
    progress: Option<DslStepProgress>,
}

pub open spec fn progress_option(progress: Option<DslStepProgress>) -> Option<
    dsl_progress::ProgressView,
> {
    match progress {
        Some(progress) => Some(progress@),
        None => None,
    }
}

impl View for BranchProgressStore {
    type V = Option<dsl_progress::ProgressView>;

    closed spec fn view(&self) -> Option<dsl_progress::ProgressView> {
        progress_option(self.progress)
    }
}

/// What a branch starts with, or why its saved progress is rejected.
pub open spec fn branch_start(saved: Option<dsl_checkpoint::BranchProgressView>) -> Result<
    Option<dsl_progress::ProgressView>,
    Seq<char>,
> {
    if branch_size(saved) > MAX_PARALLEL_BRANCH_PAYLOAD_BYTES {
        Err("parallel branch checkpoint payload exceeds the size limit"@)
    } else {
        match saved {
            Some(
                dsl_checkpoint::BranchProgressView::InProgress {
                    step_index,
                    checkpoint_frame,
                    payload,
                },
            ) => {
                let record = dsl_progress::ProgressView::initial("branch"@, step_index, payload);
                if !checkpoint_frame {
                    Ok(Some(record))
                } else if !dsl_checkpoint::is_frame(payload) {
                    Err("parallel branch checkpoint payload has no internal frame"@)
                } else {
                    match dsl_checkpoint::frame_outcome(payload) {
                        Ok(_) => Ok(Some(record.checkpoint_frame(payload))),
                        Err(message) => Err(message),
                    }
                }
            },
            _ => Ok(None),
        }
    }
}

/// Whether a record belongs to a step of a flow.
pub open spec fn is_record_of(
    record: dsl_progress::ProgressView,
    flow_id: Seq<char>,
    step_index: u32,
) -> bool {
    record.flow_id == flow_id && record.step_index == step_index
}

/// Whether a record may replace the stored one.
pub open spec fn replaces(
    stored: Option<dsl_progress::ProgressView>,
    expected_version: i64,
    next: dsl_progress::ProgressView,
) -> bool {
    match stored {
        Some(saved) => {
            &&& is_record_of(saved, next.flow_id, next.step_index)
            &&& saved.version == expected_version
            &&& next.version == expected_version + 1
        },
        None => false,
    }
}

impl BranchProgressStore {
    /// Creates the store of a branch from its saved progress.
    pub fn from_saved(saved: Option<&ParallelBranchProgress>) -> (result: CatgaResult<Self>)
        ensures
            match (
                result,
                branch_start(
                    match saved {
                        Some(saved) => Some(saved@),
                        None => None,
                    },
                ),
            ) {
                (Ok(store), Ok(progress)) => store@ == progress,
                (Err(failure), Err(message)) => failure@ == error::validation(message),
                _ => false,
            },
    {
        match saved {
            None => Ok(BranchProgressStore { progress: None }),
            Some(ParallelBranchProgress::Completed { state }) => {
                if state.len() > MAX_PARALLEL_BRANCH_PAYLOAD_BYTES {
                    return Err(reject("parallel branch checkpoint payload exceeds the size limit"));
                }
                Ok(BranchProgressStore { progress: None })
            },
            Some(ParallelBranchProgress::InProgress { step_index, checkpoint_frame, payload }) => {
                assert(payload.deep_view() =~= payload@);
                if payload.len() > MAX_PARALLEL_BRANCH_PAYLOAD_BYTES {
                    return Err(reject("parallel branch checkpoint payload exceeds the size limit"));
                }
                let record: DslStepProgress = DslStepProgress::new(
                    "branch",
                    *step_index,
                    clone_payload(payload),
                );
                if !*checkpoint_frame {
                    return Ok(BranchProgressStore { progress: Some(record) });
                }
                match CheckpointFrame::decode(payload.as_slice()) {
                    Err(failure) => Err(failure),
                    Ok(None) => Err(
                        reject("parallel branch checkpoint payload has no internal frame"),
                    ),
                    Ok(Some(_)) => Ok(
                        BranchProgressStore {
                            progress: Some(record.checkpoint_frame(clone_payload(payload))),
                        },
                    ),
                }
            },
        }
    }

    /// Returns the record, where the branch stored any.
    pub fn snapshot(&self) -> (result: Option<DslStepProgress>)
        ensures
            progress_option(result) == self@,
    {
        match &self.progress {
            Some(progress) => Some(progress.clone()),
            None => None,
        }
    }

    /// Stores a record of a step after the stored one.
    pub fn create(&mut self, progress: DslStepProgress) -> (result: bool)
        ensures
            result == match old(self)@ {
                None => true,
                Some(saved) => progress@.step_index > saved.step_index,
            },
            final(self)@ == if result {
                Some(progress@)
            } else {
                old(self)@
            },
    {
        let accepted: bool = match &self.progress {
            None => true,
            Some(saved) => progress.step_index() > saved.step_index(),
        };
        if accepted {
            self.progress = Some(progress);
        }
        accepted
    }

    /// Replaces the stored record by its following version.
    pub fn update(&mut self, expected_version: i64, next: DslStepProgress) -> (result: bool)
        ensures
            result == replaces(old(self)@, expected_version, next@),
            final(self)@ == if result {
                Some(next@)
            } else {
                old(self)@
            },
    {
        let accepted: bool = match &self.progress {
            None => false,
            Some(saved) => same_text(saved.flow_id(), next.flow_id()) && saved.step_index()
                == next.step_index() && saved.version() == expected_version
                && DslStepProgress::is_next_version(expected_version, next.version()),
        };
        if accepted {
            self.progress = Some(next);
        }
        accepted
    }

    /// Returns the record of a step of a flow.
    pub fn get(&self, flow_id: &str, step_index: u32) -> (result: Option<DslStepProgress>)
        ensures
            progress_option(result) == match self@ {
                Some(saved) if is_record_of(saved, flow_id@, step_index) => Some(saved),
                _ => None,
            },
    {
        match &self.progress {
            Some(saved) => {
                if same_text(saved.flow_id(), flow_id) && saved.step_index() == step_index {
                    Some(saved.clone())
                } else {
                    None
                }
            },
            None => None,
        }
    }

    /// Removes the record of a step of a flow.
    pub fn delete(&mut self, flow_id: &str, step_index: u32) -> (result: bool)
        ensures
            result == match old(self)@ {
                Some(saved) => is_record_of(saved, flow_id@, step_index),
                None => false,
            },
            final(self)@ == if result {
                None
            } else {
                old(self)@
            },
    {
        let found: bool = match &self.progress {
            Some(saved) => same_text(saved.flow_id(), flow_id) && saved.step_index()
                == step_index,
            None => false,
        };
        if found {
            self.progress = None;
        }
        found
    }
}

/// The collection of the results of the branches of a checkpointed parallel step.
#[derive(Debug)]
pub struct ParallelRecovery {
    saved: Vec<Option<ParallelBranchProgress>>,
    completed: Vec<bool>,
    first_error: Option<CatgaError>,
}

/// Mathematical model of a [`ParallelRecovery`].
#[verifier::ext_equal]
pub struct ParallelView {
    /// The progress of each branch that a checkpoint keeps.
    pub saved: Seq<Option<dsl_checkpoint::BranchProgressView>>,
    /// Whether the final state of each branch is known.
    pub completed: Seq<bool>,
    /// The failure that ends the step.
    pub first_error: Option<error::ErrorView>,
}

impl View for ParallelRecovery {
    type V = ParallelView;

    closed spec fn view(&self) -> ParallelView {
        ParallelView {
            saved: self.saved.deep_view(),
            completed: self.completed@,
            first_error: state::error_option(self.first_error),
        }
    }
}

/// What a branch of a parallel step starts with.
#[derive(Debug)]
pub enum BranchStart {
    /// Decode the final state of the branch, then call [`ParallelRecovery::branch_restored`].
    Restore { payload: Vec<u8> },
    /// Run the branch with this progress, then call [`ParallelRecovery::branch_finished`].
    Run { store: BranchProgressStore },
}

/// The branches of a frame that kept final states only.
pub open spec fn finished_branches(states: Seq<Option<Seq<u8>>>) -> Seq<
    Option<dsl_checkpoint::BranchProgressView>,
> {
    states.map_values(
        |state: Option<Seq<u8>>|
            match state {
                Some(state) => Some(dsl_checkpoint::BranchProgressView::Completed { state }),
                None => None,
            },
    )
}

/// The progress of the branches of a parallel step, or why it cannot start.
pub open spec fn parallel_start(count: nat, work: Option<dsl_checkpoint::WorkView>) -> Result<
    Seq<Option<dsl_checkpoint::BranchProgressView>>,
    Seq<char>,
> {
    let saved = match work {
        Some(dsl_checkpoint::WorkView::Parallel { states }) => Some(finished_branches(states)),
        Some(dsl_checkpoint::WorkView::ParallelBranches { branches }) => Some(branches),
        Some(_) => None,
        None => Some(Seq::new(count, |index: int| None)),
    };
    if count > MAX_CHECKPOINT_PARALLEL_BRANCHES {
        Err("parallel branch count exceeds the checkpoint limit"@)
    } else {
        match saved {
            None => Err("DSL checkpoint cursor does not describe a parallel step"@),
            Some(saved) => if saved.len() != count {
                Err("parallel branch count does not match its saved checkpoint"@)
            } else {
                match saved_failure(saved) {
                    Some(message) => Err(message),
                    None => Ok(saved),
                }
            },
        }
    }
}

/// The progress that a stopped branch leaves, or why it cannot be kept.
pub open spec fn left_progress(
    saved: Seq<Option<dsl_checkpoint::BranchProgressView>>,
    index: int,
    progress: Option<dsl_progress::ProgressView>,
) -> Result<Option<dsl_checkpoint::BranchProgressView>, Seq<char>> {
    match progress {
        None => Ok(None),
        Some(record) => match replacement_failure(saved, index, record.payload.len()) {
            Some(message) => Err(message),
            None => Ok(
                Some(
                    dsl_checkpoint::BranchProgressView::InProgress {
                        step_index: record.step_index,
                        checkpoint_frame: record.kind == DslProgressKind::CheckpointFrame,
                        payload: record.payload,
                    },
                ),
            ),
        },
    }
}

/// The model of an encoded state.
pub open spec fn bytes_result(result: CatgaResult<Vec<u8>>) -> Result<Seq<u8>, error::ErrorView> {
    match result {
        Ok(bytes) => Ok(bytes@),
        Err(failure) => Err(failure@),
    }
}

impl ParallelView {
    /// How a step starts whose branches have some progress.
    pub open spec fn started(saved: Seq<Option<dsl_checkpoint::BranchProgressView>>) -> Self {
        ParallelView {
            saved,
            completed: Seq::new(saved.len(), |index: int| false),
            first_error: None,
        }
    }

    /// The collection with a failure noted, unless one was noted before.
    pub open spec fn noting(self, failure: error::ErrorView) -> Self {
        if self.first_error is None {
            ParallelView { first_error: Some(failure), ..self }
        } else {
            self
        }
    }

    /// The collection with the final state of a branch known.
    pub open spec fn restored(self, index: int) -> Self {
        ParallelView { completed: self.completed.update(index, true), ..self }
    }

    /// The collection with the final state of a branch, or with its failure noted.
    pub open spec fn with_outcome(self, index: int, outcome: Result<Seq<u8>, error::ErrorView>) ->
        Self {
        match outcome {
            Err(failure) => self.noting(failure),
            Ok(state) => match replacement_failure(self.saved, index, state.len()) {
                Some(message) => self.noting(error::validation(message)),
                None => ParallelView {
                    saved: self.saved.update(
                        index,
                        Some(dsl_checkpoint::BranchProgressView::Completed { state }),
                    ),
                    completed: self.completed.update(index, true),
                    ..self
                },
            },
        }
    }

    /// The collection with the progress that a branch left, unless its final state is known.
    pub open spec fn with_left(
        self,
        index: int,
        left: Result<Option<dsl_checkpoint::BranchProgressView>, Seq<char>>,
    ) -> Self {
        match left {
            Err(message) => self.noting(error::validation(message)),
            Ok(progress) => if self.completed[index] {
                self
            } else {
                ParallelView { saved: self.saved.update(index, progress), ..self }
            },
        }
    }

    /// The collection after a branch ended with an outcome and left some progress.
    pub open spec fn after_branch(
        self,
        index: int,
        outcome: Result<Seq<u8>, error::ErrorView>,
        progress: Option<dsl_progress::ProgressView>,
    ) -> Self {
        self.with_outcome(index, outcome).with_left(
            index,
            left_progress(self.saved, index, progress),
        )
    }

    /// The collection after its progress was stored, or was not.
    pub open spec fn after_save(self, result: Result<(), error::ErrorView>) -> Self {
        match result {
            Ok(_) => self,
            Err(failure) => self.noting(failure),
        }
    }

    /// The result of the step before its branches are merged.
    pub open spec fn result(self) -> Result<(), error::ErrorView> {
        match self.first_error {
            Some(failure) => Err(failure),
            None => if self.completed.contains(false) {
                Err(error::validation("parallel checkpoint has an incomplete branch"@))
            } else {
                Ok(())
            },
        }
    }
}

fn no_branches(count: usize) -> (result: Vec<Option<ParallelBranchProgress>>)
    ensures
        result.deep_view() == Seq::new(
            count as nat,
            |index: int| None::<dsl_checkpoint::BranchProgressView>,
        ),
{
    let mut result: Vec<Option<ParallelBranchProgress>> = Vec::new();
    while result.len() < count
        invariant
            result@.len() <= count,
            forall|i: int| 0 <= i < result@.len() ==> (#[trigger] result@[i]) is None,
        decreases count - result@.len(),
    {
        result.push(None);
    }
    assert(result.deep_view() =~= Seq::new(
        count as nat,
        |index: int| None::<dsl_checkpoint::BranchProgressView>,
    ));
    result
}

fn finish_states(states: &Vec<Option<Vec<u8>>>) -> (result: Vec<Option<ParallelBranchProgress>>)
    ensures
        result.deep_view() == finished_branches(states.deep_view()),
{
    let mut result: Vec<Option<ParallelBranchProgress>> = Vec::new();
    let mut index: usize = 0;
    while index < states.len()
        invariant
            index <= states@.len(),
            result@.len() == index,
            forall|i: int|
                0 <= i < index ==> (#[trigger] result@[i]).deep_view() == finished_branches(
                    states.deep_view(),
                )[i],
        decreases states@.len() - index,
    {
        match &states[index] {
            Some(state) => {
                result.push(Some(ParallelBranchProgress::Completed { state: clone_payload(state) }));
            },
            None => {
                result.push(None);
            },
        }
        index = index + 1;
    }
    assert(result.deep_view() =~= finished_branches(states.deep_view()));
    result
}

fn none_completed(count: usize) -> (result: Vec<bool>)
    ensures
        result@ == Seq::new(count as nat, |index: int| false),
{
    let mut result: Vec<bool> = Vec::new();
    while result.len() < count
        invariant
            result@.len() <= count,
            forall|i: int| 0 <= i < result@.len() ==> !#[trigger] result@[i],
        decreases count - result@.len(),
    {
        result.push(false);
    }
    assert(result@ =~= Seq::new(count as nat, |index: int| false));
    result
}

fn all_completed(completed: &Vec<bool>) -> (result: bool)
    ensures
        result == !completed@.contains(false),
{
    let mut index: usize = 0;
    while index < completed.len()
        invariant
            index <= completed@.len(),
            forall|i: int| 0 <= i < index ==> completed@[i],
        decreases completed@.len() - index,
    {
        if !completed[index] {
            assert(completed@[index as int] == false);
            return false;
        }
        index = index + 1;
    }
    true
}

fn clone_saved(saved: &Vec<Option<ParallelBranchProgress>>) -> (result: Vec<
    Option<ParallelBranchProgress>,
>)
    ensures
        result.deep_view() == saved.deep_view(),
{
    let mut result: Vec<Option<ParallelBranchProgress>> = Vec::new();
    let mut index: usize = 0;
    while index < saved.len()
        invariant
            index <= saved@.len(),
            result@.len() == index,
            forall|i: int|
                0 <= i < index ==> (#[trigger] result@[i]).deep_view() == saved@[i].deep_view(),
        decreases saved@.len() - index,
    {
        match &saved[index] {
            Some(branch) => {
                result.push(Some(branch.clone()));
            },
            None => {
                result.push(None);
            },
        }
        index = index + 1;
    }
    assert(result.deep_view() =~= saved.deep_view());
    result
}

impl ParallelRecovery {
    #[verifier::type_invariant]
    spec fn covers_all_branches(&self) -> bool {
        self.saved@.len() == self.completed@.len()
    }

    /// Starts a checkpointed parallel step, from the progress of a stored frame.
    pub fn start(count: usize, work: Option<CheckpointWork>) -> (result: CatgaResult<Self>)
        ensures
            match (result, parallel_start(count as nat, dsl_cursor::work_option(work))) {
                (Ok(recovery), Ok(saved)) => recovery@ == ParallelView::started(saved)
                    && saved.len() == count,
                (Err(failure), Err(message)) => failure@ == error::validation(message),
                _ => false,
            },
    {
        if count > MAX_CHECKPOINT_PARALLEL_BRANCHES {
            return Err(reject("parallel branch count exceeds the checkpoint limit"));
        }
        let saved: Vec<Option<ParallelBranchProgress>> = match work {
            None => no_branches(count),
            Some(CheckpointWork::Parallel { states }) => finish_states(&states),
            Some(CheckpointWork::ParallelBranches { branches }) => branches,
            Some(_) => {
                return Err(reject("DSL checkpoint cursor does not describe a parallel step"));
            },
        };
        if saved.len() != count {
            return Err(reject("parallel branch count does not match its saved checkpoint"));
        }
        match validate_saved_progress(&saved) {
            Err(failure) => {
                return Err(failure);
            },
            Ok(_) => {},
        }
        Ok(ParallelRecovery { saved, completed: none_completed(count), first_error: None })
    }

    /// Returns the number of branches.
    pub fn branch_count(&self) -> (result: usize)
        ensures
            result == self@.saved.len(),
    {
        self.saved.len()
    }

    /// Returns what a branch starts with.
    pub fn branch_start(&self, index: usize) -> (result: CatgaResult<BranchStart>)
        requires
            index < self@.saved.len(),
        ensures
            match (result, branch_start(self@.saved[index as int])) {
                (Err(failure), Err(message)) => failure@ == error::validation(message),
                (Ok(BranchStart::Restore { payload }), Ok(_)) => self@.saved[index as int] == Some(
                    dsl_checkpoint::BranchProgressView::Completed { state: payload@ },
                ),
                (Ok(BranchStart::Run { store }), Ok(progress)) => store@ == progress && !(
                self@.saved[index as int] matches Some(
                    dsl_checkpoint::BranchProgressView::Completed { .. },
                )),
                _ => false,
            },
    {
        match &self.saved[index] {
            Some(ParallelBranchProgress::Completed { state }) => {
                assert(state.deep_view() =~= state@);
                if state.len() > MAX_PARALLEL_BRANCH_PAYLOAD_BYTES {
                    return Err(reject("parallel branch checkpoint payload exceeds the size limit"));
                }
                Ok(BranchStart::Restore { payload: clone_payload(state) })
            },
            Some(branch) => match BranchProgressStore::from_saved(Some(branch)) {
                Ok(store) => Ok(BranchStart::Run { store }),
                Err(failure) => Err(failure),
            },
            None => match BranchProgressStore::from_saved(None) {
                Ok(store) => Ok(BranchStart::Run { store }),
                Err(failure) => Err(failure),
            },
        }
    }

    /// Goes on after the final state of a branch was decoded; a failure ends the step.
    pub fn branch_restored(self, index: usize, result: CatgaResult<()>) -> (restored: CatgaResult<
        Self,
    >)
        requires
            index < self@.saved.len(),
        ensures
            match (restored, result) {
                (Ok(recovery), Ok(_)) => recovery@ == self@.restored(index as int),
                (Err(failure), Err(_)) => failure@ == error::validation(
                    "parallel branch checkpoint state is invalid"@,
                ),
                _ => false,
            },
    {
        proof {
            use_type_invariant(&self);
        }
        match result {
            Err(_) => Err(reject("parallel branch checkpoint state is invalid")),
            Ok(_) => {
                let mut completed: Vec<bool> = self.completed;
                completed.set(index, true);
                Ok(
                    ParallelRecovery {
                        saved: self.saved,
                        completed,
                        first_error: self.first_error,
                    },
                )
            },
        }
    }

    fn note(self, failure: CatgaError) -> (result: Self)
        ensures
            result@ == self@.noting(failure@),
    {
        proof {
            use_type_invariant(&self);
        }
        match self.first_error {
            None => ParallelRecovery {
                saved: self.saved,
                completed: self.completed,
                first_error: Some(failure),
            },
            Some(first) => ParallelRecovery {
                saved: self.saved,
                completed: self.completed,
                first_error: Some(first),
            },
        }
    }

    fn replace(self, index: usize, branch: Option<ParallelBranchProgress>, finished: bool) -> (result:
        Self)
        requires
            index < self@.saved.len(),
        ensures
            result@.saved == self@.saved.update(index as int, branch.deep_view()),
            result@.completed == if finished {
                self@.completed.update(index as int, true)
            } else {
                self@.completed
            },
            result@.first_error == self@.first_error,
    {
        proof {
            use_type_invariant(&self);
        }
        let mut saved: Vec<Option<ParallelBranchProgress>> = self.saved;
        let mut completed: Vec<bool> = self.completed;
        saved.set(index, branch);
        if finished {
            completed.set(index, true);
        }
        assert(saved.deep_view() =~= self.saved.deep_view().update(
            index as int,
            branch.deep_view(),
        ));
        ParallelRecovery { saved, completed, first_error: self.first_error }
    }

    /// Takes the encoded final state of a branch, or its failure, and the progress that it left.
    pub fn branch_finished(
        self,
        index: usize,
        outcome: CatgaResult<Vec<u8>>,
        progress: Option<DslStepProgress>,
    ) -> (result: Self)
        requires
            index < self@.saved.len(),
        ensures
            result@ == self@.after_branch(
                index as int,
                bytes_result(outcome),
                progress_option(progress),
            ),
    {
        proof {
            use_type_invariant(&self);
        }
        let left: CatgaResult<Option<ParallelBranchProgress>> = match progress {
            None => Ok(None),
            Some(record) => {
                let payload: Vec<u8> = copy_range(record.payload(), 0, record.payload().len());
                assert(payload@ =~= record@.payload);
                assert(payload.deep_view() =~= payload@);
                match validate_replacement_payload(&self.saved, index, payload.len()) {
                    Err(failure) => Err(failure),
                    Ok(_) => Ok(
                        Some(
                            ParallelBranchProgress::InProgress {
                                step_index: record.step_index(),
                                checkpoint_frame: record.kind() == DslProgressKind::CheckpointFrame,
                                payload,
                            },
                        ),
                    ),
                }
            },
        };
        let noted: Self = match outcome {
            Err(failure) => self.note(failure),
            Ok(state) => match validate_replacement_payload(&self.saved, index, state.len()) {
                Err(failure) => self.note(failure),
                Ok(_) => {
                    assert(state.deep_view() =~= state@);
                    self.replace(index, Some(ParallelBranchProgress::Completed { state }), true)
                },
            },
        };
        proof {
            use_type_invariant(&noted);
        }
        match left {
            Err(failure) => noted.note(failure),
            Ok(left) => {
                if noted.completed[index] {
                    noted
                } else {
                    noted.replace(index, left, false)
                }
            },
        }
    }

    /// Encodes the frame that keeps the progress of all branches.
    pub fn encode(&self, levels: &[CheckpointLevel], state: CatgaResult<Vec<u8>>) -> (result:
        CatgaResult<Vec<u8>>)
        ensures
            match saved_failure(self@.saved) {
                Some(message) => result matches Err(failure) && failure@ == error::validation(
                    message,
                ),
                None => match bytes_result(state) {
                    Err(rejected) => result matches Err(failure) && failure@ == rejected,
                    Ok(state) => {
                        let frame = dsl_checkpoint::FrameView {
                            levels: levels@,
                            state,
                            work: dsl_checkpoint::WorkView::ParallelBranches {
                                branches: self@.saved,
                            },
                        };
                        match (result, dsl_checkpoint::encode_failure(frame)) {
                            (Ok(payload), None) => payload@ == dsl_checkpoint::frame_layout(frame),
                            (Err(failure), Some(message)) => failure@ == error::validation(message),
                            _ => false,
                        }
                    },
                },
            },
    {
        match validate_saved_progress(&self.saved) {
            Err(failure) => {
                return Err(failure);
            },
            Ok(_) => {},
        }
        match state {
            Err(failure) => Err(failure),
            Ok(state) => CheckpointFrame::encode(
                levels,
                state,
                CheckpointWork::ParallelBranches { branches: clone_saved(&self.saved) },
            ),
        }
    }

    /// Goes on after the progress of all branches was stored, or was not.
    pub fn progress_saved(self, result: CatgaResult<()>) -> (recovery: Self)
        ensures
            recovery@ == self@.after_save(error::unit_result(result)),
    {
        match result {
            Ok(_) => self,
            Err(failure) => self.note(failure),
        }
    }

    /// Returns whether the branch states can be merged.
    pub fn finish(self) -> (result: CatgaResult<()>)
        ensures
            error::unit_result(result) == self@.result(),
    {
        match self.first_error {
            Some(failure) => Err(failure),
            None => {
                if all_completed(&self.completed) {
                    Ok(())
                } else {
                    Err(reject("parallel checkpoint has an incomplete branch"))
                }
            },
        }
    }
}

proof fn lemma_size_of_update(
    saved: Seq<Option<dsl_checkpoint::BranchProgressView>>,
    index: int,
    branch: Option<dsl_checkpoint::BranchProgressView>,
)
    requires
        0 <= index < saved.len(),
    ensures
        saved_size(saved.update(index, branch)) == other_size(saved, index) + branch_size(branch),
    decreases saved.len(),
{
    let updated = saved.update(index, branch);
    if index == saved.len() - 1 {
        assert(updated.drop_last() =~= saved.drop_last());
        lemma_size_without(saved.drop_last(), index);
    } else {
        assert(updated.drop_last() =~= saved.drop_last().update(index, branch));
        lemma_size_of_update(saved.drop_last(), index, branch);
    }
}

proof fn lemma_size_without(saved: Seq<Option<dsl_checkpoint::BranchProgressView>>, index: int)
    requires
        index >= saved.len(),
    ensures
        other_size(saved, index) == saved_size(saved),
    decreases saved.len(),
{
    if saved.len() > 0 {
        lemma_size_without(saved.drop_last(), index);
    }
}

proof fn lemma_others_within(saved: Seq<Option<dsl_checkpoint::BranchProgressView>>, index: int)
    ensures
        other_size(saved, index) <= saved_size(saved),
    decreases saved.len(),
{
    if saved.len() > 0 {
        lemma_others_within(saved.drop_last(), index);
    }
}

/// Branches whose sum of sizes is within the limit are all accepted.
proof fn lemma_small_sum_is_accepted(saved: Seq<Option<dsl_checkpoint::BranchProgressView>>)
    requires
        saved_size(saved) <= MAX_PARALLEL_BRANCH_PAYLOAD_BYTES,
    ensures
        saved_failure(saved) is None,
    decreases saved.len(),
{
    if saved.len() > 0 {
        lemma_small_sum_is_accepted(saved.drop_last());
    }
}

/// Whatever the branches return, their kept progress stays within the limits of a checkpoint.
pub proof fn lemma_kept_progress_stays_bounded(
    recovery: ParallelView,
    index: int,
    outcome: Result<Seq<u8>, error::ErrorView>,
    progress: Option<dsl_progress::ProgressView>,
)
    requires
        saved_failure(recovery.saved) is None,
        0 <= index < recovery.saved.len(),
    ensures
        saved_failure(recovery.after_branch(index, outcome, progress).saved) is None,
{
    let after = recovery.after_branch(index, outcome, progress).saved;
    lemma_others_within(recovery.saved, index);
    if after == recovery.saved {
    } else {
        assert(after == recovery.saved.update(index, after[index]));
        lemma_size_of_update(recovery.saved, index, after[index]);
        lemma_small_sum_is_accepted(after);
    }
}

/// A branch that completed is not run again: a step that starts from the kept progress restores
/// its final state.
pub proof fn lemma_completed_branches_are_kept(
    recovery: ParallelView,
    index: int,
    state: Seq<u8>,
    progress: Option<dsl_progress::ProgressView>,
)
    requires
        saved_failure(recovery.saved) is None,
        recovery.saved.len() == recovery.completed.len(),
        recovery.saved.len() <= MAX_CHECKPOINT_PARALLEL_BRANCHES,
        0 <= index < recovery.saved.len(),
        replacement_failure(recovery.saved, index, state.len()) is None,
    ensures
        ({
            let after = recovery.after_branch(index, Ok(state), progress);
            let kept = dsl_checkpoint::WorkView::ParallelBranches { branches: after.saved };
            &&& after.completed[index]
            &&& parallel_start(after.saved.len(), Some(kept)) == Ok::<
                Seq<Option<dsl_checkpoint::BranchProgressView>>,
                Seq<char>,
            >(after.saved)
            &&& after.saved[index] == Some(dsl_checkpoint::BranchProgressView::Completed { state })
        }),
{
    lemma_kept_progress_stays_bounded(recovery, index, Ok(state), progress);
}

/// The failure that is noted first is the one that the step returns, whatever follows.
pub proof fn lemma_first_failure_is_returned(
    recovery: ParallelView,
    index: int,
    outcome: Result<Seq<u8>, error::ErrorView>,
    progress: Option<dsl_progress::ProgressView>,
    stored: Result<(), error::ErrorView>,
)
    requires
        recovery.first_error is Some,
    ensures
        recovery.after_branch(index, outcome, progress).after_save(stored).result()
            == recovery.result(),
{
}

} // verus!
