//! Checkpoint frames of the flow DSL.
//!
//! A frame holds the path of branches that execution had entered, the application state, and the
//! cursor of the operation that was under way.

use vstd::prelude::*;

use crate::bytes;
use crate::bytes::{copy_range, push_bytes, push_u32, read_u32_at};
use crate::error;
use crate::error::{CatgaError, CatgaResult, ErrorCode};
use crate::record;
use crate::record::{read_exact, Record};

verus! {

/// Deepest branch path that a frame can hold.
pub const MAX_CHECKPOINT_PATH_DEPTH: usize = 32;

pub const CHECKPOINT_FRAME_VERSION: u8 = 1;

pub const CHECKPOINT_FRAME_HEADER_BYTES: usize = 10;

pub const CHECKPOINT_LEVEL_BYTES: usize = 8;

/// Largest application state that a frame can hold.
pub const MAX_CHECKPOINT_STATE_BYTES: usize = 1048576;

/// Largest frame: the header, the deepest path and the largest state.
pub const MAX_CHECKPOINT_FRAME_BYTES: usize = 10 + 8 * 32 + 1048576;

/// One entered branch and the child step at which it continues.
#[derive(Clone, Copy, Debug, PartialEq, Eq, Structural)]
pub struct CheckpointLevel {
    pub branch: u32,
    pub next_step: u32,
}

/// What one branch of a parallel step had reached.
#[derive(Debug)]
pub enum ParallelBranchProgress {
    /// The branch finished with this encoded state.
    Completed { state: Vec<u8> },
    /// The branch stopped inside the step at `step_index`, with its own checkpoint payload.
    InProgress { step_index: u32, checkpoint_frame: bool, payload: Vec<u8> },
}

/// Mathematical model of a [`ParallelBranchProgress`].
pub enum BranchProgressView {
    Completed { state: Seq<u8> },
    InProgress { step_index: u32, checkpoint_frame: bool, payload: Seq<u8> },
}

impl DeepView for ParallelBranchProgress {
    type V = BranchProgressView;

    open spec fn deep_view(&self) -> BranchProgressView {
        match *self {
            ParallelBranchProgress::Completed { state } => BranchProgressView::Completed {
                state: state.deep_view(),
            },
            ParallelBranchProgress::InProgress { step_index, checkpoint_frame, payload } =>
                BranchProgressView::InProgress {
                step_index,
                checkpoint_frame,
                payload: payload.deep_view(),
            },
        }
    }
}

impl View for ParallelBranchProgress {
    type V = BranchProgressView;

    open spec fn view(&self) -> BranchProgressView {
        self.deep_view()
    }
}

/// The cursor of the operation that was under way when a frame was written.
#[derive(Debug)]
pub enum CheckpointWork {
    /// Only the branch path matters.
    Branch,
    /// A cursor of an operation that kept no items; frames that hold one are still decoded.
    ForEach { next_index: u32, total: u32 },
    /// The items of a replayable collection step and the next one to run.
    ReplayableForEach { next_index: u32, items: Vec<Vec<u8>> },
    /// Finished branch states of a parallel step.
    Parallel { states: Vec<Option<Vec<u8>>> },
    /// The winning branch and its encoded state.
    WhenAny { winner: u32, state: Vec<u8> },
    /// The progress of each branch of a parallel step.
    ParallelBranches { branches: Vec<Option<ParallelBranchProgress>> },
}

/// Mathematical model of a [`CheckpointWork`].
pub enum WorkView {
    Branch,
    ForEach { next_index: u32, total: u32 },
    ReplayableForEach { next_index: u32, items: Seq<Seq<u8>> },
    Parallel { states: Seq<Option<Seq<u8>>> },
    WhenAny { winner: u32, state: Seq<u8> },
    ParallelBranches { branches: Seq<Option<BranchProgressView>> },
}

impl DeepView for CheckpointWork {
    type V = WorkView;

    open spec fn deep_view(&self) -> WorkView {
        match *self {
            CheckpointWork::Branch => WorkView::Branch,
            CheckpointWork::ForEach { next_index, total } => WorkView::ForEach {
                next_index,
                total,
            },
            CheckpointWork::ReplayableForEach { next_index, items } =>
                WorkView::ReplayableForEach { next_index, items: items.deep_view() },
            CheckpointWork::Parallel { states } => WorkView::Parallel {
                states: states.deep_view(),
            },
            CheckpointWork::WhenAny { winner, state } => WorkView::WhenAny {
                winner,
                state: state.deep_view(),
            },
            CheckpointWork::ParallelBranches { branches } => WorkView::ParallelBranches {
                branches: branches.deep_view(),
            },
        }
    }
}

impl View for CheckpointWork {
    type V = WorkView;

    open spec fn view(&self) -> WorkView {
        self.deep_view()
    }
}

impl Clone for ParallelBranchProgress {
    fn clone(&self) -> (result: Self)
        ensures
            result@ == self@,
    {
        match self {
            ParallelBranchProgress::Completed { state } => {
                let state: Vec<u8> = clone_payload(state);
                ParallelBranchProgress::Completed { state }
            },
            ParallelBranchProgress::InProgress { step_index, checkpoint_frame, payload } => {
                let payload: Vec<u8> = clone_payload(payload);
                ParallelBranchProgress::InProgress {
                    step_index: *step_index,
                    checkpoint_frame: *checkpoint_frame,
                    payload,
                }
            },
        }
    }
}

impl Default for ParallelBranchProgress {
    fn default() -> (result: Self)
        ensures
            result@ == (BranchProgressView::Completed { state: Seq::empty() }),
    {
        let state: Vec<u8> = Vec::new();
        assert(state.deep_view() =~= Seq::empty());
        ParallelBranchProgress::Completed { state }
    }
}

/// Copies encoded bytes.
pub fn clone_payload(payload: &Vec<u8>) -> (result: Vec<u8>)
    ensures
        result@ == payload@,
        result.deep_view() == payload.deep_view(),
{
    let result: Vec<u8> = bytes::copy_bytes(payload);
    assert(result.deep_view() =~= payload.deep_view());
    result
}

/// A branch's progress is a tag and then the fields of its variant.
impl Record for ParallelBranchProgress {
    open spec fn fits(value: BranchProgressView) -> bool {
        match value {
            BranchProgressView::Completed { state } => <Vec<u8> as Record>::fits(state),
            BranchProgressView::InProgress { payload, .. } => <Vec<u8> as Record>::fits(payload),
        }
    }

    open spec fn valid(value: BranchProgressView) -> bool {
        true
    }

    open spec fn layout(value: BranchProgressView) -> Seq<u8> {
        match value {
            BranchProgressView::Completed { state } => seq![0u8] + <Vec<u8> as Record>::layout(
                state,
            ),
            BranchProgressView::InProgress { step_index, checkpoint_frame, payload } => seq![1u8]
                + <(u32, (bool, Vec<u8>)) as Record>::layout(
                (step_index, (checkpoint_frame, payload)),
            ),
        }
    }

    open spec fn parse(bytes: Seq<u8>, at: int) -> Option<(BranchProgressView, int)> {
        match <u8 as Record>::parse(bytes, at) {
            Some((0u8, next)) => match <Vec<u8> as Record>::parse(bytes, next) {
                Some((state, end)) => Some((BranchProgressView::Completed { state }, end)),
                None => None,
            },
            Some((1u8, next)) => match <(u32, (bool, Vec<u8>)) as Record>::parse(bytes, next) {
                Some(((step_index, (checkpoint_frame, payload)), end)) => Some(
                    (
                        BranchProgressView::InProgress { step_index, checkpoint_frame, payload },
                        end,
                    ),
                ),
                None => None,
            },
            _ => None,
        }
    }

    proof fn lemma_round_trip(value: BranchProgressView, bytes: Seq<u8>, at: int) {
        match value {
            BranchProgressView::Completed { state } => {
                bytes::lemma_holds_split(
                    bytes,
                    at,
                    seq![0u8],
                    <Vec<u8> as Record>::layout(state),
                );
                <u8 as Record>::lemma_round_trip(0, bytes, at);
                <Vec<u8> as Record>::lemma_round_trip(state, bytes, at + 1);
            },
            BranchProgressView::InProgress { step_index, checkpoint_frame, payload } => {
                let fields = (step_index, (checkpoint_frame, payload));
                bytes::lemma_holds_split(
                    bytes,
                    at,
                    seq![1u8],
                    <(u32, (bool, Vec<u8>)) as Record>::layout(fields),
                );
                <u8 as Record>::lemma_round_trip(1, bytes, at);
                <(u32, (bool, Vec<u8>)) as Record>::lemma_round_trip(fields, bytes, at + 1);
            },
        }
    }

    proof fn lemma_progress(bytes: Seq<u8>, at: int) {
        if let Some((_, next)) = <u8 as Record>::parse(bytes, at) {
            <Vec<u8> as Record>::lemma_progress(bytes, next);
            <(u32, (bool, Vec<u8>)) as Record>::lemma_progress(bytes, next);
        }
    }

    fn write(&self, out: &mut Vec<u8>) -> (written: bool) {
        match self {
            ParallelBranchProgress::Completed { state } => {
                out.push(0);
                if !state.write(out) {
                    return false;
                }
            },
            ParallelBranchProgress::InProgress { step_index, checkpoint_frame, payload } => {
                out.push(1);
                push_u32(out, *step_index);
                checkpoint_frame.write(out);
                if !payload.write(out) {
                    return false;
                }
            },
        }
        assert(out@ =~= old(out)@ + Self::layout(self@));
        true
    }

    fn read(bytes: &[u8], at: usize) -> (result: Option<(Self, usize)>) {
        match <u8 as Record>::read(bytes, at) {
            Some((0, next)) => match <Vec<u8> as Record>::read(bytes, next) {
                Some((state, end)) => Some((ParallelBranchProgress::Completed { state }, end)),
                None => None,
            },
            Some((1, next)) => match <(u32, (bool, Vec<u8>)) as Record>::read(bytes, next) {
                Some(((step_index, (checkpoint_frame, payload)), end)) => Some(
                    (
                        ParallelBranchProgress::InProgress {
                            step_index,
                            checkpoint_frame,
                            payload,
                        },
                        end,
                    ),
                ),
                None => None,
            },
            _ => None,
        }
    }
}

/// A cursor is a tag and then the fields of its variant.
impl Record for CheckpointWork {
    open spec fn fits(value: WorkView) -> bool {
        match value {
            WorkView::Branch => true,
            WorkView::ForEach { next_index, total } => <(u32, u32) as Record>::fits((next_index, total)),
            WorkView::ReplayableForEach { next_index, items } => <(u32, Vec<Vec<u8>>) as Record>::fits((next_index, items)),
            WorkView::Parallel { states } => <Vec<Option<Vec<u8>>> as Record>::fits(states),
            WorkView::WhenAny { winner, state } => <(u32, Vec<u8>) as Record>::fits((winner, state)),
            WorkView::ParallelBranches { branches } => <Vec<Option<ParallelBranchProgress>> as Record>::fits(branches),
        }
    }

    open spec fn valid(value: WorkView) -> bool {
        true
    }

    open spec fn layout(value: WorkView) -> Seq<u8> {
        match value {
            WorkView::Branch => seq![0u8],
            WorkView::ForEach { next_index, total } => seq![1u8] + <(u32, u32) as Record>::layout(
                (next_index, total),
            ),
            WorkView::ReplayableForEach { next_index, items } => seq![2u8] + <(u32, Vec<Vec<u8>>) as Record>::layout(
                (next_index, items),
            ),
            WorkView::Parallel { states } => seq![3u8] + <Vec<Option<Vec<u8>>> as Record>::layout(
                states,
            ),
            WorkView::WhenAny { winner, state } => seq![4u8] + <(u32, Vec<u8>) as Record>::layout(
                (winner, state),
            ),
            WorkView::ParallelBranches { branches } => seq![5u8] + <Vec<Option<ParallelBranchProgress>> as Record>::layout(
                branches,
            ),
        }
    }

    open spec fn parse(bytes: Seq<u8>, at: int) -> Option<(WorkView, int)> {
        match <u8 as Record>::parse(bytes, at) {
            Some((0u8, next)) => Some((WorkView::Branch, next)),
            Some((1u8, next)) => match <(u32, u32) as Record>::parse(bytes, next) {
                Some(((next_index, total), end)) => Some((WorkView::ForEach { next_index, total }, end)),
                None => None,
            },
            Some((2u8, next)) => match <(u32, Vec<Vec<u8>>) as Record>::parse(bytes, next) {
                Some(((next_index, items), end)) => Some((WorkView::ReplayableForEach { next_index, items }, end)),
                None => None,
            },
            Some((3u8, next)) => match <Vec<Option<Vec<u8>>> as Record>::parse(bytes, next) {
                Some((states, end)) => Some((WorkView::Parallel { states }, end)),
                None => None,
            },
            Some((4u8, next)) => match <(u32, Vec<u8>) as Record>::parse(bytes, next) {
                Some(((winner, state), end)) => Some((WorkView::WhenAny { winner, state }, end)),
                None => None,
            },
            Some((5u8, next)) => match <Vec<Option<ParallelBranchProgress>> as Record>::parse(bytes, next) {
                Some((branches, end)) => Some((WorkView::ParallelBranches { branches }, end)),
                None => None,
            },
            _ => None,
        }
    }

    proof fn lemma_round_trip(value: WorkView, bytes: Seq<u8>, at: int) {
        match value {
            WorkView::Branch => {
                <u8 as Record>::lemma_round_trip(0, bytes, at);
            },
            WorkView::ForEach { next_index, total } => {
                let fields = <(u32, u32) as Record>::layout((next_index, total));
                bytes::lemma_holds_split(bytes, at, seq![1u8], fields);
                <u8 as Record>::lemma_round_trip(1, bytes, at);
                <(u32, u32) as Record>::lemma_round_trip((next_index, total), bytes, at + 1);
            },
            WorkView::ReplayableForEach { next_index, items } => {
                let fields = <(u32, Vec<Vec<u8>>) as Record>::layout((next_index, items));
                bytes::lemma_holds_split(bytes, at, seq![2u8], fields);
                <u8 as Record>::lemma_round_trip(2, bytes, at);
                <(u32, Vec<Vec<u8>>) as Record>::lemma_round_trip((next_index, items), bytes, at + 1);
            },
            WorkView::Parallel { states } => {
                let fields = <Vec<Option<Vec<u8>>> as Record>::layout(states);
                bytes::lemma_holds_split(bytes, at, seq![3u8], fields);
                <u8 as Record>::lemma_round_trip(3, bytes, at);
                <Vec<Option<Vec<u8>>> as Record>::lemma_round_trip(states, bytes, at + 1);
            },
            WorkView::WhenAny { winner, state } => {
                let fields = <(u32, Vec<u8>) as Record>::layout((winner, state));
                bytes::lemma_holds_split(bytes, at, seq![4u8], fields);
                <u8 as Record>::lemma_round_trip(4, bytes, at);
                <(u32, Vec<u8>) as Record>::lemma_round_trip((winner, state), bytes, at + 1);
            },
            WorkView::ParallelBranches { branches } => {
                let fields = <Vec<Option<ParallelBranchProgress>> as Record>::layout(branches);
                bytes::lemma_holds_split(bytes, at, seq![5u8], fields);
                <u8 as Record>::lemma_round_trip(5, bytes, at);
                <Vec<Option<ParallelBranchProgress>> as Record>::lemma_round_trip(branches, bytes, at + 1);
            },
        }
    }

    proof fn lemma_progress(bytes: Seq<u8>, at: int) {
        if let Some((_, next)) = <u8 as Record>::parse(bytes, at) {
            <(u32, u32) as Record>::lemma_progress(bytes, next);
            <(u32, Vec<Vec<u8>>) as Record>::lemma_progress(bytes, next);
            <Vec<Option<Vec<u8>>> as Record>::lemma_progress(bytes, next);
            <(u32, Vec<u8>) as Record>::lemma_progress(bytes, next);
            <Vec<Option<ParallelBranchProgress>> as Record>::lemma_progress(bytes, next);
        }
    }

    fn write(&self, out: &mut Vec<u8>) -> (written: bool) {
        match self {
            CheckpointWork::Branch => {
                out.push(0);
            },
            CheckpointWork::ForEach { next_index, total } => {
                out.push(1);
                next_index.write(out);
                if !total.write(out) {
                    return false;
                }
            },
            CheckpointWork::ReplayableForEach { next_index, items } => {
                out.push(2);
                next_index.write(out);
                if !items.write(out) {
                    return false;
                }
            },
            CheckpointWork::Parallel { states } => {
                out.push(3);
                if !states.write(out) {
                    return false;
                }
            },
            CheckpointWork::WhenAny { winner, state } => {
                out.push(4);
                winner.write(out);
                if !state.write(out) {
                    return false;
                }
            },
            CheckpointWork::ParallelBranches { branches } => {
                out.push(5);
                if !branches.write(out) {
                    return false;
                }
            },
        }
        assert(out@ =~= old(out)@ + Self::layout(self@));
        true
    }

    fn read(bytes: &[u8], at: usize) -> (result: Option<(Self, usize)>) {
        match <u8 as Record>::read(bytes, at) {
            Some((0, next)) => Some((CheckpointWork::Branch, next)),
            Some((1, next)) => match <(u32, u32) as Record>::read(bytes, next) {
                Some(((next_index, total), end)) => Some((CheckpointWork::ForEach { next_index, total }, end)),
                None => None,
            },
            Some((2, next)) => match <(u32, Vec<Vec<u8>>) as Record>::read(bytes, next) {
                Some(((next_index, items), end)) => Some((CheckpointWork::ReplayableForEach { next_index, items }, end)),
                None => None,
            },
            Some((3, next)) => match <Vec<Option<Vec<u8>>> as Record>::read(bytes, next) {
                Some((states, end)) => Some((CheckpointWork::Parallel { states }, end)),
                None => None,
            },
            Some((4, next)) => match <(u32, Vec<u8>) as Record>::read(bytes, next) {
                Some(((winner, state), end)) => Some((CheckpointWork::WhenAny { winner, state }, end)),
                None => None,
            },
            Some((5, next)) => match <Vec<Option<ParallelBranchProgress>> as Record>::read(bytes, next) {
                Some((branches, end)) => Some((CheckpointWork::ParallelBranches { branches }, end)),
                None => None,
            },
            _ => None,
        }
    }
}

/// A decoded checkpoint frame.
#[derive(Debug)]
pub struct CheckpointFrame {
    pub levels: Vec<CheckpointLevel>,
    pub state: Vec<u8>,
    pub work: CheckpointWork,
}

/// Mathematical model of a [`CheckpointFrame`].
pub struct FrameView {
    pub levels: Seq<CheckpointLevel>,
    pub state: Seq<u8>,
    pub work: WorkView,
}

impl View for CheckpointFrame {
    type V = FrameView;

    open spec fn view(&self) -> FrameView {
        FrameView { levels: self.levels@, state: self.state@, work: self.work@ }
    }
}

/// The four bytes that mark a frame.
pub open spec fn frame_magic() -> Seq<u8> {
    seq![67u8, 68u8, 70u8, 49u8]
}

/// The bytes of a branch path, two numbers for each level.
pub open spec fn levels_layout(levels: Seq<CheckpointLevel>) -> Seq<u8>
    decreases levels.len(),
{
    if levels.len() == 0 {
        Seq::empty()
    } else {
        levels_layout(levels.drop_last()) + (bytes::be_u32(levels.last().branch) + bytes::be_u32(
            levels.last().next_step,
        ))
    }
}

/// The bytes of a frame.
pub open spec fn frame_layout(frame: FrameView) -> Seq<u8> {
    let work = <CheckpointWork as Record>::layout(frame.work);
    frame_magic() + (seq![CHECKPOINT_FRAME_VERSION, frame.levels.len() as u8] + (levels_layout(
        frame.levels,
    ) + (bytes::be_u32(frame.state.len() as u32) + (frame.state + (bytes::be_u32(work.len() as u32)
        + work)))))
}

/// The number of bytes of a frame.
pub open spec fn frame_length(frame: FrameView) -> int {
    CHECKPOINT_FRAME_HEADER_BYTES + CHECKPOINT_LEVEL_BYTES * frame.levels.len() + frame.state.len()
        + 4 + <CheckpointWork as Record>::layout(frame.work).len()
}

/// Why a frame cannot be encoded, or `None` where it can.
pub open spec fn encode_failure(frame: FrameView) -> Option<Seq<char>> {
    if frame.levels.len() > MAX_CHECKPOINT_PATH_DEPTH {
        Some("DSL checkpoint path exceeds the maximum depth"@)
    } else if frame.state.len() > MAX_CHECKPOINT_STATE_BYTES {
        Some("DSL checkpoint state exceeds the maximum size"@)
    } else if !<CheckpointWork as Record>::fits(frame.work) {
        Some("DSL checkpoint work cursor cannot be encoded"@)
    } else if <CheckpointWork as Record>::layout(frame.work).len() > u32::MAX {
        Some("DSL checkpoint work cursor is too large"@)
    } else if frame_length(frame) > usize::MAX {
        Some("DSL checkpoint frame is too large"@)
    } else if frame_length(frame) > MAX_CHECKPOINT_FRAME_BYTES {
        Some("DSL checkpoint frame exceeds the maximum size"@)
    } else {
        None
    }
}

/// Whether a payload starts like a frame.
pub open spec fn is_frame(payload: Seq<u8>) -> bool {
    payload.len() >= 4 && payload.subrange(0, 4) == frame_magic()
}

/// The level at `index` of the path in a frame.
pub open spec fn level_at(payload: Seq<u8>, index: int) -> CheckpointLevel {
    CheckpointLevel {
        branch: bytes::u32_at(payload, 6 + 8 * index) as u32,
        next_step: bytes::u32_at(payload, 10 + 8 * index) as u32,
    }
}

/// The place of the application state in a frame.
pub open spec fn state_offset(payload: Seq<u8>) -> int {
    CHECKPOINT_FRAME_HEADER_BYTES + CHECKPOINT_LEVEL_BYTES * payload[5]
}

/// The place after the application state in a frame.
pub open spec fn state_end(payload: Seq<u8>) -> int {
    state_offset(payload) + bytes::u32_at(payload, state_offset(payload) - 4)
}

/// The cursor in a frame, or why it cannot be read. A frame that ends with its state has none.
pub open spec fn work_outcome(payload: Seq<u8>) -> Result<WorkView, Seq<char>> {
    let end = state_end(payload);
    let length = bytes::u32_at(payload, end);
    if end == payload.len() {
        Ok(WorkView::Branch)
    } else if end + 4 > payload.len() {
        Err("DSL checkpoint work cursor is truncated"@)
    } else if end + 4 + length > usize::MAX {
        Err("DSL checkpoint work cursor is too large"@)
    } else if end + 4 + length != payload.len() {
        Err("DSL checkpoint work cursor has an invalid length"@)
    } else {
        match record::parse_exact::<CheckpointWork>(
            payload.subrange(end + 4, payload.len() as int),
        ) {
            Some(work) => Ok(work),
            None => Err("DSL checkpoint work cursor is invalid"@),
        }
    }
}

/// The frame in a payload that starts like one, or why it cannot be read.
pub open spec fn frame_outcome(payload: Seq<u8>) -> Result<FrameView, Seq<char>> {
    if payload.len() > MAX_CHECKPOINT_FRAME_BYTES || payload.len()
        < CHECKPOINT_FRAME_HEADER_BYTES {
        Err("DSL checkpoint frame has an invalid size"@)
    } else if payload[4] != CHECKPOINT_FRAME_VERSION {
        Err("DSL checkpoint frame has an unsupported version"@)
    } else if payload[5] > MAX_CHECKPOINT_PATH_DEPTH {
        Err("DSL checkpoint frame exceeds the maximum path depth"@)
    } else if state_offset(payload) > payload.len() {
        Err("DSL checkpoint frame is truncated"@)
    } else if bytes::u32_at(payload, state_offset(payload) - 4) > MAX_CHECKPOINT_STATE_BYTES {
        Err("DSL checkpoint state exceeds the maximum size"@)
    } else {
        match work_outcome(payload) {
            Ok(work) => Ok(
                FrameView {
                    levels: Seq::new(payload[5] as nat, |i: int| level_at(payload, i)),
                    state: payload.subrange(state_offset(payload), state_end(payload)),
                    work,
                },
            ),
            Err(message) => Err(message),
        }
    }
}

/// Whether a decoding returned what the payload holds.
pub open spec fn decode_matches(
    result: CatgaResult<Option<CheckpointFrame>>,
    payload: Seq<u8>,
) -> bool {
    if !is_frame(payload) {
        result matches Ok(None)
    } else {
        match (result, frame_outcome(payload)) {
            (Ok(Some(frame)), Ok(model)) => frame@ == model,
            (Err(failure), Err(message)) => failure@ == error::validation(message),
            _ => false,
        }
    }
}

proof fn lemma_levels_length(levels: Seq<CheckpointLevel>)
    ensures
        levels_layout(levels).len() == 8 * levels.len(),
    decreases levels.len(),
{
    if levels.len() > 0 {
        lemma_levels_length(levels.drop_last());
    }
}

/// Each level of a written path is read back.
proof fn lemma_levels_round_trip(levels: Seq<CheckpointLevel>, payload: Seq<u8>, index: int)
    requires
        bytes::holds_at(payload, 6, levels_layout(levels)),
        0 <= index < levels.len(),
    ensures
        level_at(payload, index) == levels[index],
    decreases levels.len(),
{
    let init = levels.drop_last();
    let last = levels.last();
    let pair = bytes::be_u32(last.branch) + bytes::be_u32(last.next_step);
    lemma_levels_length(init);
    bytes::lemma_holds_split(payload, 6, levels_layout(init), pair);
    if index < init.len() {
        lemma_levels_round_trip(init, payload, index);
    } else {
        let at = 6 + 8 * index;
        bytes::lemma_holds_split(
            payload,
            at,
            bytes::be_u32(last.branch),
            bytes::be_u32(last.next_step),
        );
        bytes::lemma_u32_round_trip(payload, at, last.branch);
        bytes::lemma_u32_round_trip(payload, at + 4, last.next_step);
    }
}

/// Where the parts of an encoded frame stand.
#[verifier::spinoff_prover]
proof fn lemma_frame_parts(frame: FrameView)
    requires
        encode_failure(frame) is None,
    ensures
        ({
            let payload = frame_layout(frame);
            let work = <CheckpointWork as Record>::layout(frame.work);
            let at = 10 + 8 * frame.levels.len() as int;
            let end = at + frame.state.len() as int;
            &&& is_frame(payload)
            &&& payload.len() == end + 4 + work.len()
            &&& payload[4] == CHECKPOINT_FRAME_VERSION
            &&& payload[5] == frame.levels.len()
            &&& bytes::holds_at(payload, 6, levels_layout(frame.levels))
            &&& bytes::u32_at(payload, at - 4) == frame.state.len()
            &&& bytes::holds_at(payload, at, frame.state)
            &&& bytes::u32_at(payload, end) == work.len()
            &&& bytes::holds_at(payload, end + 4, work)
        }),
{
    let payload = frame_layout(frame);
    let work = <CheckpointWork as Record>::layout(frame.work);
    let work_part = bytes::be_u32(work.len() as u32) + work;
    let state_part = frame.state + work_part;
    let length_part = bytes::be_u32(frame.state.len() as u32) + state_part;
    let levels_part = levels_layout(frame.levels) + length_part;
    let header = seq![CHECKPOINT_FRAME_VERSION, frame.levels.len() as u8];
    let at = 10 + 8 * frame.levels.len() as int;
    let end = at + frame.state.len() as int;
    lemma_levels_length(frame.levels);
    assert(payload.subrange(0, 4) =~= frame_magic());
    assert(bytes::holds_at(payload, 0, payload));
    bytes::lemma_holds_split(payload, 0, frame_magic(), header + levels_part);
    bytes::lemma_holds_split(payload, 4, header, levels_part);
    assert(payload[4int + 0] == header[0] && payload[4int + 1] == header[1]);
    bytes::lemma_holds_split(payload, 6, levels_layout(frame.levels), length_part);
    bytes::lemma_holds_split(
        payload,
        at - 4,
        bytes::be_u32(frame.state.len() as u32),
        state_part,
    );
    bytes::lemma_u32_round_trip(payload, at - 4, frame.state.len() as u32);
    bytes::lemma_holds_split(payload, at, frame.state, work_part);
    bytes::lemma_holds_split(payload, end, bytes::be_u32(work.len() as u32), work);
    bytes::lemma_u32_round_trip(payload, end, work.len() as u32);
}

/// Decoding an encoded frame gives back its path, state and cursor.
#[verifier::spinoff_prover]
pub proof fn lemma_frame_round_trip(frame: FrameView)
    requires
        encode_failure(frame) is None,
    ensures
        is_frame(frame_layout(frame)),
        frame_outcome(frame_layout(frame)) == Ok::<FrameView, Seq<char>>(frame),
{
    lemma_frame_parts(frame);
    let payload = frame_layout(frame);
    let work = <CheckpointWork as Record>::layout(frame.work);
    let at = 10 + 8 * frame.levels.len() as int;
    let end = at + frame.state.len() as int;
    assert(payload.subrange(end + 4, payload.len() as int) =~= work) by {
        assert forall|i: int| 0 <= i < work.len() implies payload[end + 4 + i] == work[i] by {}
    }
    record::lemma_exact_round_trip::<CheckpointWork>(frame.work);
    assert(payload.subrange(at, end) =~= frame.state) by {
        assert forall|i: int| 0 <= i < frame.state.len() implies payload[at + i]
            == frame.state[i] by {}
    }
    assert(Seq::new(payload[5] as nat, |i: int| level_at(payload, i)) =~= frame.levels) by {
        assert forall|i: int| 0 <= i < frame.levels.len() implies level_at(payload, i)
            == frame.levels[i] by {
            lemma_levels_round_trip(frame.levels, payload, i);
        }
    }
}

/// A frame with bytes after its work cursor is rejected.
#[verifier::spinoff_prover]
pub proof fn lemma_frame_rejects_trailing_bytes(frame: FrameView, tail: Seq<u8>)
    requires
        encode_failure(frame) is None,
        tail.len() > 0,
    ensures
        is_frame(frame_layout(frame) + tail),
        frame_outcome(frame_layout(frame) + tail) is Err,
{
    lemma_frame_parts(frame);
    let payload = frame_layout(frame);
    let longer = payload + tail;
    let at = 10 + 8 * frame.levels.len() as int;
    let end = at + frame.state.len() as int;
    assert(longer.subrange(0, 4) =~= payload.subrange(0, 4));
    assert(longer[4] == payload[4] && longer[5] == payload[5]);
    assert(bytes::u32_at(longer, at - 4) == bytes::u32_at(payload, at - 4));
    assert(bytes::u32_at(longer, end) == bytes::u32_at(payload, end));
}

fn invalid(message: &str) -> (result: CatgaError)
    ensures
        result@ == error::validation(message@),
{
    CatgaError::new(ErrorCode::Validation, message)
}

impl CheckpointFrame {
    /// Encodes a frame, unless a part of it exceeds its limit.
    pub fn encode(levels: &[CheckpointLevel], state: Vec<u8>, work: CheckpointWork) -> (result:
        CatgaResult<Vec<u8>>)
        ensures
            ({
                let frame = FrameView { levels: levels@, state: state@, work: work@ };
                match (result, encode_failure(frame)) {
                    (Ok(payload), None) => payload@ == frame_layout(frame),
                    (Err(failure), Some(message)) => failure@ == error::validation(message),
                    _ => false,
                }
            }),
    {
        if levels.len() > MAX_CHECKPOINT_PATH_DEPTH {
            return Err(invalid("DSL checkpoint path exceeds the maximum depth"));
        }
        if state.len() > MAX_CHECKPOINT_STATE_BYTES {
            return Err(invalid("DSL checkpoint state exceeds the maximum size"));
        }
        let mut encoded: Vec<u8> = Vec::new();
        if !work.write(&mut encoded) {
            return Err(invalid("DSL checkpoint work cursor cannot be encoded"));
        }
        assert(encoded@ =~= <CheckpointWork as Record>::layout(work@));
        if encoded.len() > 4294967295 {
            return Err(invalid("DSL checkpoint work cursor is too large"));
        }
        let head: usize = CHECKPOINT_FRAME_HEADER_BYTES + CHECKPOINT_LEVEL_BYTES * levels.len()
            + state.len() + 4;
        let length: usize = match head.checked_add(encoded.len()) {
            Some(length) => length,
            None => {
                return Err(invalid("DSL checkpoint frame is too large"));
            },
        };
        if length > MAX_CHECKPOINT_FRAME_BYTES {
            return Err(invalid("DSL checkpoint frame exceeds the maximum size"));
        }
        let ghost frame = FrameView { levels: levels@, state: state@, work: work@ };
        let mut payload: Vec<u8> = Vec::with_capacity(length);
        payload.push(67);
        payload.push(68);
        payload.push(70);
        payload.push(49);
        payload.push(CHECKPOINT_FRAME_VERSION);
        payload.push(levels.len() as u8);
        let ghost header = frame_magic() + seq![CHECKPOINT_FRAME_VERSION, levels@.len() as u8];
        assert(payload@ =~= header);
        let mut index: usize = 0;
        assert(levels@.take(0) =~= Seq::empty());
        assert(payload@ =~= header + levels_layout(levels@.take(0)));
        while index < levels.len()
            invariant
                index <= levels@.len(),
                payload@ == header + levels_layout(levels@.take(index as int)),
            decreases levels@.len() - index,
        {
            let ghost longer = levels@.take(index + 1);
            push_u32(&mut payload, levels[index].branch);
            push_u32(&mut payload, levels[index].next_step);
            assert(longer.drop_last() =~= levels@.take(index as int));
            assert(longer.last() == levels@[index as int]);
            assert(payload@ =~= header + levels_layout(longer));
            index = index + 1;
        }
        assert(levels@.take(index as int) =~= levels@);
        push_u32(&mut payload, state.len() as u32);
        push_bytes(&mut payload, state.as_slice());
        push_u32(&mut payload, encoded.len() as u32);
        push_bytes(&mut payload, encoded.as_slice());
        assert(payload@ =~= frame_layout(frame));
        Ok(payload)
    }

    /// Decodes a payload; one that does not start like a frame is application state.
    pub fn decode(payload: &[u8]) -> (result: CatgaResult<Option<CheckpointFrame>>)
        ensures
            decode_matches(result, payload@),
    {
        if payload.len() < 4 {
            return Ok(None);
        }
        if !(payload[0] == 67 && payload[1] == 68 && payload[2] == 70 && payload[3] == 49) {
            assert(!is_frame(payload@)) by {
                if is_frame(payload@) {
                    let start = payload@.subrange(0, 4);
                    assert(start[0] == 67 && start[1] == 68 && start[2] == 70 && start[3] == 49);
                }
            }
            return Ok(None);
        }
        assert(payload@.subrange(0, 4) =~= frame_magic());
        if payload.len() > MAX_CHECKPOINT_FRAME_BYTES || payload.len()
            < CHECKPOINT_FRAME_HEADER_BYTES {
            return Err(invalid("DSL checkpoint frame has an invalid size"));
        }
        if payload[4] != CHECKPOINT_FRAME_VERSION {
            return Err(invalid("DSL checkpoint frame has an unsupported version"));
        }
        let level_count: usize = payload[5] as usize;
        if level_count > MAX_CHECKPOINT_PATH_DEPTH {
            return Err(invalid("DSL checkpoint frame exceeds the maximum path depth"));
        }
        let state_start: usize = CHECKPOINT_FRAME_HEADER_BYTES + CHECKPOINT_LEVEL_BYTES
            * level_count;
        if state_start > payload.len() {
            return Err(invalid("DSL checkpoint frame is truncated"));
        }
        let state_length: u32 = read_u32_at(payload, state_start - 4);
        if state_length as usize > MAX_CHECKPOINT_STATE_BYTES {
            return Err(invalid("DSL checkpoint state exceeds the maximum size"));
        }
        let end: usize = state_start + state_length as usize;
        let work: CheckpointWork = if end == payload.len() {
            CheckpointWork::Branch
        } else {
            if end + 4 > payload.len() {
                return Err(invalid("DSL checkpoint work cursor is truncated"));
            }
            let work_length: u32 = read_u32_at(payload, end);
            let work_end: usize = match (end + 4).checked_add(work_length as usize) {
                Some(work_end) => work_end,
                None => {
                    return Err(invalid("DSL checkpoint work cursor is too large"));
                },
            };
            if work_end != payload.len() {
                return Err(invalid("DSL checkpoint work cursor has an invalid length"));
            }
            match read_exact::<CheckpointWork>(
                vstd::slice::slice_subrange(payload, end + 4, work_end),
            ) {
                Some(work) => work,
                None => {
                    return Err(invalid("DSL checkpoint work cursor is invalid"));
                },
            }
        };
        let mut levels: Vec<CheckpointLevel> = Vec::with_capacity(level_count);
        let mut index: usize = 0;
        while index < level_count
            invariant
                index <= level_count <= 32,
                10 + 8 * level_count <= payload@.len(),
                levels@ == Seq::new(index as nat, |i: int| level_at(payload@, i)),
            decreases level_count - index,
        {
            let level = CheckpointLevel {
                branch: read_u32_at(payload, 6 + 8 * index),
                next_step: read_u32_at(payload, 10 + 8 * index),
            };
            levels.push(level);
            index = index + 1;
            assert(levels@ =~= Seq::new(index as nat, |i: int| level_at(payload@, i)));
        }
        let state: Vec<u8> = copy_range(payload, state_start, end);
        Ok(Some(CheckpointFrame { levels, state, work }))
    }
}

/// The bytes of a frame: the letters `CDF1`, the version 1, the number of levels, eight bytes for each
/// level, the length of the state in four bytes and the state, the length of the work in four bytes and
/// the work.
pub proof fn lemma_frames_have_a_fixed_form(frame: FrameView)
    requires
        frame.levels.len() <= 32,
        frame.state.len() <= 1048576,
        <CheckpointWork as Record>::layout(frame.work).len() <= u32::MAX,
    ensures
        ({
            let layout = frame_layout(frame);
            let work = <CheckpointWork as Record>::layout(frame.work);
            let after: int = 6 + 8 * frame.levels.len() as int;
            &&& layout.len() == after + 4 + frame.state.len() + 4 + work.len()
            &&& layout[0] == 67
            &&& layout[1] == 68
            &&& layout[2] == 70
            &&& layout[3] == 49
            &&& layout[4] == 1
            &&& layout[5] == frame.levels.len()
            &&& layout.subrange(after, after + 4) =~= bytes::be_u32(
                frame.state.len() as u32,
            )
            &&& layout.subrange(after + 4, after + 4 + frame.state.len()) =~= frame.state
            &&& layout.subrange(
                after + 4 + frame.state.len(),
                after + 8 + frame.state.len(),
            ) =~= bytes::be_u32(work.len() as u32)
            &&& layout.skip(after + 8 + frame.state.len()) =~= work
            &&& is_frame(layout)
        }),
{
    lemma_levels_length(frame.levels);
    let layout = frame_layout(frame);
    assert(layout.subrange(0, 4) =~= frame_magic());
}

/// The kinds of work are stored under fixed numbers.
pub proof fn lemma_work_is_stored_under_fixed_numbers(work: WorkView)
    ensures
        ({
            let layout = <CheckpointWork as Record>::layout(work);
            &&& layout.len() > 0
            &&& layout[0] == 0 <==> work is Branch
            &&& layout[0] == 1 <==> work is ForEach
            &&& layout[0] == 2 <==> work is ReplayableForEach
            &&& layout[0] == 3 <==> work is Parallel
            &&& layout[0] == 4 <==> work is WhenAny
            &&& layout[0] == 5 <==> work is ParallelBranches
        }),
{
}

} // verus!
