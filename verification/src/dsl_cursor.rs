//! The cursor of a checkpointed top-level step.
//!
//! A cursor holds the branches that execution has entered below one top-level step, and the next
//! child in each. Every child that completes moves the cursor on, and a stored cursor is enough to
//! continue after a restart with the child that comes next.

use vstd::prelude::*;

use crate::dsl;
use crate::dsl::{find_case, DslFlow, DslOperation};
use crate::dsl_checkpoint;
use crate::dsl_checkpoint::{CheckpointLevel, CheckpointWork, MAX_CHECKPOINT_PATH_DEPTH};
use crate::error;
use crate::error::{CatgaError, CatgaResult, ErrorCode};
use crate::search;

verus! {

/// Branch number of the default branch of a match step.
pub const DEFAULT_BRANCH: u32 = u32::MAX;

/// A place inside a checkpointed top-level step.
#[derive(Debug)]
pub struct DslCursor {
    top: u32,
    levels: Vec<CheckpointLevel>,
    work: Option<CheckpointWork>,
}

/// Mathematical model of a [`DslCursor`].
pub struct CursorView {
    /// The top-level step.
    pub top: u32,
    /// The entered branches, each with its next child.
    pub levels: Seq<CheckpointLevel>,
    /// The stored progress of the operation that the cursor leads to.
    pub work: Option<dsl_checkpoint::WorkView>,
}

pub open spec fn work_option(work: Option<CheckpointWork>) -> Option<dsl_checkpoint::WorkView> {
    match work {
        Some(work) => Some(work@),
        None => None,
    }
}

impl View for DslCursor {
    type V = CursorView;

    closed spec fn view(&self) -> CursorView {
        CursorView { top: self.top, levels: self.levels@, work: work_option(self.work) }
    }
}

impl DslCursor {
    /// Returns the top-level step.
    pub fn top(&self) -> (result: u32)
        ensures
            result == self@.top,
    {
        self.top
    }

    /// Returns the entered branches, each with its next child.
    pub fn levels(&self) -> (result: &[CheckpointLevel])
        ensures
            result@ == self@.levels,
    {
        self.levels.as_slice()
    }
}

/// The next effect of a checkpointed top-level step.
#[derive(Debug)]
pub enum CursorStep {
    /// Evaluate the condition at the cursor, then call [`DslFlow::condition_evaluated`].
    EvaluateCondition(DslCursor),
    /// Select the value at the cursor, then call [`DslFlow::value_selected`].
    SelectValue(DslCursor),
    /// Run the operation at the cursor as one unit, then call [`DslFlow::child_finished`].
    RunChild(DslCursor),
    /// Run the operation at the cursor from its stored progress, then call
    /// [`DslFlow::operation_finished`].
    RunOperation { cursor: DslCursor, work: Option<CheckpointWork> },
    /// Store the cursor with the state, then call [`DslFlow::cursor_saved`].
    Save(DslCursor),
    /// The top-level step ends with this result.
    Finish(CatgaResult<()>),
}

/// Mathematical model of a [`CursorStep`].
pub enum CursorStepView {
    EvaluateCondition(CursorView),
    SelectValue(CursorView),
    RunChild(CursorView),
    RunOperation { cursor: CursorView, work: Option<dsl_checkpoint::WorkView> },
    Save(CursorView),
    Finish(Result<(), error::ErrorView>),
}

impl View for CursorStep {
    type V = CursorStepView;

    open spec fn view(&self) -> CursorStepView {
        match *self {
            CursorStep::EvaluateCondition(cursor) => CursorStepView::EvaluateCondition(cursor@),
            CursorStep::SelectValue(cursor) => CursorStepView::SelectValue(cursor@),
            CursorStep::RunChild(cursor) => CursorStepView::RunChild(cursor@),
            CursorStep::RunOperation { cursor, work } => CursorStepView::RunOperation {
                cursor: cursor@,
                work: work_option(work),
            },
            CursorStep::Save(cursor) => CursorStepView::Save(cursor@),
            CursorStep::Finish(result) => CursorStepView::Finish(
                error::unit_result(result),
            ),
        }
    }
}

/// The step that ends with a rejection.
pub open spec fn rejected(message: Seq<char>) -> CursorStepView {
    CursorStepView::Finish(Err(error::validation(message)))
}

fn reject(message: &str) -> (result: CursorStep)
    ensures
        result@ == rejected(message@),
{
    CursorStep::Finish(Err(CatgaError::new(ErrorCode::Validation, message)))
}

/// Whether an operation chooses one of several branches.
pub open spec fn is_branching<A>(operation: DslOperation<A>) -> bool {
    operation is If || operation is Match
}

/// The branch with a number, where the operation has one.
pub open spec fn chosen_branch<A>(operation: DslOperation<A>, branch: u32) -> Option<DslFlow<A>> {
    match operation {
        DslOperation::If { then_branch, else_branch, .. } => if branch == 0 {
            Some(then_branch)
        } else if branch == 1 {
            Some(else_branch)
        } else {
            None
        },
        DslOperation::Match { branches, default_branch, .. } => if branch == DEFAULT_BRANCH {
            Some(default_branch)
        } else if branch < branches@.len() {
            Some(branches@[branch as int])
        } else {
            None
        },
        _ => None,
    }
}

/// Why a branch number is rejected.
pub open spec fn choice_message<A>(operation: DslOperation<A>) -> Seq<char> {
    if operation is If {
        "DSL checkpoint selected an invalid if branch"@
    } else {
        "DSL checkpoint selected an invalid match branch"@
    }
}

/// The operation at a position of a flow.
pub open spec fn operation_in<A>(flow: DslFlow<A>, index: int) -> Option<DslOperation<A>> {
    if 0 <= index < flow@.len() {
        Some(flow@[index])
    } else {
        None
    }
}

/// The branch that was entered at a level.
pub open spec fn entered_branch<A>(
    flow: DslFlow<A>,
    top: u32,
    levels: Seq<CheckpointLevel>,
    depth: int,
) -> Option<DslFlow<A>>
    decreases depth,
{
    if depth < 0 || depth >= levels.len() {
        None
    } else {
        let operation = if depth == 0 {
            operation_in(flow, top as int)
        } else {
            match entered_branch(flow, top, levels, depth - 1) {
                Some(branch) => operation_in(branch, levels[depth - 1].next_step as int),
                None => None,
            }
        };
        match operation {
            Some(operation) => chosen_branch(operation, levels[depth].branch),
            None => None,
        }
    }
}

/// The operation that a cursor leads to.
pub open spec fn operation_at<A>(flow: DslFlow<A>, cursor: CursorView) -> Option<DslOperation<A>> {
    if cursor.levels.len() == 0 {
        operation_in(flow, cursor.top as int)
    } else {
        match entered_branch(flow, cursor.top, cursor.levels, cursor.levels.len() - 1) {
            Some(branch) => operation_in(branch, cursor.levels.last().next_step as int),
            None => None,
        }
    }
}

/// The path with the child at its end counted as done.
pub open spec fn moved_on(levels: Seq<CheckpointLevel>) -> Seq<CheckpointLevel> {
    levels.update(
        levels.len() - 1,
        CheckpointLevel {
            branch: levels.last().branch,
            next_step: (levels.last().next_step + 1) as u32,
        },
    )
}

/// Whether another child can be counted at the end of the path.
pub open spec fn can_move_on(levels: Seq<CheckpointLevel>) -> bool {
    levels.last().next_step < u32::MAX
}

/// What is done at the level `depth` of a cursor. Deeper levels belong to the child that comes
/// next; they lead on into it where it chooses a branch, and are dropped where it does not. Stored
/// progress that a branch was handed ends with that branch.
pub open spec fn proceed_at<A>(flow: DslFlow<A>, cursor: CursorView, depth: int) -> CursorStepView
    decreases 2 * (cursor.levels.len() - depth) + depth,
    when 0 <= depth < cursor.levels.len()
{
    let levels = cursor.levels;
    let here = CursorView { levels: levels.take(depth + 1), ..cursor };
    match entered_branch(flow, cursor.top, levels, depth) {
        None => rejected("DSL checkpoint cursor is missing a branch level"@),
        Some(branch) => {
            let next = levels[depth].next_step;
            if next > branch@.len() {
                rejected("DSL checkpoint step index is outside its branch"@)
            } else if next == branch@.len() {
                if depth == 0 {
                    CursorStepView::Finish(Ok(()))
                } else if !can_move_on(levels.take(depth)) {
                    rejected("DSL checkpoint child index exceeds u32"@)
                } else {
                    proceed_at(
                        flow,
                        CursorView { levels: moved_on(levels.take(depth)), work: None, ..cursor },
                        depth - 1,
                    )
                }
            } else {
                match branch@[next as int] {
                    DslOperation::ForEach { .. } => rejected(
                        "checkpointed for_each requires for_each_replayable"@,
                    ),
                    DslOperation::StreamForEach(_)
                    | DslOperation::StreamForEachConcurrent { .. } => rejected(
                        "checkpointed nested foreach operation has no replay cursor"@,
                    ),
                    DslOperation::ConcurrentForEach { .. } => rejected(
                        "checkpointed nested foreach operation has no replay cursor"@,
                    ),
                    DslOperation::ReplayableForEach { .. }
                    | DslOperation::Parallel { .. }
                    | DslOperation::WhenAny { .. } => CursorStepView::RunOperation {
                        cursor: CursorView { work: None, ..here },
                        work: cursor.work,
                    },
                    DslOperation::If { .. } | DslOperation::Match { .. } => if depth + 1
                        < levels.len() {
                        if chosen_branch(branch@[next as int], levels[depth + 1].branch) is None {
                            rejected(choice_message(branch@[next as int]))
                        } else if depth + 1 >= MAX_CHECKPOINT_PATH_DEPTH {
                            rejected("DSL checkpoint path exceeds the maximum depth"@)
                        } else {
                            proceed_at(flow, cursor, depth + 1)
                        }
                    } else if branch@[next as int] is If {
                        CursorStepView::EvaluateCondition(here)
                    } else {
                        CursorStepView::SelectValue(here)
                    },
                    _ => CursorStepView::RunChild(here),
                }
            }
        },
    }
}

/// The stored progress that a frame hands to the first operation below a top-level step. A frame
/// that was written between two children holds none.
pub open spec fn handed_work(work: Option<dsl_checkpoint::WorkView>) -> Option<
    dsl_checkpoint::WorkView,
> {
    if work == Some(dsl_checkpoint::WorkView::Branch) {
        None
    } else {
        work
    }
}

/// How a top-level step starts, with the path and the progress of a stored frame.
pub open spec fn enter_at<A>(
    flow: DslFlow<A>,
    top: u32,
    levels: Seq<CheckpointLevel>,
    work: Option<dsl_checkpoint::WorkView>,
) -> CursorStepView {
    match operation_in(flow, top as int) {
        None => rejected("DSL checkpoint cursor is missing a branch level"@),
        Some(operation) => match operation {
            DslOperation::ForEach { .. } => rejected(
                "checkpointed for_each requires for_each_replayable"@,
            ),
            DslOperation::StreamForEach(_)
            | DslOperation::StreamForEachConcurrent { .. } => rejected(
                "checkpointed for_each_stream requires a replay cursor"@,
            ),
            DslOperation::ConcurrentForEach { .. } => rejected(
                "checkpointed for_each_concurrent requires a result cursor"@,
            ),
            DslOperation::ReplayableForEach { .. }
            | DslOperation::Parallel { .. }
            | DslOperation::WhenAny { .. } => CursorStepView::RunOperation {
                cursor: CursorView { top, levels, work: None },
                work,
            },
            DslOperation::If { .. } | DslOperation::Match { .. } => {
                let cursor = CursorView { top, levels, work: handed_work(work) };
                if levels.len() > 0 {
                    if chosen_branch(operation, levels[0].branch) is None {
                        rejected(choice_message(operation))
                    } else {
                        proceed_at(flow, cursor, 0)
                    }
                } else if operation is If {
                    CursorStepView::EvaluateCondition(cursor)
                } else {
                    CursorStepView::SelectValue(cursor)
                }
            },
            _ => CursorStepView::RunChild(CursorView { top, levels: Seq::empty(), work: None }),
        },
    }
}

/// How a step goes on once a branch is chosen at the cursor.
pub open spec fn after_choice<A>(flow: DslFlow<A>, cursor: CursorView, branch: u32) ->
    CursorStepView {
    if cursor.levels.len() >= MAX_CHECKPOINT_PATH_DEPTH {
        rejected("DSL checkpoint path exceeds the maximum depth"@)
    } else {
        let levels = cursor.levels.push(CheckpointLevel { branch, next_step: 0 });
        proceed_at(flow, CursorView { levels, ..cursor }, levels.len() - 1)
    }
}

/// The branch number of a condition.
pub open spec fn condition_branch(condition: bool) -> u32 {
    if condition {
        0
    } else {
        1
    }
}

/// How a step goes on once a value is selected at the cursor.
pub open spec fn after_value<A>(flow: DslFlow<A>, cursor: CursorView, value: u64) ->
    CursorStepView {
    match operation_at(flow, cursor) {
        Some(DslOperation::Match { cases, .. }) => match dsl::case_place(cases@, value) {
            Some(place) => if place > u32::MAX {
                rejected("DSL checkpoint match branch index exceeds u32"@)
            } else {
                after_choice(flow, cursor, place as u32)
            },
            None => after_choice(flow, cursor, DEFAULT_BRANCH),
        },
        _ => rejected("DSL checkpoint cursor is missing a branch level"@),
    }
}

/// How a step goes on after the child at the cursor.
pub open spec fn after_child(cursor: CursorView, result: Result<(), error::ErrorView>) ->
    CursorStepView {
    match result {
        Err(failure) => CursorStepView::Finish(Err(failure)),
        Ok(_) => if cursor.levels.len() == 0 {
            CursorStepView::Finish(Ok(()))
        } else if !can_move_on(cursor.levels) {
            rejected("DSL checkpoint child index exceeds u32"@)
        } else {
            CursorStepView::Save(CursorView { levels: moved_on(cursor.levels), ..cursor })
        },
    }
}

/// How a step goes on after the cursor was stored.
pub open spec fn after_saved<A>(
    flow: DslFlow<A>,
    cursor: CursorView,
    result: Result<(), error::ErrorView>,
) -> CursorStepView {
    match result {
        Err(failure) => CursorStepView::Finish(Err(failure)),
        Ok(_) => if cursor.levels.len() == 0 {
            CursorStepView::Finish(Ok(()))
        } else {
            proceed_at(flow, cursor, cursor.levels.len() - 1)
        },
    }
}

/// How a step goes on after the operation at the cursor, which stored its own progress.
pub open spec fn after_operation<A>(
    flow: DslFlow<A>,
    cursor: CursorView,
    result: Result<(), error::ErrorView>,
) -> CursorStepView {
    match result {
        Err(failure) => CursorStepView::Finish(Err(failure)),
        Ok(_) => match operation_in(flow, cursor.top as int) {
            Some(operation) => if !is_branching(operation) || cursor.levels.len() == 0 {
                CursorStepView::Finish(Ok(()))
            } else if !can_move_on(cursor.levels) {
                rejected("DSL checkpoint child index exceeds u32"@)
            } else {
                let moved = CursorView { levels: moved_on(cursor.levels), ..cursor };
                proceed_at(flow, moved, moved.levels.len() - 1)
            },
            None => CursorStepView::Finish(Ok(())),
        },
    }
}

fn choose_branch<A>(operation: &DslOperation<A>, branch: u32) -> (result: Option<&DslFlow<A>>)
    ensures
        match (result, chosen_branch(*operation, branch)) {
            (Some(found), Some(expected)) => *found == expected,
            (None, None) => true,
            _ => false,
        },
{
    match operation {
        DslOperation::If { condition: _, then_branch, else_branch } => {
            if branch == 0 {
                Some(then_branch)
            } else if branch == 1 {
                Some(else_branch)
            } else {
                None
            }
        },
        DslOperation::Match { selector: _, cases: _, branches, default_branch } => {
            if branch == DEFAULT_BRANCH {
                Some(default_branch)
            } else if (branch as usize) < branches.len() {
                Some(&branches[branch as usize])
            } else {
                None
            }
        },
        _ => None,
    }
}

fn reject_choice<A>(operation: &DslOperation<A>) -> (result: CursorStep)
    ensures
        result@ == rejected(choice_message(*operation)),
{
    match operation {
        DslOperation::If { .. } => reject("DSL checkpoint selected an invalid if branch"),
        _ => reject("DSL checkpoint selected an invalid match branch"),
    }
}

/// Counts the child at the end of a path as done.
fn move_on(levels: Vec<CheckpointLevel>) -> (result: Vec<CheckpointLevel>)
    requires
        levels@.len() > 0,
        can_move_on(levels@),
    ensures
        result@ == moved_on(levels@),
{
    let mut levels: Vec<CheckpointLevel> = levels;
    let last: usize = levels.len() - 1;
    let level: CheckpointLevel = levels[last];
    levels.set(
        last,
        CheckpointLevel { branch: level.branch, next_step: level.next_step + 1 },
    );
    levels
}

impl<A> DslFlow<A> {
    fn branch_at_level(&self, top: u32, levels: &Vec<CheckpointLevel>, depth: usize) -> (result:
        Option<&DslFlow<A>>)
        requires
            depth < levels@.len(),
        ensures
            match (result, entered_branch(*self, top, levels@, depth as int)) {
                (Some(found), Some(expected)) => *found == expected,
                (None, None) => true,
                _ => false,
            },
        decreases depth,
    {
        let operation: Option<&DslOperation<A>> = if depth == 0 {
            self.operation(top as usize)
        } else {
            match self.branch_at_level(top, levels, depth - 1) {
                Some(branch) => branch.operation(levels[depth - 1].next_step as usize),
                None => None,
            }
        };
        match operation {
            Some(operation) => choose_branch(operation, levels[depth].branch),
            None => None,
        }
    }

    /// Returns the operation that a cursor leads to.
    pub fn operation_at(&self, cursor: &DslCursor) -> (result: Option<&DslOperation<A>>)
        ensures
            match (result, operation_at(*self, cursor@)) {
                (Some(found), Some(expected)) => *found == expected,
                (None, None) => true,
                _ => false,
            },
    {
        if cursor.levels.len() == 0 {
            return self.operation(cursor.top as usize);
        }
        let last: usize = cursor.levels.len() - 1;
        match self.branch_at_level(cursor.top, &cursor.levels, last) {
            Some(branch) => branch.operation(cursor.levels[last].next_step as usize),
            None => None,
        }
    }

    fn proceed(&self, cursor: DslCursor, depth: usize) -> (step: CursorStep)
        requires
            depth < cursor@.levels.len(),
        ensures
            step@ == proceed_at(*self, cursor@, depth as int),
        decreases 2 * (cursor@.levels.len() - depth) + depth,
    {
        let mut cursor: DslCursor = cursor;
        let length: usize = cursor.levels.len();
        let next: u32 = cursor.levels[depth].next_step;
        let branch: &DslFlow<A> = match self.branch_at_level(cursor.top, &cursor.levels, depth) {
            None => {
                return reject("DSL checkpoint cursor is missing a branch level");
            },
            Some(branch) => branch,
        };
        if next as usize > branch.len() {
            return reject("DSL checkpoint step index is outside its branch");
        }
        let operation: &DslOperation<A> = match branch.operation(next as usize) {
            None => {
                if depth == 0 {
                    return CursorStep::Finish(Ok(()));
                }
                cursor.levels.truncate(depth);
                if cursor.levels[depth - 1].next_step == u32::MAX {
                    return reject("DSL checkpoint child index exceeds u32");
                }
                let levels: Vec<CheckpointLevel> = move_on(cursor.levels);
                return self.proceed(DslCursor { top: cursor.top, levels, work: None }, depth - 1);
            },
            Some(operation) => operation,
        };
        match operation {
            DslOperation::ForEach { .. } => reject(
                "checkpointed for_each requires for_each_replayable",
            ),
            DslOperation::StreamForEach(_)
            | DslOperation::StreamForEachConcurrent { .. } => reject(
                "checkpointed nested foreach operation has no replay cursor",
            ),
            DslOperation::ConcurrentForEach { .. } => reject(
                "checkpointed nested foreach operation has no replay cursor",
            ),
            DslOperation::ReplayableForEach { .. }
            | DslOperation::Parallel { .. }
            | DslOperation::WhenAny { .. } => {
                cursor.levels.truncate(depth + 1);
                CursorStep::RunOperation {
                    cursor: DslCursor { top: cursor.top, levels: cursor.levels, work: None },
                    work: cursor.work,
                }
            },
            DslOperation::If { .. } | DslOperation::Match { .. } => {
                if depth < length - 1 {
                    if choose_branch(operation, cursor.levels[depth + 1].branch).is_none() {
                        return reject_choice(operation);
                    }
                    if depth + 1 >= MAX_CHECKPOINT_PATH_DEPTH {
                        return reject("DSL checkpoint path exceeds the maximum depth");
                    }
                    return self.proceed(cursor, depth + 1);
                }
                assert(cursor.levels@.take(depth + 1) =~= cursor.levels@);
                match operation {
                    DslOperation::If { .. } => CursorStep::EvaluateCondition(cursor),
                    _ => CursorStep::SelectValue(cursor),
                }
            },
            _ => {
                cursor.levels.truncate(depth + 1);
                CursorStep::RunChild(cursor)
            },
        }
    }

    /// Starts a checkpointed top-level step, from the path and the progress of a stored frame.
    pub fn enter_step(
        &self,
        top: u32,
        levels: Vec<CheckpointLevel>,
        work: Option<CheckpointWork>,
    ) -> (step: CursorStep)
        ensures
            step@ == enter_at(*self, top, levels@, work_option(work)),
    {
        let operation: &DslOperation<A> = match self.operation(top as usize) {
            None => {
                return reject("DSL checkpoint cursor is missing a branch level");
            },
            Some(operation) => operation,
        };
        match operation {
            DslOperation::ForEach { .. } => reject(
                "checkpointed for_each requires for_each_replayable",
            ),
            DslOperation::StreamForEach(_)
            | DslOperation::StreamForEachConcurrent { .. } => reject(
                "checkpointed for_each_stream requires a replay cursor",
            ),
            DslOperation::ConcurrentForEach { .. } => reject(
                "checkpointed for_each_concurrent requires a result cursor",
            ),
            DslOperation::ReplayableForEach { .. }
            | DslOperation::Parallel { .. }
            | DslOperation::WhenAny { .. } => CursorStep::RunOperation {
                cursor: DslCursor { top, levels, work: None },
                work,
            },
            DslOperation::If { .. } | DslOperation::Match { .. } => {
                let work: Option<CheckpointWork> = match work {
                    Some(CheckpointWork::Branch) => None,
                    other => other,
                };
                if levels.len() > 0 {
                    if choose_branch(operation, levels[0].branch).is_none() {
                        return reject_choice(operation);
                    }
                    return self.proceed(DslCursor { top, levels, work }, 0);
                }
                match operation {
                    DslOperation::If { .. } => CursorStep::EvaluateCondition(
                        DslCursor { top, levels, work },
                    ),
                    _ => CursorStep::SelectValue(DslCursor { top, levels, work }),
                }
            },
            _ => CursorStep::RunChild(DslCursor { top, levels: Vec::new(), work: None }),
        }
    }

    fn enter_branch(&self, cursor: DslCursor, branch: u32) -> (step: CursorStep)
        ensures
            step@ == after_choice(*self, cursor@, branch),
    {
        let depth: usize = cursor.levels.len();
        if depth >= MAX_CHECKPOINT_PATH_DEPTH {
            return reject("DSL checkpoint path exceeds the maximum depth");
        }
        let mut levels: Vec<CheckpointLevel> = cursor.levels;
        levels.push(CheckpointLevel { branch, next_step: 0 });
        self.proceed(DslCursor { top: cursor.top, levels, work: cursor.work }, depth)
    }

    /// Goes on after the condition at the cursor was evaluated.
    pub fn condition_evaluated(&self, cursor: DslCursor, condition: bool) -> (step: CursorStep)
        ensures
            step@ == after_choice(*self, cursor@, condition_branch(condition)),
    {
        let branch: u32 = if condition {
            0
        } else {
            1
        };
        self.enter_branch(cursor, branch)
    }

    /// Goes on after a value was selected at the cursor.
    pub fn value_selected(&self, cursor: DslCursor, value: u64) -> (step: CursorStep)
        ensures
            step@ == after_value(*self, cursor@, value),
    {
        let place: Option<usize> = match self.operation_at(&cursor) {
            Some(DslOperation::Match { selector: _, cases, branches: _, default_branch: _ }) =>
                find_case(cases, value),
            _ => {
                return reject("DSL checkpoint cursor is missing a branch level");
            },
        };
        match place {
            Some(place) => {
                if place > 4294967295 {
                    return reject("DSL checkpoint match branch index exceeds u32");
                }
                self.enter_branch(cursor, place as u32)
            },
            None => self.enter_branch(cursor, DEFAULT_BRANCH),
        }
    }

    /// Goes on after the child at the cursor ran as one unit.
    pub fn child_finished(&self, cursor: DslCursor, result: CatgaResult<()>) -> (step: CursorStep)
        ensures
            step@ == after_child(cursor@, error::unit_result(result)),
    {
        match result {
            Err(failure) => CursorStep::Finish(Err(failure)),
            Ok(_) => {
                let length: usize = cursor.levels.len();
                if length == 0 {
                    return CursorStep::Finish(Ok(()));
                }
                if cursor.levels[length - 1].next_step == u32::MAX {
                    return reject("DSL checkpoint child index exceeds u32");
                }
                let levels: Vec<CheckpointLevel> = move_on(cursor.levels);
                CursorStep::Save(DslCursor { top: cursor.top, levels, work: cursor.work })
            },
        }
    }

    /// Goes on after the cursor was stored.
    pub fn cursor_saved(&self, cursor: DslCursor, result: CatgaResult<()>) -> (step: CursorStep)
        ensures
            step@ == after_saved(*self, cursor@, error::unit_result(result)),
    {
        match result {
            Err(failure) => CursorStep::Finish(Err(failure)),
            Ok(_) => {
                let length: usize = cursor.levels.len();
                if length == 0 {
                    return CursorStep::Finish(Ok(()));
                }
                self.proceed(cursor, length - 1)
            },
        }
    }

    /// Goes on after the operation at the cursor, which stored its own progress.
    pub fn operation_finished(&self, cursor: DslCursor, result: CatgaResult<()>) -> (step:
        CursorStep)
        ensures
            step@ == after_operation(*self, cursor@, error::unit_result(result)),
    {
        match result {
            Err(failure) => CursorStep::Finish(Err(failure)),
            Ok(_) => {
                match self.operation(cursor.top as usize) {
                    Some(DslOperation::If { .. }) | Some(DslOperation::Match { .. }) => {},
                    _ => {
                        return CursorStep::Finish(Ok(()));
                    },
                }
                let length: usize = cursor.levels.len();
                if length == 0 {
                    return CursorStep::Finish(Ok(()));
                }
                if cursor.levels[length - 1].next_step == u32::MAX {
                    return reject("DSL checkpoint child index exceeds u32");
                }
                let levels: Vec<CheckpointLevel> = move_on(cursor.levels);
                self.proceed(
                    DslCursor { top: cursor.top, levels, work: cursor.work },
                    length - 1,
                )
            },
        }
    }
}

/// Whether every level of a path leads to a branch, and to a child of it or to its end. Every
/// level but the last leads to a child.
pub open spec fn leads_on<A>(flow: DslFlow<A>, top: u32, levels: Seq<CheckpointLevel>) -> bool {
    &&& 0 < levels.len() <= MAX_CHECKPOINT_PATH_DEPTH
    &&& forall|depth: int|
        0 <= depth < levels.len() ==> (#[trigger] entered_branch(flow, top, levels, depth)) is Some
    &&& levels.last().next_step <= entered_branch(flow, top, levels, levels.len() - 1)->0@.len()
}

proof fn lemma_descends<A>(flow: DslFlow<A>, cursor: CursorView, depth: int)
    requires
        leads_on(flow, cursor.top, cursor.levels),
        0 <= depth < cursor.levels.len(),
    ensures
        proceed_at(flow, cursor, depth) == proceed_at(flow, cursor, cursor.levels.len() - 1),
    decreases cursor.levels.len() - depth,
{
    if depth < cursor.levels.len() - 1 {
        let branch = entered_branch(flow, cursor.top, cursor.levels, depth);
        let inner = entered_branch(flow, cursor.top, cursor.levels, depth + 1);
        assert(branch is Some && inner is Some);
        assert(operation_in(branch->0, cursor.levels[depth].next_step as int) is Some);
        lemma_descends(flow, cursor, depth + 1);
    }
}

/// A run that restarts from a stored cursor goes on exactly as the run that stored it.
pub proof fn lemma_restart_continues_the_run<A>(flow: DslFlow<A>, cursor: CursorView)
    requires
        leads_on(flow, cursor.top, cursor.levels),
        cursor.work is None,
    ensures
        enter_at(
            flow,
            cursor.top,
            cursor.levels,
            Some(dsl_checkpoint::WorkView::Branch),
        ) == after_saved(flow, cursor, Ok(())),
{
    lemma_descends(flow, cursor, 0);
    assert(entered_branch(flow, cursor.top, cursor.levels, 0) is Some);
}

/// A restart from the stored progress of an operation leads back to that operation, with the
/// progress that was stored.
pub proof fn lemma_restart_reenters_the_operation<A>(
    flow: DslFlow<A>,
    cursor: CursorView,
    work: dsl_checkpoint::WorkView,
)
    requires
        leads_on(flow, cursor.top, cursor.levels),
        cursor.work is None,
        work != dsl_checkpoint::WorkView::Branch,
        match operation_at(flow, cursor) {
            Some(operation) => operation is ReplayableForEach || operation is Parallel
                || operation is WhenAny,
            None => false,
        },
    ensures
        enter_at(flow, cursor.top, cursor.levels, Some(work)) == (CursorStepView::RunOperation {
            cursor,
            work: Some(work),
        }),
{
    let stored = CursorView { work: Some(work), ..cursor };
    lemma_descends(flow, stored, 0);
    assert(entered_branch(flow, cursor.top, cursor.levels, 0) is Some);
    assert(cursor.levels.take(cursor.levels.len() as int) =~= cursor.levels);
}

/// The place of a cursor: the top-level step and the child of each entered branch.
pub open spec fn place_of(cursor: CursorView) -> Seq<int> {
    seq![cursor.top as int] + cursor.levels.map_values(|level: CheckpointLevel| level.next_step as int)
}

/// The order of places: a place comes before the places inside it and before all later ones.
pub open spec fn precedes(first: Seq<int>, second: Seq<int>) -> bool
    decreases first.len(),
{
    if second.len() == 0 {
        false
    } else if first.len() == 0 {
        true
    } else {
        first[0] < second[0] || (first[0] == second[0] && precedes(
            first.drop_first(),
            second.drop_first(),
        ))
    }
}

proof fn lemma_precedes_transitive(first: Seq<int>, second: Seq<int>, third: Seq<int>)
    requires
        precedes(first, second),
        precedes(second, third),
    ensures
        precedes(first, third),
    decreases first.len(),
{
    if first.len() > 0 {
        if first[0] == second[0] && second[0] == third[0] {
            lemma_precedes_transitive(
                first.drop_first(),
                second.drop_first(),
                third.drop_first(),
            );
        }
    }
}

/// No place comes before itself.
pub proof fn lemma_precedes_irreflexive(place: Seq<int>)
    ensures
        !precedes(place, place),
    decreases place.len(),
{
    if place.len() > 0 {
        lemma_precedes_irreflexive(place.drop_first());
    }
}

proof fn lemma_precedes_after_prefix(prefix: Seq<int>, first: Seq<int>, second: Seq<int>)
    requires
        precedes(first, second),
    ensures
        precedes(prefix + first, prefix + second),
    decreases prefix.len(),
{
    if prefix.len() == 0 {
        assert(prefix + first =~= first);
        assert(prefix + second =~= second);
    } else {
        lemma_precedes_after_prefix(prefix.drop_first(), first, second);
        assert((prefix + first).drop_first() =~= prefix.drop_first() + first);
        assert((prefix + second).drop_first() =~= prefix.drop_first() + second);
    }
}

/// A path whose end was moved on comes after the path, whatever was entered below its end.
proof fn lemma_moved_on_follows(cursor: CursorView, depth: int)
    requires
        0 < depth <= cursor.levels.len(),
        can_move_on(cursor.levels.take(depth)),
    ensures
        precedes(
            place_of(cursor),
            place_of(CursorView { levels: moved_on(cursor.levels.take(depth)), ..cursor }),
        ),
{
    let moved = CursorView { levels: moved_on(cursor.levels.take(depth)), ..cursor };
    let before = place_of(cursor);
    let after = place_of(moved);
    let prefix = before.take(depth);
    let first = before.skip(depth);
    let second = after.skip(depth);
    assert(before =~= prefix + first);
    assert(after =~= prefix + second);
    assert(first[0] < second[0]);
    lemma_precedes_after_prefix(prefix, first, second);
}

proof fn lemma_entered_follows(cursor: CursorView, branch: u32)
    ensures
        precedes(
            place_of(cursor),
            place_of(
                CursorView {
                    levels: cursor.levels.push(CheckpointLevel { branch, next_step: 0 }),
                    ..cursor
                },
            ),
        ),
{
    let inner = CursorView {
        levels: cursor.levels.push(CheckpointLevel { branch, next_step: 0 }),
        ..cursor
    };
    let before = place_of(cursor);
    lemma_precedes_after_prefix(before, Seq::empty(), seq![0int]);
    assert(before + Seq::<int>::empty() =~= before);
    assert(place_of(inner) =~= before + seq![0int]);
}

/// The cursor that a step of a run works with.
pub open spec fn cursor_of(step: CursorStepView) -> Option<CursorView> {
    match step {
        CursorStepView::EvaluateCondition(cursor) => Some(cursor),
        CursorStepView::SelectValue(cursor) => Some(cursor),
        CursorStepView::RunChild(cursor) => Some(cursor),
        CursorStepView::RunOperation { cursor, .. } => Some(cursor),
        CursorStepView::Save(cursor) => Some(cursor),
        CursorStepView::Finish(_) => None,
    }
}

proof fn lemma_proceeds_forward<A>(flow: DslFlow<A>, cursor: CursorView)
    requires
        cursor.levels.len() > 0,
    ensures
        match cursor_of(proceed_at(flow, cursor, cursor.levels.len() - 1)) {
            Some(next) => place_of(next) == place_of(cursor) || precedes(
                place_of(cursor),
                place_of(next),
            ),
            None => true,
        },
    decreases cursor.levels.len(),
{
    let depth = cursor.levels.len() - 1;
    assert(cursor.levels.take(depth + 1) =~= cursor.levels);
    match entered_branch(flow, cursor.top, cursor.levels, depth) {
        Some(branch) => {
            if cursor.levels[depth].next_step == branch@.len() && depth > 0 && can_move_on(
                cursor.levels.take(depth),
            ) {
                let moved = CursorView {
                    levels: moved_on(cursor.levels.take(depth)),
                    work: None,
                    ..cursor
                };
                lemma_moved_on_follows(cursor, depth);
                lemma_proceeds_forward(flow, moved);
                if let Some(next) = cursor_of(proceed_at(flow, moved, depth - 1)) {
                    if place_of(next) != place_of(moved) {
                        lemma_precedes_transitive(
                            place_of(cursor),
                            place_of(moved),
                            place_of(next),
                        );
                    }
                }
            }
        },
        None => {},
    }
}

/// No child runs twice in a run: what follows a completed child, a completed operation or a
/// chosen branch has a later place.
pub proof fn lemma_cursor_only_moves_forward<A>(
    flow: DslFlow<A>,
    cursor: CursorView,
    next: CursorView,
    branch: u32,
)
    ensures
        cursor_of(after_child(cursor, Ok(()))) == Some(next) ==> precedes(
            place_of(cursor),
            place_of(next),
        ),
        cursor_of(after_saved(flow, cursor, Ok(()))) == Some(next) ==> place_of(next) == place_of(
            cursor,
        ) || precedes(place_of(cursor), place_of(next)),
        cursor_of(after_operation(flow, cursor, Ok(()))) == Some(next) ==> precedes(
            place_of(cursor),
            place_of(next),
        ),
        cursor_of(after_choice(flow, cursor, branch)) == Some(next) ==> precedes(
            place_of(cursor),
            place_of(next),
        ),
{
    let length = cursor.levels.len() as int;
    if length > 0 {
        lemma_proceeds_forward(flow, cursor);
        assert(cursor.levels.take(length) =~= cursor.levels);
        if can_move_on(cursor.levels) {
            let moved = CursorView { levels: moved_on(cursor.levels), ..cursor };
            lemma_moved_on_follows(cursor, length);
            lemma_proceeds_forward(flow, moved);
            if cursor_of(proceed_at(flow, moved, length - 1)) == Some(next) && place_of(next)
                != place_of(moved) {
                lemma_precedes_transitive(place_of(cursor), place_of(moved), place_of(next));
            }
        }
    }
    let inner = CursorView {
        levels: cursor.levels.push(CheckpointLevel { branch, next_step: 0 }),
        ..cursor
    };
    lemma_entered_follows(cursor, branch);
    lemma_proceeds_forward(flow, inner);
    if cursor_of(proceed_at(flow, inner, length)) == Some(next) && place_of(next) != place_of(
        inner,
    ) {
        lemma_precedes_transitive(place_of(cursor), place_of(inner), place_of(next));
    }
}

proof fn lemma_same_branch<A>(
    flow: DslFlow<A>,
    top: u32,
    first: Seq<CheckpointLevel>,
    second: Seq<CheckpointLevel>,
    depth: int,
)
    requires
        0 <= depth < first.len(),
        depth < second.len(),
        first.take(depth) == second.take(depth),
        first[depth].branch == second[depth].branch,
    ensures
        entered_branch(flow, top, first, depth) == entered_branch(flow, top, second, depth),
    decreases depth,
{
    if depth > 0 {
        assert(first.take(depth - 1) =~= first.take(depth).take(depth - 1));
        assert(second.take(depth - 1) =~= second.take(depth).take(depth - 1));
        assert(first[depth - 1] == first.take(depth)[depth - 1]);
        assert(second[depth - 1] == second.take(depth)[depth - 1]);
        lemma_same_branch(flow, top, first, second, depth - 1);
    }
}

/// Whether a cursor leads to an operation of the flow.
pub open spec fn leads_to_operation<A>(flow: DslFlow<A>, cursor: CursorView) -> bool {
    &&& operation_at(flow, cursor) is Some
    &&& cursor.levels.len() == 0 || leads_on(flow, cursor.top, cursor.levels)
}

proof fn lemma_moved_path<A>(flow: DslFlow<A>, top: u32, levels: Seq<CheckpointLevel>, depth: int)
    requires
        leads_on(flow, top, levels),
        0 < depth <= levels.len(),
        can_move_on(levels.take(depth)),
        levels[depth - 1].next_step < entered_branch(flow, top, levels, depth - 1)->0@.len(),
    ensures
        leads_on(flow, top, moved_on(levels.take(depth))),
{
    let moved = moved_on(levels.take(depth));
    assert forall|at: int| 0 <= at < moved.len() implies (#[trigger] entered_branch(
        flow,
        top,
        moved,
        at,
    )) is Some by {
        assert(entered_branch(flow, top, levels, at) is Some);
        assert(levels.take(at) =~= moved.take(at));
        lemma_same_branch(flow, top, levels, moved, at);
    }
    assert(levels.take(depth - 1) =~= moved.take(depth - 1));
    lemma_same_branch(flow, top, levels, moved, depth - 1);
    assert(entered_branch(flow, top, levels, depth - 1) is Some);
}

proof fn lemma_proceeds_to_operations<A>(flow: DslFlow<A>, cursor: CursorView)
    requires
        leads_on(flow, cursor.top, cursor.levels),
    ensures
        match cursor_of(proceed_at(flow, cursor, cursor.levels.len() - 1)) {
            Some(next) => leads_to_operation(flow, next) && next.levels.len() > 0,
            None => true,
        },
    decreases cursor.levels.len(),
{
    let depth = cursor.levels.len() - 1;
    assert(cursor.levels.take(depth + 1) =~= cursor.levels);
    let branch = entered_branch(flow, cursor.top, cursor.levels, depth)->0;
    assert(entered_branch(flow, cursor.top, cursor.levels, depth) is Some);
    if cursor.levels[depth].next_step == branch@.len() && depth > 0 && can_move_on(
        cursor.levels.take(depth),
    ) {
        let moved = CursorView {
            levels: moved_on(cursor.levels.take(depth)),
            work: None,
            ..cursor
        };
        let outer = entered_branch(flow, cursor.top, cursor.levels, depth - 1);
        assert(outer is Some);
        assert(operation_in(outer->0, cursor.levels[depth - 1].next_step as int) is Some);
        lemma_moved_path(flow, cursor.top, cursor.levels, depth);
        lemma_proceeds_to_operations(flow, moved);
    }
}

proof fn lemma_entered_path<A>(flow: DslFlow<A>, cursor: CursorView, branch: u32)
    requires
        leads_to_operation(flow, cursor),
        chosen_branch(operation_at(flow, cursor)->0, branch) is Some,
        cursor.levels.len() < MAX_CHECKPOINT_PATH_DEPTH,
    ensures
        leads_on(
            flow,
            cursor.top,
            cursor.levels.push(CheckpointLevel { branch, next_step: 0 }),
        ),
{
    let levels = cursor.levels;
    let inner = levels.push(CheckpointLevel { branch, next_step: 0 });
    assert forall|at: int| 0 <= at < inner.len() implies (#[trigger] entered_branch(
        flow,
        cursor.top,
        inner,
        at,
    )) is Some by {
        if at < levels.len() {
            assert(entered_branch(flow, cursor.top, levels, at) is Some);
            assert(levels.take(at) =~= inner.take(at));
            lemma_same_branch(flow, cursor.top, levels, inner, at);
        } else if levels.len() > 0 {
            let last = levels.len() - 1;
            assert(entered_branch(flow, cursor.top, levels, last) is Some);
            assert(levels.take(last) =~= inner.take(last));
            lemma_same_branch(flow, cursor.top, levels, inner, last);
        }
    }
}

/// Every cursor of a run leads to an operation of the flow, or to the end of an entered branch
/// right after its last child; so every stored cursor can be restarted from.
pub proof fn lemma_cursors_stay_on_the_path<A>(
    flow: DslFlow<A>,
    cursor: CursorView,
    next: CursorView,
    branch: u32,
)
    requires
        leads_to_operation(flow, cursor),
    ensures
        after_child(cursor, Ok(())) == CursorStepView::Save(next) ==> {
            &&& leads_on(flow, next.top, next.levels)
            &&& match cursor_of(after_saved(flow, next, Ok(()))) {
                Some(later) => leads_to_operation(flow, later),
                None => true,
            }
        },
        cursor_of(after_operation(flow, cursor, Ok(()))) == Some(next) ==> leads_to_operation(
            flow,
            next,
        ),
        chosen_branch(operation_at(flow, cursor)->0, branch) is Some && cursor_of(
            after_choice(flow, cursor, branch),
        ) == Some(next) ==> leads_to_operation(flow, next),
{
    let length = cursor.levels.len() as int;
    if length > 0 {
        assert(cursor.levels.take(length) =~= cursor.levels);
        assert(entered_branch(flow, cursor.top, cursor.levels, length - 1) is Some);
        if can_move_on(cursor.levels) {
            let moved = CursorView { levels: moved_on(cursor.levels), ..cursor };
            lemma_moved_path(flow, cursor.top, cursor.levels, length);
            lemma_proceeds_to_operations(flow, moved);
        }
    }
    if chosen_branch(operation_at(flow, cursor)->0, branch) is Some && length
        < MAX_CHECKPOINT_PATH_DEPTH {
        let inner = CursorView {
            levels: cursor.levels.push(CheckpointLevel { branch, next_step: 0 }),
            ..cursor
        };
        lemma_entered_path(flow, cursor, branch);
        lemma_proceeds_to_operations(flow, inner);
    }
}

/// Whether a step starts an operation that a cursor leads to: it asks for the choice of a branch,
/// hands stored progress to an operation that keeps some, runs any other operation as one unit, and
/// rejects an operation that cannot be continued after a restart.
pub open spec fn starts_operation<A>(
    operation: DslOperation<A>,
    cursor: CursorView,
    step: CursorStepView,
) -> bool {
    match operation {
        DslOperation::Action(_)
        | DslOperation::Retry { .. }
        | DslOperation::Timeout { .. }
        | DslOperation::Throttle { .. } => step == CursorStepView::RunChild(cursor),
        DslOperation::If { .. } => step == CursorStepView::EvaluateCondition(cursor),
        DslOperation::Match { .. } => step == CursorStepView::SelectValue(cursor),
        DslOperation::ReplayableForEach { .. }
        | DslOperation::Parallel { .. }
        | DslOperation::WhenAny { .. } => step == (CursorStepView::RunOperation {
            cursor: CursorView { work: None, ..cursor },
            work: cursor.work,
        }),
        _ => {
            &&& step is Finish
            &&& step->Finish_0 is Err
            &&& step->Finish_0->Err_0.code == ErrorCode::Validation
        },
    }
}

/// The cursor at the first child of a branch with a number.
pub open spec fn inside(cursor: CursorView, number: u32) -> CursorView {
    CursorView {
        levels: cursor.levels.push(CheckpointLevel { branch: number, next_step: 0 }),
        ..cursor
    }
}

/// The cursor behind the child that it leads to.
pub open spec fn behind(cursor: CursorView) -> CursorView {
    let last = cursor.levels.last();
    CursorView {
        levels: cursor.levels.drop_last().push(
            CheckpointLevel { branch: last.branch, next_step: (last.next_step + 1) as u32 },
        ),
        ..cursor
    }
}

/// Whether a step enters a branch with a number at a cursor: it starts the first child of the
/// branch, or, where the branch has none, goes on behind the operation that chose it.
pub open spec fn enters<A>(
    flow: DslFlow<A>,
    cursor: CursorView,
    number: u32,
    branch: DslFlow<A>,
    step: CursorStepView,
) -> bool {
    if branch@.len() > 0 {
        starts_operation(branch@[0], inside(cursor, number), step)
    } else if cursor.levels.len() == 0 {
        step == CursorStepView::Finish(Ok(()))
    } else {
        cursor.levels.last().next_step < u32::MAX ==> step == after_saved(
            flow,
            CursorView { work: None, ..behind(cursor) },
            Ok(()),
        )
    }
}

proof fn lemma_choice_enters<A>(
    flow: DslFlow<A>,
    cursor: CursorView,
    operation: DslOperation<A>,
    number: u32,
)
    requires
        operation_at(flow, cursor) == Some(operation),
        chosen_branch(operation, number) is Some,
        cursor.levels.len() < 32,
    ensures
        enters(
            flow,
            cursor,
            number,
            chosen_branch(operation, number)->0,
            after_choice(flow, cursor, number),
        ),
{
    let inner = inside(cursor, number);
    let depth = cursor.levels.len() as int;
    if depth > 0 {
        assert(cursor.levels.take(depth - 1) =~= inner.levels.take(depth - 1));
        lemma_same_branch(flow, cursor.top, cursor.levels, inner.levels, depth - 1);
    }
    assert(inner.levels.take(depth + 1) =~= inner.levels);
    assert(inner.levels.take(depth) =~= cursor.levels);
    if depth > 0 && can_move_on(cursor.levels) {
        assert(moved_on(cursor.levels) =~= behind(cursor).levels);
    }
}

/// A match step enters exactly the branch that a run without checkpoints takes for the selected
/// value: the one that stands at the place of the value among the registered ones, and the default
/// branch for a value that was not registered. A branch with children is never ended before its
/// first child is started.
pub proof fn lemma_selected_values_enter_their_branch<A>(
    flow: DslFlow<A>,
    cursor: CursorView,
    selector: A,
    cases: Vec<u64>,
    branches: Vec<DslFlow<A>>,
    default_branch: DslFlow<A>,
    value: u64,
)
    requires
        operation_at(flow, cursor) == Some(
            (DslOperation::Match { selector, cases, branches, default_branch }),
        ),
        cases@.len() == branches@.len() <= u32::MAX,
        cursor.levels.len() < 32,
    ensures
        ({
            let step = after_value(flow, cursor, value);
            let operation = DslOperation::Match { selector, cases, branches, default_branch };
            &&& (forall|i: int| 0 <= i < cases@.len() ==> #[trigger] cases@[i] != value) ==> enters(
                flow,
                cursor,
                u32::MAX,
                default_branch,
                step,
            )
            &&& forall|place: int|
                {
                    &&& 0 <= place < cases@.len()
                    &&& #[trigger] cases@[place] == value
                    &&& forall|i: int| 0 <= i < place ==> #[trigger] cases@[i] != value
                } ==> enters(flow, cursor, place as u32, branches@[place], step)
            &&& operation.branch_of(value) is Some
            &&& exists|number: u32|
                #[trigger] enters(flow, cursor, number, operation.branch_of(value)->0, step)
        }),
{
    let operation = DslOperation::Match { selector, cases, branches, default_branch };
    let step = after_value(flow, cursor, value);
    let same = dsl::equals(value);
    let found = dsl::case_place(cases@, value);
    search::lemma_first(cases@, same, found);
    assert forall|place: int|
        {
            &&& 0 <= place < cases@.len()
            &&& #[trigger] cases@[place] == value
            &&& forall|i: int| 0 <= i < place ==> #[trigger] cases@[i] != value
        } implies found == Some(place) by {
        assert forall|i: int| 0 <= i < place implies !#[trigger] same(cases@[i]) by {
            assert(cases@[i] != value);
        }
        search::lemma_first(cases@, same, Some(place));
    }
    match found {
        Some(place) => {
            assert(cases@[place] == value);
            lemma_choice_enters(flow, cursor, operation, place as u32);
            assert(enters(flow, cursor, place as u32, operation.branch_of(value)->0, step));
        },
        None => {
            lemma_choice_enters(flow, cursor, operation, u32::MAX);
            assert(enters(flow, cursor, u32::MAX, operation.branch_of(value)->0, step));
        },
    }
}

/// A match step that was built from cases enters the branch that was registered last for the
/// selected value, and the default branch for a value that was not registered.
pub proof fn lemma_the_last_registered_branch_is_entered<A>(
    flow: DslFlow<A>,
    cursor: CursorView,
    before: Seq<DslOperation<A>>,
    after: Seq<DslOperation<A>>,
    selector: A,
    registered: Seq<(u64, DslFlow<A>)>,
    fallback: DslFlow<A>,
    value: u64,
    last: Option<int>,
    taken: DslFlow<A>,
)
    requires
        dsl::appended_match(before, after, selector, registered, fallback),
        operation_at(flow, cursor) == Some(after.last()),
        dsl::kept_cases(registered).len() <= u32::MAX,
        cursor.levels.len() < 32,
        match last {
            Some(last) => {
                &&& 0 <= last < registered.len()
                &&& registered[last].0 == value
                &&& forall|i: int| last < i < registered.len() ==> (#[trigger] registered[i]).0 != value
            },
            None => forall|i: int|
                0 <= i < registered.len() ==> (#[trigger] registered[i]).0 != value,
        },
        taken == match last {
            Some(last) => registered[last].1,
            None => fallback,
        },
    ensures
        exists|number: u32| #[trigger]
            enters(flow, cursor, number, taken, after_value(flow, cursor, value)),
{
    dsl::lemma_match_runs_the_last_case(before, after, selector, registered, fallback, value);
    dsl::lemma_last_registered(registered, value, last);
    if let DslOperation::Match { selector, cases, branches, default_branch } = after.last() {
        lemma_selected_values_enter_their_branch(
            flow,
            cursor,
            selector,
            cases,
            branches,
            default_branch,
            value,
        );
    }
}

/// An if step enters its first branch where the condition holds, and its second where it does not.
pub proof fn lemma_conditions_enter_their_branch<A>(
    flow: DslFlow<A>,
    cursor: CursorView,
    condition: A,
    then_branch: DslFlow<A>,
    else_branch: DslFlow<A>,
)
    requires
        operation_at(flow, cursor) == Some(
            (DslOperation::If { condition, then_branch, else_branch }),
        ),
        cursor.levels.len() < 32,
    ensures
        enters(
            flow,
            cursor,
            0,
            then_branch,
            after_choice(flow, cursor, condition_branch(true)),
        ),
        enters(
            flow,
            cursor,
            1,
            else_branch,
            after_choice(flow, cursor, condition_branch(false)),
        ),
{
    let operation = DslOperation::If { condition, then_branch, else_branch };
    lemma_choice_enters(flow, cursor, operation, 0);
    lemma_choice_enters(flow, cursor, operation, 1);
}

/// A choice at the deepest permitted place is rejected: no branch is entered and none is passed
/// over.
pub proof fn lemma_paths_stay_bounded<A>(
    flow: DslFlow<A>,
    cursor: CursorView,
    number: u32,
)
    requires
        cursor.levels.len() >= 32,
    ensures
        after_choice(flow, cursor, number) is Finish,
        after_choice(flow, cursor, number)->Finish_0 is Err,
        after_choice(flow, cursor, number)->Finish_0->Err_0.code == ErrorCode::Validation,
{
}

/// After a child of a branch completed, the cursor behind it is stored, and then its next sibling is
/// started: no child is passed over and none is started twice. Behind the last child of a branch the
/// run goes on as it does behind the operation that chose the branch, and behind the last child of a
/// top-level step that step has succeeded.
pub proof fn lemma_children_run_one_after_the_other<A>(
    flow: DslFlow<A>,
    cursor: CursorView,
    branch: DslFlow<A>,
)
    requires
        cursor.levels.len() > 0,
        entered_branch(flow, cursor.top, cursor.levels, cursor.levels.len() - 1) == Some(branch),
        cursor.levels.last().next_step < branch@.len() <= u32::MAX,
    ensures
        ({
            let done = behind(cursor);
            let next = cursor.levels.last().next_step + 1;
            let step = after_saved(flow, done, Ok(()));
            &&& after_child(cursor, Ok(())) == CursorStepView::Save(done)
            &&& next < branch@.len() ==> starts_operation(branch@[next], done, step)
            &&& next == branch@.len() && cursor.levels.len() == 1 ==> step
                == CursorStepView::Finish(Ok(()))
            &&& next == branch@.len() && cursor.levels.len() > 1 && cursor.levels[cursor.levels.len()
                - 2].next_step < u32::MAX ==> step == after_saved(
                flow,
                CursorView {
                    work: None,
                    ..behind(CursorView { levels: cursor.levels.drop_last(), ..cursor })
                },
                Ok(()),
            )
        }),
{
    let done = behind(cursor);
    let depth = cursor.levels.len() - 1;
    assert(moved_on(cursor.levels) =~= done.levels);
    assert(cursor.levels.take(depth) =~= done.levels.take(depth));
    lemma_same_branch(flow, cursor.top, cursor.levels, done.levels, depth);
    assert(done.levels.take(depth + 1) =~= done.levels);
    if depth > 0 {
        let outer = CursorView { levels: cursor.levels.drop_last(), ..cursor };
        assert(done.levels.take(depth) =~= outer.levels);
        if can_move_on(outer.levels) {
            assert(moved_on(outer.levels) =~= behind(outer).levels);
        }
    }
}

/// An operation inside a branch that stored its own progress is followed by what follows any other
/// child, and one that is a top-level step ends that step.
pub proof fn lemma_operations_are_followed_like_children<A>(flow: DslFlow<A>, cursor: CursorView)
    requires
        cursor.top < flow@.len(),
        cursor.levels.len() > 0 ==> cursor.levels.last().next_step < u32::MAX,
    ensures
        cursor.levels.len() > 0 && (flow@[cursor.top as int] is If || flow@[cursor.top as int] is Match)
            ==> after_operation(flow, cursor, Ok(())) == after_saved(flow, behind(cursor), Ok(())),
        !(flow@[cursor.top as int] is If || flow@[cursor.top as int] is Match) ==> after_operation(
            flow,
            cursor,
            Ok(()),
        ) == CursorStepView::Finish(Ok(())),
{
    if cursor.levels.len() > 0 {
        assert(moved_on(cursor.levels) =~= behind(cursor).levels);
    }
}

/// A child, an operation or a write that fails ends the top-level step with that failure; nothing
/// behind it is started.
pub proof fn lemma_failures_end_the_step<A>(
    flow: DslFlow<A>,
    cursor: CursorView,
    failure: error::ErrorView,
)
    ensures
        after_child(cursor, Err(failure)) == CursorStepView::Finish(Err(failure)),
        after_saved(flow, cursor, Err(failure)) == CursorStepView::Finish(Err(failure)),
        after_operation(flow, cursor, Err(failure)) == CursorStepView::Finish(Err(failure)),
{
}

/// A top-level step without a stored path starts its own operation, with the progress that was
/// stored for it; one that ran as one unit has succeeded.
pub proof fn lemma_top_level_steps_start_their_operation<A>(
    flow: DslFlow<A>,
    top: u32,
    work: Option<dsl_checkpoint::WorkView>,
)
    requires
        top < flow@.len(),
        work is None || flow@[top as int] is ReplayableForEach || flow@[top as int] is Parallel
            || flow@[top as int] is WhenAny,
    ensures
        starts_operation(
            flow@[top as int],
            CursorView { top, levels: Seq::empty(), work },
            enter_at(flow, top, Seq::empty(), work),
        ),
        after_child(CursorView { top, levels: Seq::empty(), work }, Ok(())) == CursorStepView::Finish(
            Ok(()),
        ),
{
}

/// A top-level step that runs as one unit is started without a path, whatever was stored for it.
pub proof fn lemma_single_steps_have_no_path<A>(
    flow: DslFlow<A>,
    top: u32,
    levels: Seq<CheckpointLevel>,
    work: Option<dsl_checkpoint::WorkView>,
)
    requires
        top < flow@.len(),
        flow@[top as int] is Action || flow@[top as int] is Retry || flow@[top as int] is Timeout
            || flow@[top as int] is Throttle,
    ensures
        enter_at(flow, top, levels, work) == CursorStepView::RunChild(
            CursorView { top, levels: Seq::empty(), work: None },
        ),
{
}

} // verus!
