//! Sequential work on the items of a collection, with a cursor that checkpoints keep.
//!
//! Each method takes what the last effect returned and answers with the next [`ItemStep`].

use vstd::prelude::*;

use crate::dsl_checkpoint;
use crate::dsl_checkpoint::{clone_payload, CheckpointWork};
use crate::dsl_cursor;
use crate::error;
use crate::error::{CatgaError, CatgaResult, ErrorCode};

verus! {

/// Largest number of items that a checkpoint keeps.
pub const MAX_CHECKPOINT_REPLAYABLE_ITEMS: usize = 65536;

/// Largest item that a checkpoint keeps.
pub const MAX_CHECKPOINT_REPLAYABLE_ITEM_BYTES: usize = 1048576;

/// Largest sum of item sizes that a checkpoint keeps.
pub const MAX_CHECKPOINT_REPLAYABLE_ITEMS_BYTES: usize = 1048576;

/// The sum of the sizes of some items.
pub open spec fn total_size(items: Seq<Seq<u8>>) -> nat
    decreases items.len(),
{
    if items.len() == 0 {
        0
    } else {
        total_size(items.drop_last()) + items.last().len()
    }
}

/// Why items are too large for a checkpoint: the first item that exceeds a limit decides.
pub open spec fn size_failure(items: Seq<Seq<u8>>) -> Option<Seq<char>>
    decreases items.len(),
{
    if items.len() == 0 {
        None
    } else if let Some(message) = size_failure(items.drop_last()) {
        Some(message)
    } else if items.last().len() > MAX_CHECKPOINT_REPLAYABLE_ITEM_BYTES {
        Some("replayable for_each item exceeds the checkpoint size limit"@)
    } else if total_size(items) > MAX_CHECKPOINT_REPLAYABLE_ITEMS_BYTES {
        Some("replayable for_each items exceed the checkpoint size limit"@)
    } else {
        None
    }
}

/// Why items cannot be kept in a checkpoint, or `None` where they can.
pub open spec fn items_failure(items: Seq<Seq<u8>>) -> Option<Seq<char>> {
    if items.len() > MAX_CHECKPOINT_REPLAYABLE_ITEMS {
        Some("replayable for_each item count exceeds the checkpoint limit"@)
    } else {
        size_failure(items)
    }
}

proof fn lemma_early_size_failure(items: Seq<Seq<u8>>, count: int)
    requires
        0 <= count <= items.len(),
        size_failure(items.take(count)) is Some,
    ensures
        size_failure(items) == size_failure(items.take(count)),
    decreases items.len(),
{
    if count == items.len() {
        assert(items.take(count) =~= items);
    } else {
        let init = items.drop_last();
        assert(init.take(count) =~= items.take(count));
        lemma_early_size_failure(init, count);
    }
}

/// Validates the items of a replayable collection against the checkpoint limits.
pub fn validate_replayable_for_each_items(items: &Vec<Vec<u8>>) -> (result: CatgaResult<()>)
    ensures
        match (result, items_failure(items.deep_view())) {
            (Ok(_), None) => true,
            (Err(failure), Some(message)) => failure@ == error::validation(message),
            _ => false,
        },
{
    let ghost model = items.deep_view();
    if items.len() > MAX_CHECKPOINT_REPLAYABLE_ITEMS {
        return Err(
            CatgaError::new(
                ErrorCode::Validation,
                "replayable for_each item count exceeds the checkpoint limit",
            ),
        );
    }
    let mut total: usize = 0;
    let mut index: usize = 0;
    assert(model.take(0) =~= Seq::empty());
    while index < items.len()
        invariant
            index <= items@.len(),
            model == items.deep_view(),
            items@.len() <= MAX_CHECKPOINT_REPLAYABLE_ITEMS,
            size_failure(model.take(index as int)) is None,
            total == total_size(model.take(index as int)),
            total <= MAX_CHECKPOINT_REPLAYABLE_ITEMS_BYTES,
        decreases items@.len() - index,
    {
        let length: usize = items[index].len();
        let ghost longer = model.take(index + 1);
        proof {
            assert(longer.drop_last() =~= model.take(index as int));
            assert(longer.last() == model[index as int]);
            assert(model[index as int] =~= items@[index as int].deep_view());
        }
        if length > MAX_CHECKPOINT_REPLAYABLE_ITEM_BYTES {
            proof {
                lemma_early_size_failure(model, index + 1);
            }
            return Err(
                CatgaError::new(
                    ErrorCode::Validation,
                    "replayable for_each item exceeds the checkpoint size limit",
                ),
            );
        }
        total = total + length;
        if total > MAX_CHECKPOINT_REPLAYABLE_ITEMS_BYTES {
            proof {
                lemma_early_size_failure(model, index + 1);
            }
            return Err(
                CatgaError::new(
                    ErrorCode::Validation,
                    "replayable for_each items exceed the checkpoint size limit",
                ),
            );
        }
        index = index + 1;
    }
    assert(model.take(index as int) =~= model);
    Ok(())
}

/// Sequential work on selected items.
#[derive(Debug)]
pub struct ItemRun {
    items: Vec<Vec<u8>>,
    next: usize,
    continues_on_error: bool,
    checkpointed: bool,
}

/// Mathematical model of an [`ItemRun`].
pub struct ItemRunView {
    pub items: Seq<Seq<u8>>,
    /// The item to work on.
    pub next: int,
    /// Whether a handled failure of an item lets the next one start.
    pub continues_on_error: bool,
    /// Whether the cursor is stored after each item.
    pub checkpointed: bool,
}

impl View for ItemRun {
    type V = ItemRunView;

    closed spec fn view(&self) -> ItemRunView {
        ItemRunView {
            items: self.items.deep_view(),
            next: self.next as int,
            continues_on_error: self.continues_on_error,
            checkpointed: self.checkpointed,
        }
    }
}

/// The next effect of sequential work on items.
#[derive(Debug)]
pub enum ItemStep {
    /// Select and encode the items, then call [`items_selected`].
    Select,
    /// Work on the item at [`ItemRun::next`], then call [`ItemRun::item_finished`].
    Run(ItemRun),
    /// Hand the failure of the item at [`ItemRun::next`] to the error callback, then call
    /// [`ItemRun::error_handled`].
    HandleError { run: ItemRun, error: CatgaError },
    /// Store the cursor [`ItemRun::work`], then call [`ItemRun::cursor_saved`].
    Save(ItemRun),
    /// The work ends with this result.
    Finish(CatgaResult<()>),
}

/// Mathematical model of an [`ItemStep`].
pub enum ItemStepView {
    Select,
    Run(ItemRunView),
    HandleError { run: ItemRunView, error: error::ErrorView },
    Save(ItemRunView),
    Finish(Result<(), error::ErrorView>),
}

impl View for ItemStep {
    type V = ItemStepView;

    open spec fn view(&self) -> ItemStepView {
        match *self {
            ItemStep::Select => ItemStepView::Select,
            ItemStep::Run(run) => ItemStepView::Run(run@),
            ItemStep::HandleError { run, error } => ItemStepView::HandleError {
                run: run@,
                error: error@,
            },
            ItemStep::Save(run) => ItemStepView::Save(run@),
            ItemStep::Finish(result) => ItemStepView::Finish(error::unit_result(result)),
        }
    }
}

/// The step that ends with a rejection.
pub open spec fn items_rejected(message: Seq<char>) -> ItemStepView {
    ItemStepView::Finish(Err(error::validation(message)))
}

/// The model of selected items.
pub open spec fn items_result(result: CatgaResult<Vec<Vec<u8>>>) -> Result<
    Seq<Seq<u8>>,
    error::ErrorView,
> {
    match result {
        Ok(items) => Ok(items.deep_view()),
        Err(failure) => Err(failure@),
    }
}

impl ItemRunView {
    /// What is done at the cursor.
    pub open spec fn at_cursor(self) -> ItemStepView {
        if self.next < self.items.len() {
            ItemStepView::Run(self)
        } else {
            ItemStepView::Finish(Ok(()))
        }
    }

    /// The cursor with the current item, where there is one, counted as done.
    pub open spec fn moved_on(self) -> Self {
        if self.next < self.items.len() {
            ItemRunView { next: self.next + 1, ..self }
        } else {
            self
        }
    }

    /// What is done once the current item is settled.
    pub open spec fn settled(self) -> ItemStepView {
        if self.checkpointed {
            ItemStepView::Save(self.moved_on())
        } else {
            self.moved_on().at_cursor()
        }
    }

    /// What follows the work on the current item.
    pub open spec fn after_item(self, result: Result<(), error::ErrorView>) -> ItemStepView {
        match result {
            Ok(_) => self.settled(),
            Err(error) => if self.continues_on_error {
                ItemStepView::HandleError { run: self, error }
            } else {
                ItemStepView::Finish(Err(error))
            },
        }
    }

    /// What follows the error callback.
    pub open spec fn after_handler(self, result: Result<(), error::ErrorView>) -> ItemStepView {
        match result {
            Ok(_) => self.settled(),
            Err(error) => ItemStepView::Finish(Err(error)),
        }
    }

    /// What follows the storing of the cursor.
    pub open spec fn after_save(self, result: Result<(), error::ErrorView>) -> ItemStepView {
        match result {
            Ok(_) => self.at_cursor(),
            Err(error) => ItemStepView::Finish(Err(error)),
        }
    }

    /// The progress that a checkpoint keeps.
    pub open spec fn work(self) -> dsl_checkpoint::WorkView {
        dsl_checkpoint::WorkView::ReplayableForEach {
            next_index: self.next as u32,
            items: self.items,
        }
    }
}

/// How work on items starts at a stored cursor.
pub open spec fn start_at(run: ItemRunView) -> ItemStepView {
    match items_failure(run.items) {
        Some(message) => items_rejected(message),
        None => if run.next > run.items.len() {
            items_rejected("replayable for_each cursor is outside its saved items"@)
        } else {
            run.at_cursor()
        },
    }
}

/// How work on items starts, with the progress of a stored frame.
pub open spec fn start_items(
    continues_on_error: bool,
    checkpointed: bool,
    work: Option<dsl_checkpoint::WorkView>,
) -> ItemStepView {
    match work {
        None => ItemStepView::Select,
        Some(dsl_checkpoint::WorkView::ReplayableForEach { next_index, items }) => start_at(
            ItemRunView { items, next: next_index as int, continues_on_error, checkpointed },
        ),
        Some(_) => items_rejected(
            "DSL checkpoint cursor does not describe a replayable for_each step"@,
        ),
    }
}

/// How work starts on newly selected items; only checkpoints limit them.
pub open spec fn start_selected(
    continues_on_error: bool,
    checkpointed: bool,
    selected: Result<Seq<Seq<u8>>, error::ErrorView>,
) -> ItemStepView {
    match selected {
        Err(failure) => ItemStepView::Finish(Err(failure)),
        Ok(items) => {
            let run = ItemRunView { items, next: 0, continues_on_error, checkpointed };
            if checkpointed {
                start_at(run)
            } else {
                run.at_cursor()
            }
        },
    }
}

fn check_cursor(run: ItemRun) -> (step: ItemStep)
    ensures
        step@ == start_at(run@),
{
    match validate_replayable_for_each_items(&run.items) {
        Err(failure) => ItemStep::Finish(Err(failure)),
        Ok(_) => {
            if run.next > run.items.len() {
                return ItemStep::Finish(
                    Err(
                        CatgaError::new(
                            ErrorCode::Validation,
                            "replayable for_each cursor is outside its saved items",
                        ),
                    ),
                );
            }
            run.at_cursor()
        },
    }
}

/// Starts checkpointed work on items, from the progress of a stored frame.
pub fn resume_items(continues_on_error: bool, work: Option<CheckpointWork>) -> (step: ItemStep)
    ensures
        step@ == start_items(continues_on_error, true, dsl_cursor::work_option(work)),
{
    match work {
        None => ItemStep::Select,
        Some(CheckpointWork::ReplayableForEach { next_index, items }) => check_cursor(
            ItemRun {
                items,
                next: next_index as usize,
                continues_on_error,
                checkpointed: true,
            },
        ),
        Some(_) => ItemStep::Finish(
            Err(
                CatgaError::new(
                    ErrorCode::Validation,
                    "DSL checkpoint cursor does not describe a replayable for_each step",
                ),
            ),
        ),
    }
}

/// Starts work on newly selected items.
pub fn items_selected(
    continues_on_error: bool,
    checkpointed: bool,
    selected: CatgaResult<Vec<Vec<u8>>>,
) -> (step: ItemStep)
    ensures
        step@ == start_selected(continues_on_error, checkpointed, items_result(selected)),
{
    match selected {
        Err(failure) => ItemStep::Finish(Err(failure)),
        Ok(items) => {
            let run = ItemRun { items, next: 0, continues_on_error, checkpointed };
            if checkpointed {
                check_cursor(run)
            } else {
                run.at_cursor()
            }
        },
    }
}

fn clone_items(items: &Vec<Vec<u8>>) -> (result: Vec<Vec<u8>>)
    ensures
        result.deep_view() == items.deep_view(),
{
    let mut result: Vec<Vec<u8>> = Vec::new();
    let mut index: usize = 0;
    while index < items.len()
        invariant
            index <= items@.len(),
            result@.len() == index,
            forall|i: int|
                0 <= i < index ==> (#[trigger] result@[i]).deep_view() == items@[i].deep_view(),
        decreases items@.len() - index,
    {
        result.push(clone_payload(&items[index]));
        index = index + 1;
    }
    assert(result.deep_view() =~= items.deep_view());
    result
}

impl ItemRun {
    fn at_cursor(self) -> (step: ItemStep)
        ensures
            step@ == self@.at_cursor(),
    {
        if self.next < self.items.len() {
            ItemStep::Run(self)
        } else {
            ItemStep::Finish(Ok(()))
        }
    }

    /// Returns the position of the item to work on.
    pub fn next(&self) -> (result: usize)
        ensures
            result == self@.next,
    {
        self.next
    }

    /// Returns the encoded item to work on.
    pub fn item(&self) -> (result: Option<&[u8]>)
        ensures
            match result {
                Some(item) => self@.next < self@.items.len() && item@ == self@.items[self@.next],
                None => self@.next >= self@.items.len(),
            },
    {
        if self.next < self.items.len() {
            assert(self.items@[self.next as int].deep_view() =~= self.items@[self.next as int]@);
            Some(self.items[self.next].as_slice())
        } else {
            None
        }
    }

    /// Returns the progress that a checkpoint keeps.
    pub fn work(&self) -> (result: CheckpointWork)
        ensures
            result@ == self@.work(),
    {
        CheckpointWork::ReplayableForEach {
            next_index: self.next as u32,
            items: clone_items(&self.items),
        }
    }

    fn settle(self) -> (step: ItemStep)
        ensures
            step@ == self@.settled(),
    {
        let next: usize = if self.next < self.items.len() {
            self.next + 1
        } else {
            self.next
        };
        let run = ItemRun { next, ..self };
        if run.checkpointed {
            ItemStep::Save(run)
        } else {
            run.at_cursor()
        }
    }

    /// Goes on after the work on the current item.
    pub fn item_finished(self, result: CatgaResult<()>) -> (step: ItemStep)
        ensures
            step@ == self@.after_item(error::unit_result(result)),
    {
        match result {
            Ok(_) => self.settle(),
            Err(error) => {
                if self.continues_on_error {
                    ItemStep::HandleError { run: self, error }
                } else {
                    ItemStep::Finish(Err(error))
                }
            },
        }
    }

    /// Goes on after the error callback.
    pub fn error_handled(self, result: CatgaResult<()>) -> (step: ItemStep)
        ensures
            step@ == self@.after_handler(error::unit_result(result)),
    {
        match result {
            Ok(_) => self.settle(),
            Err(error) => ItemStep::Finish(Err(error)),
        }
    }

    /// Goes on after the cursor was stored.
    pub fn cursor_saved(self, result: CatgaResult<()>) -> (step: ItemStep)
        ensures
            step@ == self@.after_save(error::unit_result(result)),
    {
        match result {
            Ok(_) => self.at_cursor(),
            Err(error) => ItemStep::Finish(Err(error)),
        }
    }
}

/// Work that restarts from a stored cursor goes on exactly as the work that stored it, on the
/// items that were selected when it began.
pub proof fn lemma_restart_continues_the_items(run: ItemRunView)
    requires
        run.checkpointed,
        items_failure(run.items) is None,
        0 <= run.next <= run.items.len(),
    ensures
        start_items(run.continues_on_error, true, Some(run.work())) == run.after_save(Ok(())),
{
    assert(run.next as u32 == run.next);
}

/// The whole work on items, given what each item and each error callback returns, while every
/// cursor can be stored: the items that were worked on, and the result.
pub open spec fn whole_items(
    run: ItemRunView,
    outcomes: spec_fn(int) -> Result<(), error::ErrorView>,
    handlers: spec_fn(int) -> Result<(), error::ErrorView>,
) -> (Seq<int>, Result<(), error::ErrorView>)
    decreases run.items.len() - run.next,
{
    if run.next >= run.items.len() {
        (Seq::empty(), Ok(()))
    } else {
        let after = match run.after_item(outcomes(run.next)) {
            ItemStepView::HandleError { run: failed, .. } => failed.after_handler(
                handlers(run.next),
            ),
            other => other,
        };
        match after {
            ItemStepView::Finish(Err(failure)) => (seq![run.next], Err(failure)),
            _ => {
                let (rest, result) = whole_items(run.moved_on(), outcomes, handlers);
                (seq![run.next] + rest, result)
            },
        }
    }
}

/// What settles an item: its own result, or that of the callback that handled its failure.
pub open spec fn settles(
    run: ItemRunView,
    outcomes: spec_fn(int) -> Result<(), error::ErrorView>,
    handlers: spec_fn(int) -> Result<(), error::ErrorView>,
    index: int,
) -> Result<(), error::ErrorView> {
    match outcomes(index) {
        Err(_) if run.continues_on_error => handlers(index),
        outcome => outcome,
    }
}

/// Items are worked on in order, each once, until one is not settled; its failure, or that of its
/// callback, is the result.
pub proof fn lemma_items_run_in_order(
    run: ItemRunView,
    outcomes: spec_fn(int) -> Result<(), error::ErrorView>,
    handlers: spec_fn(int) -> Result<(), error::ErrorView>,
)
    requires
        0 <= run.next <= run.items.len(),
    ensures
        ({
            let (done, result) = whole_items(run, outcomes, handlers);
            &&& done.len() <= run.items.len() - run.next
            &&& forall|i: int| 0 <= i < done.len() ==> #[trigger] done[i] == run.next + i
            &&& forall|i: int|
                0 <= i < done.len() - 1 ==> settles(
                    run,
                    outcomes,
                    handlers,
                    #[trigger] done[i],
                ) is Ok
            &&& match result {
                Ok(_) => done.len() == run.items.len() - run.next && (done.len() > 0 ==> settles(
                    run,
                    outcomes,
                    handlers,
                    done.last(),
                ) is Ok),
                Err(failure) => done.len() > 0 && settles(run, outcomes, handlers, done.last())
                    == Err::<(), error::ErrorView>(failure),
            }
        }),
    decreases run.items.len() - run.next,
{
    if run.next < run.items.len() {
        let (done, result) = whole_items(run, outcomes, handlers);
        let settled = settles(run, outcomes, handlers, run.next);
        if settled is Ok {
            lemma_items_run_in_order(run.moved_on(), outcomes, handlers);
            let (rest, _) = whole_items(run.moved_on(), outcomes, handlers);
            assert(done == seq![run.next] + rest);
            assert forall|i: int| 0 <= i < done.len() implies #[trigger] done[i] == run.next
                + i by {
                if i > 0 {
                    assert(done[i] == rest[i - 1]);
                }
            }
            assert forall|i: int| 0 <= i < done.len() - 1 implies settles(
                run,
                outcomes,
                handlers,
                #[trigger] done[i],
            ) is Ok by {
                if i > 0 {
                    assert(done[i] == rest[i - 1]);
                    assert(settles(run.moved_on(), outcomes, handlers, rest[i - 1]) is Ok);
                }
            }
            if rest.len() > 0 {
                assert(done.last() == rest.last());
            }
        }
    }
}

} // verus!
