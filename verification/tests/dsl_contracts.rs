//! Flows of the DSL, driven step by step: local runs, checkpointed runs and restarts.

use std::cell::{Cell, RefCell};
use std::collections::HashMap;
use std::rc::Rc;

use catga_flow::dsl::{
    after_attempt, after_time_limit, find_case, retry_delay, RetryStep, MAX_DSL_PARALLEL_BRANCHES,
};
use catga_flow::dsl_concurrent::{ConcurrentRun, ConcurrentStep};
use catga_flow::dsl_cursor::CursorStep;
use catga_flow::dsl_fan_out::{in_input_order, join_results, validate_branch_count};
use catga_flow::dsl_for_each::{
    items_selected, resume_items, validate_replayable_for_each_items, ItemStep,
    MAX_CHECKPOINT_REPLAYABLE_ITEMS, MAX_CHECKPOINT_REPLAYABLE_ITEM_BYTES,
};
use catga_flow::dsl_lifecycle::{DslRunMode, DslRunStep};
use catga_flow::dsl_parallel_recovery::{
    BranchProgressStore, BranchStart, ParallelRecovery, MAX_PARALLEL_BRANCH_PAYLOAD_BYTES,
};
use catga_flow::dsl_progress::TERMINAL_STEP_INDEX;
use catga_flow::dsl_recovery::{ProgressWrite, StartStep, WriteStep, MAX_CHECKPOINT_CAS_RETRIES};
use catga_flow::dsl_step::{
    response_failure, state_failure, DslQueryStep, DslStep, FailureCheck, GuardStep, StepBody,
};
use catga_flow::dsl_throttle::throttle_closed;
use catga_flow::dsl_when_any::{encode_winner, start_when_any, winner_restored, WhenAnyStep};
use catga_flow::{
    CatgaError, CatgaResult, CheckpointFrame, CheckpointLevel, CheckpointWork, DslFlow,
    DslFlowLifecycleEvent, DslFlowLifecycleHooks, DslOperation, DslProgressKind, DslStepProgress,
    Duration, ErrorCode, FlowThrottle, ParallelBranchProgress,
};
use tokio::sync::Notify;

#[derive(Clone, Debug, Default, Eq, PartialEq)]
struct State {
    total: u32,
    branch: bool,
    items: Vec<u32>,
    errors: Vec<(usize, ErrorCode)>,
}

type Do = Rc<dyn Fn(&mut State) -> CatgaResult<()>>;
type Handle = Rc<dyn Fn(&mut State, usize, CatgaError) -> CatgaResult<()>>;

#[derive(Clone)]
enum Call {
    Do(Do),
    Never,
    When(Rc<dyn Fn(&State) -> bool>),
    Select(Rc<dyn Fn(&State) -> u64>),
    MergeAll(Rc<dyn Fn(&mut State, Vec<State>) -> CatgaResult<()>>),
    MergeOne(Rc<dyn Fn(&mut State, State) -> CatgaResult<()>>),
    Items {
        select: Rc<dyn Fn(&State) -> Vec<u32>>,
        run: Rc<dyn Fn(&mut State, u32) -> CatgaResult<()>>,
        handle: Option<Handle>,
    },
    Batch {
        items: Vec<u32>,
        work: Rc<dyn Fn(u32) -> CatgaResult<u32>>,
        merge: Rc<dyn Fn(&mut State, Vec<u32>) -> CatgaResult<()>>,
    },
    Query(Rc<dyn Fn(&State) -> CatgaResult<u32>>),
    Store(Rc<dyn Fn(&mut State, u32)>),
    Response(Rc<dyn Fn(u32) -> bool>),
    Reject(Rc<dyn Fn(u32) -> Option<CatgaError>>),
    RejectState(Rc<dyn Fn(&State) -> Option<CatgaError>>),
    Step(Rc<DslStep<Call>>),
    Observe(Rc<dyn Fn(&DslFlowLifecycleEvent)>),
    Hook(Rc<dyn Fn(&State, &DslFlowLifecycleEvent) -> CatgaResult<()>>),
}

type Flow = DslFlow<Call>;

fn action(run: impl Fn(&mut State) -> CatgaResult<()> + 'static) -> Call {
    Call::Do(Rc::new(run))
}

fn when(condition: impl Fn(&State) -> bool + 'static) -> Call {
    Call::When(Rc::new(condition))
}

fn step(step: DslStep<Call>) -> Call {
    Call::Step(Rc::new(step))
}

fn failure(code: ErrorCode, message: &str) -> CatgaError {
    CatgaError::new(code, message)
}

fn counted(counter: &Rc<Cell<u32>>) {
    counter.set(counter.get() + 1);
}

fn encode_items(items: Vec<u32>) -> CatgaResult<Vec<Vec<u8>>> {
    Ok(items.into_iter().map(|item| item.to_be_bytes().to_vec()).collect())
}

fn decode_item(item: &[u8]) -> u32 {
    u32::from_be_bytes(item.try_into().expect("an encoded item"))
}

fn run_step(step: &DslStep<Call>, state: &mut State) -> CatgaResult<()> {
    let guards = step.guards();
    let mut next = guards.start();
    loop {
        next = match next {
            GuardStep::Condition { index } => {
                guards.condition_evaluated(index, holds(&step.conditions()[index], state))
            },
            GuardStep::Run => {
                let result = match step.body() {
                    StepBody::Action(action) => run_call(action, state),
                    StepBody::Query { query, store } => run_query(query, store.as_ref(), state),
                };
                guards.body_finished(result)
            },
            GuardStep::Failure { index } => {
                let failure = match &step.failures()[index] {
                    FailureCheck::Matches(check) => state_failure(holds(check, state)),
                    FailureCheck::Fails(Call::RejectState(check)) => check(state),
                    FailureCheck::Fails(_) => panic!("a state check is expected"),
                };
                guards.failure_checked(index, failure)
            },
            GuardStep::Keep => return Ok(()),
            GuardStep::Finish(result) => return result,
        };
    }
}

fn run_query(
    query: &DslQueryStep<Call>,
    store: Option<&Call>,
    state: &mut State,
) -> CatgaResult<()> {
    let guards = query.guards();
    let mut response = 0;
    let mut next = guards.start();
    loop {
        next = match next {
            GuardStep::Condition { index } => {
                guards.condition_evaluated(index, holds(&query.conditions()[index], state))
            },
            GuardStep::Run => {
                let result = match query.request() {
                    Call::Query(request) => request(state),
                    _ => panic!("a query is expected"),
                };
                guards.body_finished(result.map(|value| response = value))
            },
            GuardStep::Failure { index } => {
                let failure = match &query.failures()[index] {
                    FailureCheck::Matches(Call::Response(check)) => {
                        response_failure(check(response))
                    },
                    FailureCheck::Fails(Call::Reject(check)) => check(response),
                    _ => panic!("a response check is expected"),
                };
                guards.failure_checked(index, failure)
            },
            GuardStep::Keep => {
                if let Some(Call::Store(store)) = store {
                    store(state, response);
                }
                return Ok(());
            },
            GuardStep::Finish(result) => return result,
        };
    }
}

fn holds(call: &Call, state: &State) -> bool {
    match call {
        Call::When(condition) => condition(state),
        _ => panic!("a condition is expected"),
    }
}

fn run_call(call: &Call, state: &mut State) -> CatgaResult<()> {
    match call {
        Call::Do(run) => run(state),
        Call::Step(step) => run_step(step, state),
        _ => panic!("an action is expected"),
    }
}

fn work_on_items(
    call: &Call,
    continues_on_error: bool,
    state: &mut State,
    mut next: ItemStep,
) -> CatgaResult<()> {
    let Call::Items { select, run, handle } = call else { panic!("items are expected") };
    loop {
        next = match next {
            ItemStep::Select => {
                items_selected(continues_on_error, false, encode_items(select(state)))
            },
            ItemStep::Run(items) => {
                let item = decode_item(items.item().expect("a current item"));
                let result = run(state, item);
                items.item_finished(result)
            },
            ItemStep::HandleError { run: items, error } => {
                let index = items.next();
                let result = handle.as_ref().expect("an error callback")(state, index, error);
                items.error_handled(result)
            },
            ItemStep::Save(_) => panic!("a local run stores nothing"),
            ItemStep::Finish(result) => return result,
        };
    }
}

fn work_concurrently(
    limit: usize,
    items: &[u32],
    work: &Rc<dyn Fn(u32) -> CatgaResult<u32>>,
) -> CatgaResult<Vec<u32>> {
    let mut running = Vec::new();
    let mut next = ConcurrentRun::start(limit, items.len());
    loop {
        next = match next {
            ConcurrentStep::Start { run, index } => {
                running.push((index, work(items[index])));
                assert!(running.len() <= limit);
                run.work_started()
            },
            ConcurrentStep::Await(run) => {
                let (index, result) = running.pop().expect("work that was started");
                run.work_finished(index, result)
            },
            ConcurrentStep::Merge(results) => return Ok(results),
            ConcurrentStep::Finish(error) => return Err(error),
        };
    }
}

fn run_operation(operation: &DslOperation<Call>, state: &mut State) -> CatgaResult<()> {
    match operation {
        DslOperation::Action(call) => run_call(call, state),
        DslOperation::ForEach { operation: call, continues_on_error }
        | DslOperation::ReplayableForEach { operation: call, continues_on_error } => {
            work_on_items(call, *continues_on_error, state, ItemStep::Select)
        },
        DslOperation::StreamForEach(call) => work_on_items(call, false, state, ItemStep::Select),
        DslOperation::StreamForEachConcurrent { limit, action } => {
            let Call::Batch { items, work, merge } = action else { panic!("a batch is expected") };
            for batch in items.chunks(*limit) {
                let results = work_concurrently(*limit, batch, work)?;
                merge(state, results)?;
            }
            Ok(())
        },
        DslOperation::ConcurrentForEach { limit, action } => {
            let Call::Batch { items, work, merge } = action else { panic!("a batch is expected") };
            let results = work_concurrently(*limit, items, work)?;
            merge(state, results)
        },
        DslOperation::Throttle { throttle, action } => {
            let _permit = throttle.permits().try_acquire().map_err(|_| throttle_closed())?;
            run_call(action, state)
        },
        DslOperation::Retry { action, max_retries, initial_delay } => {
            let mut retry = 0;
            loop {
                let result = run_call(action, state);
                match after_attempt(*max_retries, *initial_delay, retry, result) {
                    RetryStep::Again { retry: next, .. } => retry = next,
                    RetryStep::Finish(result) => return result,
                }
            }
        },
        DslOperation::Timeout { action, .. } => {
            let finished = match action {
                Call::Never => None,
                call => Some(run_call(call, state)),
            };
            after_time_limit(finished)
        },
        DslOperation::If { condition, .. } => {
            let condition = holds(condition, state);
            run(operation.if_branch(condition).expect("an if step"), state)
        },
        DslOperation::Match { selector, .. } => {
            let Call::Select(select) = selector else { panic!("a selector is expected") };
            let value = select(state);
            run(operation.match_branch(value).expect("a match step"), state)
        },
        DslOperation::Parallel { branches, merge } => {
            validate_branch_count(branches.len())?;
            let mut states = Vec::new();
            let mut results = Vec::new();
            for branch in branches {
                let mut own = state.clone();
                results.push(run(branch, &mut own));
                states.push(own);
            }
            join_results(results)?;
            let Call::MergeAll(merge) = merge else { panic!("a merge is expected") };
            merge(state, states)
        },
        DslOperation::WhenAny { branches, merge } => {
            let mut next = start_when_any(branches.len(), None);
            let mut index = 0;
            let mut finished = Vec::new();
            loop {
                next = match next {
                    WhenAnyStep::Await(race) => {
                        let mut own = state.clone();
                        let result = run(&branches[index], &mut own);
                        finished.push(own);
                        index += 1;
                        race.branch_finished(index - 1, result)
                    },
                    WhenAnyStep::Winner { index } => {
                        let Call::MergeOne(merge) = merge else { panic!("a merge is expected") };
                        return merge(state, finished[index].clone());
                    },
                    WhenAnyStep::Restore { .. } => panic!("a local run restores nothing"),
                    WhenAnyStep::Finish(result) => return result,
                };
            }
        },
    }
}

fn run(flow: &Flow, state: &mut State) -> CatgaResult<()> {
    let mut next = flow.run(DslRunMode::Local, 0);
    loop {
        next = match next {
            DslRunStep::Run { index } => {
                let operation = flow.operation(index).expect("a step of the flow");
                flow.step_finished(index, run_operation(operation, state))
            },
            DslRunStep::Notify(event) => {
                let answer = notify(flow, state, &event);
                flow.notified(DslRunMode::Local, event, answer)
            },
            DslRunStep::SaveStep { .. } | DslRunStep::SaveTerminal => {
                panic!("a local run stores nothing")
            },
            DslRunStep::Finish(result) => return result,
        };
    }
}

fn notify(flow: &Flow, state: &State, event: &DslFlowLifecycleEvent) -> CatgaResult<()> {
    for observer in flow.observers() {
        let Call::Observe(observe) = observer else { panic!("an observer is expected") };
        observe(event);
    }
    match flow.hook_for(event) {
        Some(Call::Hook(hook)) => hook(state, event),
        Some(_) => panic!("a hook is expected"),
        None => Ok(()),
    }
}

fn hook(run: impl Fn(&State, &DslFlowLifecycleEvent) -> CatgaResult<()> + 'static) -> Call {
    Call::Hook(Rc::new(run))
}

type Events = Rc<RefCell<Vec<DslFlowLifecycleEvent>>>;

fn observing(events: &Events) -> Call {
    let events = Rc::clone(events);
    Call::Observe(Rc::new(move |event| events.borrow_mut().push(event.clone())))
}

trait Progress {
    fn create(&self, record: DslStepProgress) -> CatgaResult<bool>;
    fn update(&self, expected: i64, record: DslStepProgress) -> CatgaResult<bool>;
    fn get(&self, flow_id: &str, step_index: u32) -> CatgaResult<Option<DslStepProgress>>;
}

#[derive(Default)]
struct ProgressStore {
    records: RefCell<HashMap<(String, u32), DslStepProgress>>,
}

impl Progress for ProgressStore {
    fn create(&self, record: DslStepProgress) -> CatgaResult<bool> {
        let key = (record.flow_id().to_owned(), record.step_index());
        let mut records = self.records.borrow_mut();
        if records.contains_key(&key) {
            return Ok(false);
        }
        records.insert(key, record);
        Ok(true)
    }

    fn update(&self, expected: i64, record: DslStepProgress) -> CatgaResult<bool> {
        let key = (record.flow_id().to_owned(), record.step_index());
        let mut records = self.records.borrow_mut();
        let Some(current) = records.get(&key) else {
            return Ok(false);
        };
        if current.version() != expected
            || !DslStepProgress::is_next_version(expected, record.version())
        {
            return Ok(false);
        }
        records.insert(key, record);
        Ok(true)
    }

    fn get(&self, flow_id: &str, step_index: u32) -> CatgaResult<Option<DslStepProgress>> {
        Ok(self.records.borrow().get(&(flow_id.to_owned(), step_index)).cloned())
    }
}

struct Branch(RefCell<BranchProgressStore>);

impl Progress for Branch {
    fn create(&self, record: DslStepProgress) -> CatgaResult<bool> {
        Ok(self.0.borrow_mut().create(record))
    }

    fn update(&self, expected: i64, record: DslStepProgress) -> CatgaResult<bool> {
        Ok(self.0.borrow_mut().update(expected, record))
    }

    fn get(&self, flow_id: &str, step_index: u32) -> CatgaResult<Option<DslStepProgress>> {
        Ok(self.0.borrow().get(flow_id, step_index))
    }
}

trait Codec {
    fn encode(&self, state: &State) -> CatgaResult<Vec<u8>>;
    fn decode(&self, bytes: &[u8]) -> CatgaResult<State>;
}

struct StateCodec;

impl Codec for StateCodec {
    fn encode(&self, state: &State) -> CatgaResult<Vec<u8>> {
        Ok([state.total.to_be_bytes().as_slice(), &[u8::from(state.branch)]].concat())
    }

    fn decode(&self, bytes: &[u8]) -> CatgaResult<State> {
        let total: [u8; 4] = bytes
            .get(..4)
            .ok_or_else(|| failure(ErrorCode::Validation, "checkpoint state is truncated"))?
            .try_into()
            .map_err(|_| failure(ErrorCode::Validation, "checkpoint state is invalid"))?;
        let branch = match bytes.get(4..) {
            Some([0]) => false,
            Some([1]) => true,
            _ => {
                return Err(failure(
                    ErrorCode::Validation,
                    "checkpoint state has an invalid branch flag",
                ));
            },
        };
        Ok(State { total: u32::from_be_bytes(total), branch, ..State::default() })
    }
}

struct RejectingTerminalCodec;

impl Codec for RejectingTerminalCodec {
    fn encode(&self, _: &State) -> CatgaResult<Vec<u8>> {
        Ok(vec![0])
    }

    fn decode(&self, _: &[u8]) -> CatgaResult<State> {
        Err(failure(ErrorCode::Validation, "terminal state cannot be decoded"))
    }
}

fn save(
    store: &dyn Progress,
    flow_id: &str,
    step_index: u32,
    payload: Vec<u8>,
    kind: DslProgressKind,
) -> CatgaResult<()> {
    let mut next = ProgressWrite::start(flow_id, step_index, payload, kind);
    loop {
        next = match next {
            WriteStep::Create { write, record } => {
                let result = store.create(record);
                write.created(result)
            },
            WriteStep::Load { write } => {
                let result = store.get(write.flow_id(), write.step_index());
                write.loaded(result)
            },
            WriteStep::Update { write, expected_version, record } => {
                let result = store.update(expected_version, record);
                write.updated(result)
            },
            WriteStep::Finish(result) => return result,
        };
    }
}

struct Context<'a> {
    flow_id: &'a str,
    top: u32,
    store: &'a dyn Progress,
    codec: &'a dyn Codec,
}

impl Context<'_> {
    fn save_frame(&self, payload: CatgaResult<Vec<u8>>) -> CatgaResult<()> {
        save(self.store, self.flow_id, self.top, payload?, DslProgressKind::CheckpointFrame)
    }

    fn save_work(
        &self,
        state: &State,
        levels: &[CheckpointLevel],
        work: CheckpointWork,
    ) -> CatgaResult<()> {
        let payload = self
            .codec
            .encode(state)
            .and_then(|encoded| CheckpointFrame::encode(levels, encoded, work));
        self.save_frame(payload)
    }

    fn run_operation(
        &self,
        operation: &DslOperation<Call>,
        state: &mut State,
        levels: &[CheckpointLevel],
        work: Option<CheckpointWork>,
    ) -> CatgaResult<()> {
        match operation {
            DslOperation::ReplayableForEach { operation, continues_on_error } => {
                let Call::Items { select, run, handle } = operation else {
                    panic!("items are expected")
                };
                let mut next = resume_items(*continues_on_error, work);
                loop {
                    next = match next {
                        ItemStep::Select => items_selected(
                            *continues_on_error,
                            true,
                            encode_items(select(state)),
                        ),
                        ItemStep::Run(items) => {
                            let item = decode_item(items.item().expect("a current item"));
                            let result = run(state, item);
                            items.item_finished(result)
                        },
                        ItemStep::HandleError { run: items, error } => {
                            let index = items.next();
                            let result =
                                handle.as_ref().expect("a callback")(state, index, error);
                            items.error_handled(result)
                        },
                        ItemStep::Save(items) => {
                            let result = self.save_work(state, levels, items.work());
                            items.cursor_saved(result)
                        },
                        ItemStep::Finish(result) => return result,
                    };
                }
            },
            DslOperation::Parallel { branches, merge } => {
                let mut recovery = ParallelRecovery::start(branches.len(), work)?;
                let mut states = vec![None; recovery.branch_count()];
                for (index, branch) in branches.iter().enumerate() {
                    match recovery.branch_start(index)? {
                        BranchStart::Restore { payload } => {
                            let decoded = self.codec.decode(&payload);
                            let outcome = decoded.map(|state| states[index] = Some(state));
                            recovery = recovery.branch_restored(index, outcome)?;
                        },
                        BranchStart::Run { store } => {
                            let store = Branch(RefCell::new(store));
                            let outcome = run_from_checkpoint(
                                branch,
                                DslRunMode::CheckpointedBranch,
                                "branch",
                                state.clone(),
                                &store,
                                self.codec,
                            )
                            .and_then(|own| {
                                let encoded = self.codec.encode(&own);
                                states[index] = Some(own);
                                encoded
                            });
                            let progress = store.0.borrow().snapshot();
                            recovery = recovery.branch_finished(index, outcome, progress);
                            let payload = recovery.encode(levels, self.codec.encode(state));
                            let saved = self.save_frame(payload);
                            recovery = recovery.progress_saved(saved);
                        },
                    }
                }
                recovery.finish()?;
                let Call::MergeAll(merge) = merge else { panic!("a merge is expected") };
                merge(state, states.into_iter().map(|state| state.expect("a state")).collect())
            },
            DslOperation::WhenAny { branches, merge } => {
                let Call::MergeOne(merge) = merge else { panic!("a merge is expected") };
                let mut next = start_when_any(branches.len(), work);
                let mut index = 0;
                let mut finished = Vec::new();
                loop {
                    next = match next {
                        WhenAnyStep::Await(race) => {
                            let mut own = state.clone();
                            let result = run(&branches[index], &mut own);
                            finished.push(own);
                            index += 1;
                            race.branch_finished(index - 1, result)
                        },
                        WhenAnyStep::Winner { index } => {
                            let winner = finished[index].clone();
                            let payload = encode_winner(
                                levels,
                                self.codec.encode(state),
                                index,
                                self.codec.encode(&winner),
                            );
                            self.save_frame(payload)?;
                            return merge(state, winner);
                        },
                        WhenAnyStep::Restore { state: encoded, .. } => {
                            let decoded = self.codec.decode(&encoded);
                            let (value, outcome) = match decoded {
                                Ok(value) => (Some(value), Ok(())),
                                Err(error) => (None, Err(error)),
                            };
                            winner_restored(outcome)?;
                            return merge(state, value.expect("a decoded state"));
                        },
                        WhenAnyStep::Finish(result) => return result,
                    };
                }
            },
            _ => panic!("an operation with progress is expected"),
        }
    }

    fn run_step(
        &self,
        flow: &Flow,
        state: &mut State,
        levels: Vec<CheckpointLevel>,
        work: Option<CheckpointWork>,
    ) -> CatgaResult<()> {
        let mut next = flow.enter_step(self.top, levels, work);
        loop {
            next = match next {
                CursorStep::EvaluateCondition(cursor) => {
                    let Some(DslOperation::If { condition, .. }) = flow.operation_at(&cursor) else {
                        panic!("a condition is expected")
                    };
                    let condition = holds(condition, state);
                    flow.condition_evaluated(cursor, condition)
                },
                CursorStep::SelectValue(cursor) => {
                    let Some(DslOperation::Match { selector: Call::Select(select), .. }) =
                        flow.operation_at(&cursor)
                    else {
                        panic!("a selector is expected")
                    };
                    let value = select(state);
                    flow.value_selected(cursor, value)
                },
                CursorStep::RunChild(cursor) => {
                    let result =
                        run_operation(flow.operation_at(&cursor).expect("a child"), state);
                    flow.child_finished(cursor, result)
                },
                CursorStep::RunOperation { cursor, work } => {
                    let operation = flow.operation_at(&cursor).expect("an operation");
                    let result = self.run_operation(operation, state, cursor.levels(), work);
                    flow.operation_finished(cursor, result)
                },
                CursorStep::Save(cursor) => {
                    let result = self.save_work(state, cursor.levels(), CheckpointWork::Branch);
                    flow.cursor_saved(cursor, result)
                },
                CursorStep::Finish(result) => return result,
            };
        }
    }
}

fn run_from_checkpoint(
    flow: &Flow,
    mode: DslRunMode,
    flow_id: &str,
    initial: State,
    store: &dyn Progress,
    codec: &dyn Codec,
) -> CatgaResult<State> {
    let mut found = match mode {
        DslRunMode::Checkpointed => flow.run_checkpointed(),
        _ => flow.find_start(mode),
    };
    let (mut state, start, mut levels, mut work) = loop {
        found = match found {
            StartStep::LoadTerminal => {
                flow.terminal_loaded(store.get(flow_id, TERMINAL_STEP_INDEX))
            },
            StartStep::Load { step_index } => {
                flow.progress_loaded(step_index, store.get(flow_id, step_index))
            },
            StartStep::Completed { payload } => return codec.decode(&payload),
            StartStep::Fresh => break (initial, 0, Vec::new(), None),
            StartStep::Resume { payload, start, levels, work } => {
                break (codec.decode(&payload)?, start, levels, work);
            },
            StartStep::Fail(error) => return Err(error),
        };
    };
    let mut next = flow.run(mode, start);
    loop {
        next = match next {
            DslRunStep::Run { index } => {
                let context = Context { flow_id, top: index as u32, store, codec };
                let levels = std::mem::take(&mut levels);
                let result = context.run_step(flow, &mut state, levels, work.take());
                flow.step_finished(index, result)
            },
            DslRunStep::Notify(event) => {
                let answer = notify(flow, &state, &event);
                flow.notified(mode, event, answer)
            },
            DslRunStep::SaveStep { index } => {
                let result = codec.encode(&state).and_then(|payload| {
                    save(store, flow_id, index as u32, payload, DslProgressKind::ApplicationState)
                });
                flow.step_saved(mode, index, result)
            },
            DslRunStep::SaveTerminal => {
                let payload = codec.encode(&state)?;
                let kind = DslProgressKind::Terminal;
                save(store, flow_id, TERMINAL_STEP_INDEX, payload, kind)?;
                return Ok(state);
            },
            DslRunStep::Finish(result) => return result.map(|()| state),
        };
    }
}

fn run_checkpointed(
    flow: &Flow,
    flow_id: &str,
    initial: State,
    store: &dyn Progress,
    codec: &dyn Codec,
) -> CatgaResult<State> {
    run_from_checkpoint(flow, DslRunMode::Checkpointed, flow_id, initial, store, codec)
}

fn adding(amount: u32, calls: &Rc<Cell<u32>>) -> Call {
    let calls = Rc::clone(calls);
    action(move |state| {
        counted(&calls);
        state.total = state.total.saturating_add(amount);
        Ok(())
    })
}

fn failing_once(amount: u32, message: &'static str) -> Call {
    let fail = Cell::new(true);
    action(move |state| {
        if fail.replace(false) {
            return Err(failure(ErrorCode::Transient, message));
        }
        state.total = state.total.saturating_add(amount);
        Ok(())
    })
}

fn calls() -> Rc<Cell<u32>> {
    Rc::new(Cell::new(0))
}

#[test]
fn checkpointed_if_branch_restores_its_cursor_without_replaying_completed_children() {
    let completed_child_calls = calls();
    let flow = Flow::new().if_else(
        when(|state| state.branch),
        Flow::new()
            .action(adding(1, &completed_child_calls))
            .action(failing_once(10, "interrupted after cursor")),
        Flow::new().action(action(|state| {
            state.total = 100;
            Ok(())
        })),
    );
    let progress = ProgressStore::default();

    let first = run_checkpointed(
        &flow,
        "branch-recovery",
        State { total: 0, branch: true, ..State::default() },
        &progress,
        &StateCodec,
    );
    assert!(matches!(first, Err(error) if error.code() == ErrorCode::Transient));
    assert_eq!(completed_child_calls.get(), 1);
    assert_eq!(
        progress
            .get("branch-recovery", 0)
            .expect("a load")
            .expect("nested branch checkpoint exists")
            .kind(),
        DslProgressKind::CheckpointFrame
    );

    let again = || {
        run_checkpointed(&flow, "branch-recovery", State::default(), &progress, &StateCodec)
            .expect("the flow completes")
    };
    let resumed = again();
    assert_eq!(resumed.total, 11);
    assert!(resumed.branch);
    assert_eq!(completed_child_calls.get(), 1);

    let terminal = again();
    assert_eq!(terminal, resumed);
    assert_eq!(completed_child_calls.get(), 1);
}

#[test]
fn replayable_for_each_resumes_saved_items_and_terminal_result_is_idempotent() {
    let seen: Rc<RefCell<Vec<u32>>> = Rc::default();
    let log = Rc::clone(&seen);
    let fail = Cell::new(true);
    let flow = Flow::new().for_each_replayable(Call::Items {
        select: Rc::new(|_| vec![1_u32, 2, 3]),
        run: Rc::new(move |state, item| {
            log.borrow_mut().push(item);
            if item == 2 && fail.replace(false) {
                return Err(failure(ErrorCode::Transient, "item two interrupted"));
            }
            state.total = state.total.saturating_add(item);
            Ok(())
        }),
        handle: None,
    });
    let progress = ProgressStore::default();
    let again = || {
        run_checkpointed(&flow, "item-recovery", State::default(), &progress, &StateCodec)
    };

    assert!(matches!(again(), Err(error) if error.code() == ErrorCode::Transient));
    assert_eq!(*seen.borrow(), [1, 2]);
    assert_eq!(
        progress
            .get("item-recovery", 0)
            .expect("a load")
            .expect("replayable cursor exists")
            .kind(),
        DslProgressKind::CheckpointFrame
    );

    let resumed = again().expect("the flow completes");
    assert_eq!(resumed.total, 6);
    assert_eq!(*seen.borrow(), [1, 2, 2, 3]);

    let terminal = again().expect("the flow has completed");
    assert_eq!(terminal, resumed);
    assert_eq!(*seen.borrow(), [1, 2, 2, 3]);
}

fn sum() -> Call {
    Call::MergeAll(Rc::new(|state, branches| {
        state.total = branches.into_iter().map(|branch| branch.total).sum();
        Ok(())
    }))
}

#[test]
fn checkpointed_parallel_restores_completed_branches_without_replaying_them() {
    let completed_calls = calls();
    let flow = Flow::new().parallel(
        vec![
            Flow::new().action(adding(1, &completed_calls)),
            Flow::new().action(failing_once(10, "branch interrupted")),
        ],
        sum(),
    );
    let progress = ProgressStore::default();
    let again = || {
        run_checkpointed(&flow, "parallel-recovery", State::default(), &progress, &StateCodec)
    };

    assert!(matches!(again(), Err(error) if error.code() == ErrorCode::Transient));
    assert_eq!(completed_calls.get(), 1);

    assert_eq!(again().expect("the flow completes").total, 11);
    assert_eq!(completed_calls.get(), 1);
}

#[test]
fn checkpointed_parallel_recovers_an_interrupted_branch_from_its_local_cursor() {
    let first_branch_step_calls = calls();
    let interrupted_branch_step_calls = calls();
    let stable_branch_calls = calls();
    let interrupted = Rc::clone(&interrupted_branch_step_calls);
    let fail = Cell::new(true);
    let flow = Flow::new().parallel(
        vec![
            Flow::new().action(adding(2, &first_branch_step_calls)).action(action(
                move |state| {
                    counted(&interrupted);
                    if fail.replace(false) {
                        return Err(failure(
                            ErrorCode::Transient,
                            "branch interrupted after its local checkpoint",
                        ));
                    }
                    state.total = state.total.saturating_add(20);
                    Ok(())
                },
            )),
            Flow::new().action(adding(100, &stable_branch_calls)),
        ],
        sum(),
    );
    let progress = ProgressStore::default();
    let again = || {
        run_checkpointed(
            &flow,
            "parallel-local-recovery",
            State::default(),
            &progress,
            &StateCodec,
        )
    };

    assert!(matches!(again(), Err(error) if error.code() == ErrorCode::Transient));
    assert_eq!(first_branch_step_calls.get(), 1);
    assert_eq!(interrupted_branch_step_calls.get(), 1);
    assert_eq!(stable_branch_calls.get(), 1);
    assert_eq!(
        progress
            .get("parallel-local-recovery", 0)
            .expect("a load")
            .expect("parallel recovery writes one outer checkpoint")
            .kind(),
        DslProgressKind::CheckpointFrame
    );

    assert_eq!(again().expect("the flow completes").total, 122);
    assert_eq!(first_branch_step_calls.get(), 1);
    assert_eq!(interrupted_branch_step_calls.get(), 2);
    assert_eq!(stable_branch_calls.get(), 1);
}

fn take_winner() -> Call {
    Call::MergeOne(Rc::new(|state, selected| {
        state.total = selected.total;
        Ok(())
    }))
}

#[test]
fn checkpointed_when_any_reuses_its_saved_winner_after_a_later_failure() {
    let winner_calls = calls();
    let winner = Rc::clone(&winner_calls);
    let flow = Flow::new()
        .when_any(
            vec![
                Flow::new().action(action(|_| Err(failure(ErrorCode::Transient, "loser")))),
                Flow::new().action(action(move |state| {
                    counted(&winner);
                    state.total = 9;
                    Ok(())
                })),
            ],
            take_winner(),
        )
        .action(failing_once(1, "after winner"));
    let progress = ProgressStore::default();
    let again = || {
        run_checkpointed(&flow, "winner-recovery", State::default(), &progress, &StateCodec)
    };

    assert!(matches!(again(), Err(error) if error.code() == ErrorCode::Transient));
    assert_eq!(winner_calls.get(), 1);

    assert_eq!(again().expect("the flow completes").total, 10);
    assert_eq!(winner_calls.get(), 1);
}

#[test]
fn checkpointed_match_restores_the_selected_branch_without_replaying_its_completed_steps() {
    let completed_child_calls = calls();
    let flow = Flow::new().match_on(
        Call::Select(Rc::new(|state| u64::from(state.branch))),
        vec![(
            1,
            Flow::new()
                .action(adding(2, &completed_child_calls))
                .action(failing_once(20, "match branch interrupted")),
        )],
        Flow::new().action(action(|state| {
            state.total = 1_000;
            Ok(())
        })),
    );
    let progress = ProgressStore::default();

    let first = run_checkpointed(
        &flow,
        "match-recovery",
        State { total: 0, branch: true, ..State::default() },
        &progress,
        &StateCodec,
    );
    assert!(matches!(first, Err(error) if error.code() == ErrorCode::Transient));
    assert_eq!(completed_child_calls.get(), 1);

    let resumed =
        run_checkpointed(&flow, "match-recovery", State::default(), &progress, &StateCodec)
            .expect("the flow completes");
    assert_eq!(resumed.total, 22);
    assert!(resumed.branch);
    assert_eq!(completed_child_calls.get(), 1);
}

#[test]
fn checkpointed_flows_reject_process_local_collection_steps_before_executing_them() {
    let item_calls = calls();
    let items = |calls: &Rc<Cell<u32>>| {
        let calls = Rc::clone(calls);
        Call::Items {
            select: Rc::new(|_| vec![1_u32]),
            run: Rc::new(move |_, _| {
                counted(&calls);
                Ok(())
            }),
            handle: None,
        }
    };
    let batch_calls = Rc::clone(&item_calls);
    let sequential = Flow::new().for_each(items(&item_calls));
    let stream_flow = Flow::new().for_each_stream(items(&item_calls));
    let concurrent = Flow::new()
        .for_each_stream_concurrent(
            1,
            Call::Batch {
                items: vec![1],
                work: Rc::new(move |item| {
                    counted(&batch_calls);
                    Ok(item)
                }),
                merge: keeping_results(),
            },
        )
        .expect("positive concurrency is valid");
    let collected = Flow::new().for_each_concurrent(1, Call::Never).expect("a positive limit");
    let progress = ProgressStore::default();

    for (flow_id, flow) in [
        ("checkpointed-sequential", &sequential),
        ("checkpointed-stream", &stream_flow),
        ("checkpointed-concurrent", &concurrent),
        ("checkpointed-collected", &collected),
    ] {
        let error = run_checkpointed(flow, flow_id, State::default(), &progress, &StateCodec)
            .expect_err("process-local collection steps require an explicit replay cursor");
        assert_eq!(error.code(), ErrorCode::Validation);
        assert!(progress.get(flow_id, 0).expect("a load").is_none());
    }
    assert_eq!(item_calls.get(), 0);
}

#[test]
fn checkpointed_replayable_for_each_persists_handled_errors_without_replaying_items() {
    let item_calls = calls();
    let counter = Rc::clone(&item_calls);
    let flow = Flow::new()
        .for_each_replayable_continue_on_error(Call::Items {
            select: Rc::new(|_| vec![1_u32, 2, 3]),
            run: Rc::new(move |state, item| {
                counted(&counter);
                if item == 2 {
                    return Err(failure(ErrorCode::Validation, "item rejected"));
                }
                state.total = state.total.saturating_add(item);
                Ok(())
            }),
            handle: Some(Rc::new(|state, index, error| {
                assert_eq!(index, 1);
                assert_eq!(error.code(), ErrorCode::Validation);
                state.total = state.total.saturating_add(100);
                Ok(())
            })),
        })
        .action(failing_once(1, "interrupted after handled item"));
    let progress = ProgressStore::default();
    let again = || {
        run_checkpointed(&flow, "handled-item-recovery", State::default(), &progress, &StateCodec)
    };

    assert!(matches!(again(), Err(error) if error.code() == ErrorCode::Transient));
    assert_eq!(item_calls.get(), 3);

    assert_eq!(again().expect("the flow completes").total, 105);
    assert_eq!(item_calls.get(), 3);
}

#[test]
fn checkpointed_legacy_step_payload_resumes_after_the_committed_step() {
    let committed_step_calls = calls();
    let flow = Flow::new().action(adding(100, &committed_step_calls)).action(adding(1, &calls()));
    let progress = ProgressStore::default();
    let committed = State { total: 41, branch: true, ..State::default() };
    let encoded = StateCodec.encode(&committed).expect("an encoded state");
    assert!(progress
        .create(DslStepProgress::new("legacy-step-payload", 0, encoded))
        .expect("a write"));

    let resumed =
        run_checkpointed(&flow, "legacy-step-payload", State::default(), &progress, &StateCodec)
            .expect("the flow completes");

    assert_eq!(resumed.total, 42);
    assert!(resumed.branch);
    assert_eq!(committed_step_calls.get(), 0);
    assert_eq!(
        progress
            .get("legacy-step-payload", u32::MAX)
            .expect("a load")
            .expect("a completed checkpoint writes its terminal result")
            .kind(),
        DslProgressKind::Terminal
    );
}

#[test]
fn checkpointed_flows_reject_invalid_terminal_records_before_actions_run() {
    let actions = calls();
    let flow = Flow::new().action(adding(0, &actions));

    let non_terminal = ProgressStore::default();
    assert!(non_terminal
        .create(DslStepProgress::new("wrong-terminal-kind", u32::MAX, vec![]))
        .expect("a write"));
    let error = run_checkpointed(
        &flow,
        "wrong-terminal-kind",
        State::default(),
        &non_terminal,
        &StateCodec,
    )
    .expect_err("the reserved terminal slot cannot contain an ordinary progress record");
    assert_eq!(error.code(), ErrorCode::Conflict);

    assert_eq!(actions.get(), 0);
}

#[test]
fn checkpointed_terminal_decode_failure_never_replays_completed_actions() {
    let actions = calls();
    let flow = Flow::new().action(adding(0, &actions));
    let progress = ProgressStore::default();
    let again = || {
        run_checkpointed(
            &flow,
            "undecodable-terminal",
            State::default(),
            &progress,
            &RejectingTerminalCodec,
        )
    };

    again().expect("the first run completes");
    let error = again().expect_err("terminal data is decoded before the flow can execute again");

    assert_eq!(error.code(), ErrorCode::Validation);
    assert_eq!(actions.get(), 1);
}

#[test]
fn checkpointed_dsl_rejects_a_corrupted_internal_frame_before_running_actions() {
    let actions = calls();
    let flow = Flow::new().action(adding(1, &actions));
    let progress = ProgressStore::default();
    assert!(progress
        .create(DslStepProgress::new("corrupt-frame", 0, b"CDF1".to_vec()))
        .expect("a write"));

    let error =
        run_checkpointed(&flow, "corrupt-frame", State::default(), &progress, &StateCodec)
            .expect_err("a truncated checkpoint frame is never application state");
    assert_eq!(error.code(), ErrorCode::Validation);
    assert_eq!(actions.get(), 0);
}

#[test]
fn a_frame_that_is_marked_as_one_must_be_one() {
    let actions = calls();
    let flow = Flow::new().action(adding(1, &actions));
    let progress = ProgressStore::default();
    let record = DslStepProgress::new("marked-frame", 0, vec![]);
    assert!(progress.create(record.checkpoint_frame(b"CDF1".to_vec())).expect("a write"));
    let error = run_checkpointed(&flow, "marked-frame", State::default(), &progress, &StateCodec)
        .expect_err("a damaged frame");
    assert_eq!(error.code(), ErrorCode::Validation);
    assert_eq!(actions.get(), 0);
}

#[test]
fn a_restart_goes_on_inside_nested_branches() {
    let inner_calls = calls();
    let sibling_calls = calls();
    let flow = Flow::new().if_else(
        when(|_| true),
        Flow::new()
            .if_else(when(|_| true), Flow::new().action(adding(1, &inner_calls)), Flow::new())
            .if_else(
                when(|_| true),
                Flow::new()
                    .action(adding(10, &sibling_calls))
                    .action(failing_once(100, "interrupted")),
                Flow::new(),
            ),
        Flow::new(),
    );
    let progress = ProgressStore::default();
    let again =
        || run_checkpointed(&flow, "nested", State::default(), &progress, &StateCodec);
    assert!(again().is_err());
    assert_eq!(again().expect("the flow completes").total, 111);
    assert_eq!(inner_calls.get(), 1);
    assert_eq!(sibling_calls.get(), 1);
}

#[test]
fn a_changed_flow_does_not_follow_a_stored_path() {
    let stored = CheckpointFrame::encode(
        &[CheckpointLevel { branch: 7, next_step: 0 }],
        StateCodec.encode(&State::default()).expect("an encoded state"),
        CheckpointWork::Branch,
    )
    .expect("a frame");
    let progress = ProgressStore::default();
    let record = DslStepProgress::new("changed", 0, vec![]);
    assert!(progress.create(record.checkpoint_frame(stored)).expect("a write"));
    let flow = Flow::new().if_else(when(|_| true), Flow::new(), Flow::new());
    let error = run_checkpointed(&flow, "changed", State::default(), &progress, &StateCodec)
        .expect_err("no such branch");
    assert_eq!(error.code(), ErrorCode::Validation);
}

#[test]
fn progress_writes_give_up_after_bounded_conflicts() {
    struct Contended(Cell<usize>);
    impl Progress for Contended {
        fn create(&self, _: DslStepProgress) -> CatgaResult<bool> {
            Ok(false)
        }
        fn update(&self, _: i64, _: DslStepProgress) -> CatgaResult<bool> {
            self.0.set(self.0.get() + 1);
            Ok(false)
        }
        fn get(&self, flow_id: &str, step: u32) -> CatgaResult<Option<DslStepProgress>> {
            Ok(Some(DslStepProgress::new(flow_id, step, vec![])))
        }
    }
    let store = Contended(Cell::new(0));
    let error = save(&store, "flow", 0, vec![1], DslProgressKind::ApplicationState)
        .expect_err("another writer is always faster");
    assert_eq!(error.code(), ErrorCode::Conflict);
    assert_eq!(store.0.get(), MAX_CHECKPOINT_CAS_RETRIES);
}

#[test]
fn decorators_short_circuit_conditions_preserve_cancellation_and_keep_writes_atomic() {
    let second_condition_calls = calls();
    let second_condition = Rc::clone(&second_condition_calls);
    let action_calls = calls();
    let skipped_query_calls = calls();
    let skipped_query = Rc::clone(&skipped_query_calls);
    let store = || Call::Store(Rc::new(|state, value| state.total = value));
    let flow = Flow::new()
        .action(step(
            DslStep::action(adding(0, &action_calls))
                .only_when(when(|_| false))
                .only_when(when(move |_| {
                    counted(&second_condition);
                    true
                })),
        ))
        .action(step(
            DslStep::query(Call::Query(Rc::new(move |_| {
                counted(&skipped_query);
                Ok(99_u32)
            })))
            .only_when(when(|_| false))
            .into_state(store()),
        ))
        .action(step(
            DslStep::query(Call::Query(Rc::new(|_| {
                Err(failure(ErrorCode::Transient, "best effort"))
            })))
            .optional()
            .into_state(store()),
        ))
        .action(step(
            DslStep::query(Call::Query(Rc::new(|_| Ok(7_u32))))
                .fail_if_response_with(Call::Reject(Rc::new(|response| {
                    if response == 7 {
                        Some(failure(ErrorCode::Conflict, "response is reserved"))
                    } else {
                        None
                    }
                })))
                .into_state(store()),
        ));
    let mut state = State::default();

    let error = run(&flow, &mut state)
        .expect_err("a response validator must reject before state mutation");
    assert_eq!(error.code(), ErrorCode::Conflict);
    assert_eq!(action_calls.get(), 0);
    assert_eq!(second_condition_calls.get(), 0);
    assert_eq!(skipped_query_calls.get(), 0);
    assert_eq!(state.total, 0);

    let cancellation = Flow::new().action(step(
        DslStep::action(action(|_| Err(failure(ErrorCode::Cancelled, "shutting down"))))
            .optional(),
    ));
    let error =
        run(&cancellation, &mut state).expect_err("optional must never swallow cancellation");
    assert_eq!(error.code(), ErrorCode::Cancelled);
}

#[test]
fn lifecycle_hook_errors_are_authoritative_and_stop_later_events() {
    let events = Events::default();
    let later_steps = calls();
    let flow = Flow::new()
        .with_lifecycle_observer(observing(&events))
        .with_lifecycle_hooks(
            DslFlowLifecycleHooks::new()
                .on_step_succeeded(hook(|_, event| {
                    assert!(matches!(
                        event,
                        DslFlowLifecycleEvent::StepSucceeded { step_index: 0 }
                    ));
                    Err(failure(ErrorCode::Unavailable, "audit unavailable"))
                }))
                .on_flow_failed(hook(|_, _| {
                    panic!("a succeeded hook error must not become a flow failure")
                })),
        )
        .action(action(|state| {
            state.total = 1;
            Ok(())
        }))
        .action(adding(0, &later_steps));
    let mut state = State::default();

    let error = run(&flow, &mut state).expect_err("hook failure is returned unchanged");
    assert_eq!(error.code(), ErrorCode::Unavailable);
    assert_eq!(later_steps.get(), 0);
    assert_eq!(state.total, 1);
    assert!(matches!(
        events.borrow().as_slice(),
        [DslFlowLifecycleEvent::StepSucceeded { step_index: 0 }]
    ));

    let flow = Flow::new()
        .with_lifecycle_hooks(
            DslFlowLifecycleHooks::new()
                .on_step_failed(hook(|_, _| {
                    Err(failure(ErrorCode::Unavailable, "failed hook unavailable"))
                }))
                .on_flow_failed(hook(|_, _| {
                    panic!("failed step hook error must skip the flow failed hook")
                })),
        )
        .action(action(|_| Err(failure(ErrorCode::Validation, "declined"))));
    let error = run(&flow, &mut State::default())
        .expect_err("failed-step hook error replaces step error");
    assert_eq!(error.code(), ErrorCode::Unavailable);
}

#[test]
fn events_of_a_run_come_in_their_order() {
    let events = Events::default();
    let flow = Flow::new()
        .with_lifecycle_observer(observing(&events))
        .action(adding(1, &calls()))
        .action(action(|_| Err(failure(ErrorCode::Validation, "declined"))));
    let error = run(&flow, &mut State::default()).expect_err("the second step fails");
    assert_eq!(error.message(), "declined");
    assert!(matches!(
        events.borrow().as_slice(),
        [
            DslFlowLifecycleEvent::StepSucceeded { step_index: 0 },
            DslFlowLifecycleEvent::StepFailed { step_index: 1, .. },
            DslFlowLifecycleEvent::FlowFailed { .. },
        ]
    ));
    let events = Events::default();
    let flow = Flow::default().with_lifecycle_observer(observing(&events));
    run(&flow, &mut State::default()).expect("an empty flow succeeds");
    assert!(matches!(events.borrow().as_slice(), [DslFlowLifecycleEvent::FlowSucceeded]));
}

#[test]
fn observers_hear_of_an_event_in_their_order_and_before_its_hook() {
    let heard = Rc::new(RefCell::new(Vec::new()));
    let hearing = |name: &'static str| {
        let heard = Rc::clone(&heard);
        Call::Observe(Rc::new(move |_| heard.borrow_mut().push(name)))
    };
    let called = Rc::clone(&heard);
    let nested = Rc::clone(&heard);
    let flow = Flow::new()
        .with_lifecycle_observer(hearing("first"))
        .with_lifecycle_hooks(DslFlowLifecycleHooks::default().on_flow_succeeded(hook(
            move |state, _| {
                assert_eq!(state.total, 2);
                called.borrow_mut().push("hook");
                Ok(())
            },
        )))
        .with_lifecycle_observer(hearing("second"))
        .if_else(
            when(|_| true),
            Flow::new()
                .with_lifecycle_hooks(DslFlowLifecycleHooks::new().on_step_succeeded(hook(
                    move |_, _| {
                        nested.borrow_mut().push("nested");
                        Ok(())
                    },
                )))
                .action(adding(2, &calls())),
            Flow::new(),
        );
    run(&flow, &mut State::default()).expect("the flow succeeds");
    assert_eq!(*heard.borrow(), ["nested", "first", "second", "first", "second", "hook"]);
}

#[test]
fn collection_error_callbacks_and_concurrent_reductions_have_strict_boundaries() {
    let flow = Flow::new()
        .for_each_continue_on_error(Call::Items {
            select: Rc::new(|_| vec![1_u32, 2, 3]),
            run: Rc::new(|state, item| {
                state.items.push(item);
                if item == 2 {
                    return Err(failure(ErrorCode::Validation, "bad item"));
                }
                Ok(())
            }),
            handle: Some(Rc::new(|state, index, error| {
                state.errors.push((index, error.code()));
                Err(failure(ErrorCode::Conflict, "error handling rejected"))
            })),
        })
        .action(action(|state| {
            state.items.push(99);
            Ok(())
        }));
    let mut state = State::default();
    let error = run(&flow, &mut state)
        .expect_err("callback failure must stop further items and steps");
    assert_eq!(error.code(), ErrorCode::Conflict);
    assert_eq!(state.items, [1, 2]);
    assert_eq!(state.errors, [(1, ErrorCode::Validation)]);

    let invalid = Flow::new().for_each_stream_concurrent(0, Call::Never);
    assert!(matches!(invalid, Err(error) if error.code() == ErrorCode::Validation));
    let invalid = Flow::new().for_each_concurrent(0, Call::Never);
    assert!(matches!(invalid, Err(error) if error.code() == ErrorCode::Validation));

    let work_calls = calls();
    let counter = Rc::clone(&work_calls);
    let concurrent = Flow::new()
        .for_each_stream_concurrent(
            3,
            Call::Batch {
                items: vec![3, 1, 2],
                work: Rc::new(move |item| {
                    counted(&counter);
                    if item == 1 {
                        return Err(failure(ErrorCode::Transient, "work failed"));
                    }
                    Ok(item * 10)
                }),
                merge: keeping_results(),
            },
        )
        .expect("positive concurrency is valid");
    let mut state = State::default();
    let error = run(&concurrent, &mut state)
        .expect_err("a batch work failure must prevent every batch reduction");
    assert_eq!(error.code(), ErrorCode::Transient);
    assert_eq!(work_calls.get(), 3);
    assert!(state.items.is_empty());
}

fn keeping_results() -> Rc<dyn Fn(&mut State, Vec<u32>) -> CatgaResult<()>> {
    Rc::new(|state, results| {
        state.items.extend(results);
        state.total += 1;
        Ok(())
    })
}

#[test]
fn concurrent_results_are_merged_in_the_order_of_their_items() {
    let work: Rc<dyn Fn(u32) -> CatgaResult<u32>> = Rc::new(|item| Ok(item * 10));
    let batch = || Call::Batch {
        items: vec![3, 1, 2],
        work: Rc::clone(&work),
        merge: keeping_results(),
    };
    let mut state = State::default();
    let streamed =
        Flow::new().for_each_stream_concurrent(2, batch()).expect("positive concurrency");
    run(&streamed, &mut state).expect("the work succeeds");
    assert_eq!(state.items, [30, 10, 20]);
    assert_eq!(state.total, 2);

    let mut state = State::default();
    let collected = Flow::new().for_each_concurrent(2, batch()).expect("positive concurrency");
    run(&collected, &mut state).expect("the work succeeds");
    assert_eq!(state.items, [30, 10, 20]);
    assert_eq!(state.total, 1);
}

fn started(mut step: ConcurrentStep<u32>) -> (ConcurrentRun<u32>, Vec<usize>) {
    let mut indices = Vec::new();
    loop {
        match step {
            ConcurrentStep::Start { run, index } => {
                indices.push(index);
                step = run.work_started();
            },
            ConcurrentStep::Await(run) => return (run, indices),
            _ => panic!("work is left"),
        }
    }
}

#[test]
fn concurrent_work_is_bounded_and_ends_with_all_results_or_the_first_failure() {
    let (run, indices) = started(ConcurrentRun::start(2, 4));
    assert_eq!(indices, [0, 1]);
    let (run, indices) = started(run.work_finished(1, Ok(10)));
    assert_eq!(indices, [2]);
    let (run, indices) = started(run.work_finished(1, Ok(99)));
    assert!(indices.is_empty());
    let (run, indices) = started(run.work_finished(2, Ok(20)));
    assert_eq!(indices, [3]);
    let (run, _) = started(run.work_finished(3, Ok(30)));
    match run.work_finished(0, Ok(0)) {
        ConcurrentStep::Merge(results) => assert_eq!(results, [0, 10, 20, 30]),
        _ => panic!("all work is done"),
    }

    let (run, _) = started(ConcurrentRun::start(3, 4));
    let (run, _) = started(run.work_finished(0, Ok(1)));
    match run.work_finished(2, Err(failure(ErrorCode::Transient, "third"))) {
        ConcurrentStep::Finish(error) => assert_eq!(error.message(), "third"),
        _ => panic!("the first failure ends the step"),
    }
    match ConcurrentRun::<u32>::start(3, 0) {
        ConcurrentStep::Merge(results) => assert!(results.is_empty()),
        _ => panic!("nothing is to be done"),
    }
    match ConcurrentRun::<u32>::start(0, 1) {
        ConcurrentStep::Finish(error) => assert_eq!(error.code(), ErrorCode::Validation),
        _ => panic!("no work is allowed"),
    }
}

#[test]
fn stored_progress_ends_with_the_branch_that_it_was_handed_to() {
    let items = || Call::Items {
        select: Rc::new(|_| vec![1_u32]),
        run: Rc::new(|_, _| Ok(())),
        handle: None,
    };
    let flow = Flow::new().if_else(
        when(|_| true),
        Flow::new()
            .if_else(when(|_| true), Flow::new().action(adding(1, &calls())), Flow::new())
            .for_each_replayable(items()),
        Flow::new(),
    );
    let level = |next_step| CheckpointLevel { branch: 0, next_step };
    let stored = || CheckpointWork::ReplayableForEach { next_index: 1, items: vec![vec![9]] };
    match flow.enter_step(0, vec![level(0), level(1)], Some(stored())) {
        CursorStep::RunOperation { cursor, work } => {
            assert_eq!(cursor.levels().len(), 1);
            assert_eq!(cursor.levels()[0].next_step, 1);
            assert!(work.is_none());
        },
        _ => panic!("the collection comes next"),
    }
    match flow.enter_step(0, vec![level(1)], Some(stored())) {
        CursorStep::RunOperation { work, .. } => assert!(matches!(
            work,
            Some(CheckpointWork::ReplayableForEach { next_index: 1, items }) if items == [[9]]
        )),
        _ => panic!("the collection comes next"),
    }
}

#[test]
fn a_closed_throttle_rejects_its_actions() {
    let throttle = FlowThrottle::new(1).expect("a positive limit");
    let shared = throttle.clone();
    let flow = Flow::new().throttle(throttle, adding(1, &calls()));
    let mut state = State::default();
    run(&flow, &mut state).expect("a permit is free");
    shared.permits().close();
    let error = run(&flow, &mut state).expect_err("the copy was closed");
    assert_eq!(error.code(), ErrorCode::Cancelled);
    assert_eq!(error.message(), "flow throttle is closed");
    assert_eq!(state.total, 1);
}

#[test]
fn parallel_fanout_limits_empty_when_any_and_shared_throttle_are_enforced() {
    assert!(matches!(
        FlowThrottle::new(0),
        Err(error) if error.code() == ErrorCode::Validation
    ));

    let branch_calls = calls();
    let branches = (0..=MAX_DSL_PARALLEL_BRANCHES)
        .map(|_| Flow::new().action(adding(0, &branch_calls)))
        .collect();
    let oversized = Flow::new().parallel(branches, Call::MergeAll(Rc::new(|_, _| Ok(()))));
    let mut state = State::default();
    let error = run(&oversized, &mut state)
        .expect_err("the retained 65th branch must be rejected before execution");
    assert_eq!(error.code(), ErrorCode::Validation);
    assert_eq!(branch_calls.get(), 0);

    let merge_called = Rc::new(Cell::new(false));
    let called = Rc::clone(&merge_called);
    let empty_parallel = Flow::new().parallel(
        Vec::new(),
        Call::MergeAll(Rc::new(move |_, states| {
            called.set(states.is_empty());
            Ok(())
        })),
    );
    run(&empty_parallel, &mut state).expect("nothing to run");
    assert!(merge_called.get());

    let merge_called = Rc::new(Cell::new(false));
    let called = Rc::clone(&merge_called);
    let empty_any = Flow::new().when_any(
        Vec::new(),
        Call::MergeOne(Rc::new(move |_, _| {
            called.set(true);
            Ok(())
        })),
    );
    run(&empty_any, &mut state).expect("nothing to run");
    assert!(!merge_called.get());

    let branches = (0..=MAX_DSL_PARALLEL_BRANCHES)
        .map(|_| Flow::new().action(adding(0, &branch_calls)))
        .collect();
    let oversized = Flow::new().when_any(branches, take_winner());
    assert_eq!(
        run(&oversized, &mut state).expect_err("too many branches").code(),
        ErrorCode::Validation
    );
    assert_eq!(branch_calls.get(), 0);

    let throttle = FlowThrottle::new(1).expect("a positive limit");
    assert_eq!(throttle.permits().available_permits(), 1);
    let entered = calls();
    let flow = Flow::new().throttle(throttle, adding(0, &entered));
    let (first_entered, release_first) = (Notify::new(), Notify::new());
    let run_throttled = || async {
        let Some(DslOperation::Throttle { throttle, action }) = flow.operation(0) else {
            panic!("a throttled action is expected")
        };
        let _permit = throttle.permits().acquire().await.map_err(|_| throttle_closed())?;
        let mut state = State::default();
        run_call(action, &mut state)?;
        if entered.get() == 1 {
            first_entered.notify_one();
            release_first.notified().await;
        }
        Ok::<_, CatgaError>(())
    };
    let observe = async {
        first_entered.notified().await;
        tokio::task::yield_now().await;
        assert_eq!(entered.get(), 1);
        release_first.notify_one();
    };
    let runtime = tokio::runtime::Builder::new_current_thread().build().expect("a runtime");
    let (first, second, ()) =
        runtime.block_on(futures::future::join3(run_throttled(), run_throttled(), observe));
    first.expect("the first action runs");
    second.expect("the second action runs");
    assert_eq!(entered.get(), 2);
}

#[test]
fn dsl_step_decorators_skip_optional_failures_and_keep_response_writes_atomic() {
    let skipped_calls = calls();
    let store = || Call::Store(Rc::new(|state, value| state.total = value));
    let flow = Flow::new()
        .action(step(
            DslStep::action(adding(0, &skipped_calls)).only_when(when(|state| state.branch)),
        ))
        .action(step(
            DslStep::action(action(|_| {
                Err(failure(ErrorCode::Transient, "optional operation failed"))
            }))
            .optional(),
        ))
        .action(step(
            DslStep::query(Call::Query(Rc::new(|state| Ok(state.total.saturating_add(7)))))
                .only_when(when(|state| !state.branch))
                .into_state(store()),
        ));
    let mut state = State::default();

    run(&flow, &mut state).expect("the flow completes");
    assert_eq!(skipped_calls.get(), 0);
    assert_eq!(state.total, 7);

    let rejecting = Flow::new().action(step(
        DslStep::query(Call::Query(Rc::new(|_| Ok(9_u32))))
            .fail_if_response(Call::Response(Rc::new(|response| response == 9)))
            .into_state(store()),
    ));
    let error =
        run(&rejecting, &mut state).expect_err("rejected response must not be stored");
    assert_eq!(error.code(), ErrorCode::Validation);
    assert_eq!(state.total, 7);
}

#[test]
fn a_step_is_rejected_when_its_state_check_matches() {
    let flow = Flow::new().action(step(
        DslStep::action(adding(5, &calls())).fail_if(when(|state| state.total == 5)),
    ));
    let mut state = State::default();
    assert_eq!(
        run(&flow, &mut state).expect_err("the check matches").code(),
        ErrorCode::Validation
    );
    run(&flow, &mut state).expect("the check no longer matches");
    assert_eq!(state.total, 10);
    let flow = Flow::new().action(step(DslStep::action(adding(1, &calls())).fail_if_with(
        Call::RejectState(Rc::new(|state| {
            Some(failure(ErrorCode::Conflict, if state.total > 10 { "large" } else { "small" }))
        })),
    )));
    assert_eq!(run(&flow, &mut state).expect_err("always rejected").message(), "large");
}

#[test]
fn dsl_retry_and_timeout_preserve_error_classification_and_attempt_bounds() {
    let attempts = calls();
    let counter = Rc::clone(&attempts);
    let retrying = Flow::new().retry(
        2,
        Duration::zero(),
        action(move |state| {
            let attempt = counter.get();
            counted(&counter);
            if attempt < 2 {
                return Err(failure(ErrorCode::Transient, "retry me"));
            }
            state.total = state.total.saturating_add(1);
            Ok(())
        }),
    );
    let mut state = State::default();
    run(&retrying, &mut state).expect("the third attempt succeeds");
    assert_eq!(attempts.get(), 3);
    assert_eq!(state.total, 1);

    let non_retry_attempts = calls();
    let counter = Rc::clone(&non_retry_attempts);
    let permanent = Flow::new().retry(
        3,
        Duration::zero(),
        action(move |_| {
            counted(&counter);
            Err(failure(ErrorCode::Validation, "do not retry validation"))
        }),
    );
    let error =
        run(&permanent, &mut state).expect_err("non-transient failure returns immediately");
    assert_eq!(error.code(), ErrorCode::Validation);
    assert_eq!(non_retry_attempts.get(), 1);

    let timeout = Flow::new().timeout(Duration::zero(), Call::Never);
    let error = run(&timeout, &mut state).expect_err("expired timeout stops the flow");
    assert_eq!(error.code(), ErrorCode::Timeout);
}

#[test]
fn retry_delays_double_and_never_shrink() {
    let initial = Duration::from_millis(10);
    assert_eq!(retry_delay(initial, 0), Duration::from_millis(10));
    assert_eq!(retry_delay(initial, 1), Duration::from_millis(20));
    assert_eq!(retry_delay(initial, 4), Duration::from_millis(160));
    let mut last = Duration::zero();
    for retry in 0..80 {
        let delay = retry_delay(initial, retry);
        assert!(delay.at_least(last));
        last = delay;
    }
    let exhausted = after_attempt(
        1,
        initial,
        1,
        Err(failure(ErrorCode::Transient, "busy")),
    );
    assert!(matches!(exhausted, RetryStep::Finish(Err(error)) if error.message() == "busy"));
}

#[test]
fn dsl_branches_parallel_and_when_any_merge_only_the_selected_state() {
    let set = |value: u32| {
        Flow::new().action(action(move |state| {
            state.total = value;
            Ok(())
        }))
    };
    let flow = Flow::new()
        .if_else(
            when(|state| state.branch),
            Flow::new().action(adding(1, &calls())),
            Flow::new().action(adding(10, &calls())),
        )
        .match_on(
            Call::Select(Rc::new(|state| u64::from(state.total))),
            vec![(10, set(1_000)), (10, Flow::new().action(adding(20, &calls())))],
            Flow::new().action(adding(100, &calls())),
        )
        .action(action(|state| {
            assert_eq!(state.total, 30);
            Ok(())
        }))
        .parallel(vec![set(2), set(3)], sum())
        .action(action(|state| {
            assert_eq!(state.total, 5);
            Ok(())
        }))
        .when_any(
            vec![
                Flow::new()
                    .action(action(|_| Err(failure(ErrorCode::Transient, "not the winner")))),
                set(50),
            ],
            take_winner(),
        );
    let mut state = State::default();

    run(&flow, &mut state).expect("the flow completes");
    assert_eq!(state.total, 50);
}

#[test]
fn a_race_that_nobody_wins_fails_with_the_first_failure() {
    let lose = |message: &'static str| {
        Flow::new().action(action(move |_| Err(failure(ErrorCode::Internal, message))))
    };
    let flow = Flow::new().when_any(vec![lose("first"), lose("second")], take_winner());
    let error = run(&flow, &mut State::default()).expect_err("all branches fail");
    assert_eq!(error.message(), "first");
}

#[test]
fn a_parallel_step_fails_with_the_first_failure() {
    let lose = |message: &'static str| {
        Flow::new().action(action(move |_| Err(failure(ErrorCode::Internal, message))))
    };
    let flow = Flow::new().when_all(vec![Flow::new(), lose("first"), lose("second")], sum());
    let error = run(&flow, &mut State::default()).expect_err("two branches fail");
    assert_eq!(error.message(), "first");
}

#[test]
fn branch_progress_rejects_malformed_checkpoint_frames() {
    let saved = ParallelBranchProgress::InProgress {
        step_index: 0,
        checkpoint_frame: true,
        payload: vec![0],
    };

    assert_eq!(
        BranchProgressStore::from_saved(Some(&saved)).expect_err("malformed local frame").code(),
        ErrorCode::Validation
    );
}

#[test]
fn branch_progress_rejects_oversized_payloads() {
    let saved = ParallelBranchProgress::Completed {
        state: vec![0; MAX_PARALLEL_BRANCH_PAYLOAD_BYTES.saturating_add(1)],
    };

    assert_eq!(
        BranchProgressStore::from_saved(Some(&saved)).expect_err("oversized local payload").code(),
        ErrorCode::Validation
    );
}

struct SequenceCodec {
    calls: Cell<usize>,
}

impl Codec for SequenceCodec {
    fn encode(&self, _: &State) -> CatgaResult<Vec<u8>> {
        let call = self.calls.get();
        self.calls.set(call + 1);
        if call == 0 {
            Ok(vec![0; MAX_PARALLEL_BRANCH_PAYLOAD_BYTES + 1])
        } else {
            Ok(0_u32.to_be_bytes().to_vec())
        }
    }

    fn decode(&self, _: &[u8]) -> CatgaResult<State> {
        Ok(State::default())
    }
}

#[test]
fn oversized_local_codec_payload_is_not_overwritten_by_completed_state() {
    let flow = Flow::new().parallel(
        vec![Flow::new().action(action(|_| Ok(())))],
        Call::MergeAll(Rc::new(|_, _| Ok(()))),
    );
    let store = ProgressStore::default();
    let codec = SequenceCodec { calls: Cell::new(0) };
    let context =
        Context { flow_id: "parallel-oversized", top: 0, store: &store, codec: &codec };
    let operation = flow.operation(0).expect("the parallel step");

    assert_eq!(
        context
            .run_operation(operation, &mut State::default(), &[], None)
            .expect_err("oversized local codec payload")
            .code(),
        ErrorCode::Validation
    );
}

#[test]
fn a_branch_store_keeps_the_latest_record() {
    let mut store = BranchProgressStore::from_saved(None).expect("an empty store");
    assert!(store.snapshot().is_none());
    assert!(store.create(DslStepProgress::new("branch", 1, vec![1])));
    assert!(!store.create(DslStepProgress::new("branch", 1, vec![2])));
    assert!(store.get("branch", 0).is_none());
    let record = store.get("branch", 1).expect("the record");
    let next = record.next_version(vec![3]).expect("version in range");
    assert!(!store.update(5, next.clone()));
    assert!(store.update(0, next));
    assert_eq!(store.snapshot().expect("the record").payload(), [3]);
    assert!(!store.delete("branch", 2));
    assert!(store.delete("branch", 1));
    assert!(store.snapshot().is_none());
}

#[test]
fn rejects_malformed_checkpointed_winner_index_and_state() {
    let flow = Flow::new().when_any(vec![Flow::new()], take_winner());
    let store = ProgressStore::default();
    let context =
        Context { flow_id: "when-any-test", top: 0, store: &store, codec: &StateCodec };
    let operation = flow.operation(0).expect("the race");
    let run = |winner: u32| {
        context.run_operation(
            operation,
            &mut State::default(),
            &[],
            Some(CheckpointWork::WhenAny { winner, state: vec![] }),
        )
    };
    assert_eq!(
        run(1).expect_err("winner index outside branch list").code(),
        ErrorCode::Validation
    );
    assert_eq!(
        run(0).expect_err("invalid encoded winner state").code(),
        ErrorCode::Validation
    );
}

#[test]
fn replayable_items_are_bounded() {
    assert!(validate_replayable_for_each_items(&vec![vec![1], vec![2]]).is_ok());
    assert_eq!(
        validate_replayable_for_each_items(&vec![vec![]; MAX_CHECKPOINT_REPLAYABLE_ITEMS + 1])
            .expect_err("too many items")
            .code(),
        ErrorCode::Validation
    );
    assert!(validate_replayable_for_each_items(&vec![vec![
        0;
        MAX_CHECKPOINT_REPLAYABLE_ITEM_BYTES + 1
    ]])
    .is_err());
    assert!(validate_replayable_for_each_items(&vec![
        vec![0; MAX_CHECKPOINT_REPLAYABLE_ITEM_BYTES],
        vec![0; 1],
    ])
    .is_err());
    assert!(matches!(
        resume_items(false, Some(CheckpointWork::Parallel { states: vec![] })),
        ItemStep::Finish(Err(error)) if error.code() == ErrorCode::Validation
    ));
}

#[test]
fn progress_records_count_versions_one_by_one() {
    let record = DslStepProgress::new("flow", 2, vec![1]);
    assert_eq!(record.version(), 0);
    assert_eq!(record.kind(), DslProgressKind::ApplicationState);
    let next = record.next_version(vec![2]).expect("version in range");
    assert_eq!(next.version(), 1);
    assert_eq!(next.into_payload(), [2]);
    let frame = record.clone().checkpoint_frame(vec![3]);
    assert_eq!(frame.kind(), DslProgressKind::CheckpointFrame);
    let completed = frame.completed_application_state(vec![4]).expect("version in range");
    assert_eq!(completed.kind(), DslProgressKind::ApplicationState);
    assert_eq!(record.terminal(vec![5]).kind(), DslProgressKind::Terminal);
    assert!(DslStepProgress::is_next_version(1, 2));
    assert!(!DslStepProgress::is_next_version(i64::MAX, i64::MIN));
}

#[test]
fn indexed_results_and_cases_are_found_by_their_place() {
    assert_eq!(in_input_order(vec![(2, 'c'), (0, 'a'), (1, 'b')]), Some(vec!['a', 'b', 'c']));
    assert_eq!(in_input_order(vec![(0, 'a'), (0, 'b')]), None);
    assert_eq!(in_input_order(vec![(2, 'a'), (0, 'b')]), None);
    assert_eq!(find_case(&vec![1, 2], 2), Some(1));
    assert_eq!(find_case(&vec![1, 2], 3), None);
}
