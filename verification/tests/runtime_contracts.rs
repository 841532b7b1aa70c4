//! Durable flows, driven step by step against stores in memory.

use std::cell::{Cell, RefCell};
use std::collections::HashMap;
use std::rc::Rc;

use catga_flow::attempt::{compensation_attempt, step_attempt, AttemptEvent, AttemptStep};
use catga_flow::child_launch::{LaunchStep, MAX_CHILD_LAUNCH_CAS_RETRIES};
use catga_flow::executor::{ExecutorStep, RecoveryStep, WorkEvent, WorkStep};
use catga_flow::local::{local_cancellation, LocalStep};
use catga_flow::reconciliation::ReconcileStep;
use catga_flow::runtime::RuntimeStep;
use catga_flow::{
    encode_continuation, CatgaError, CatgaResult, Duration, ErrorCode, Flow, FlowContinuation,
    FlowDefinition, FlowExecutor, FlowHeartbeatOptions, FlowQuery, FlowRecoveryOptions,
    FlowRegistry, FlowResult, FlowRuntime, FlowRuntimeResult, FlowState, FlowStatus,
    FlowStepOutcome, FlowTagPolicy, FlowVersionManager, MemoryFlowScheduler, RegistryFlowRuntime,
    Timestamp, WaitCondition, WaitPolicy,
};

fn at(seconds: u64) -> Timestamp {
    Timestamp::unix_epoch().checked_add(Duration::from_secs(seconds)).expect("time in range")
}

fn failure(code: ErrorCode, message: &str) -> CatgaError {
    CatgaError::new(code, message)
}

fn same(first: &FlowContinuation, second: &FlowContinuation) -> bool {
    encode_continuation(first).expect("encode") == encode_continuation(second).expect("encode")
}

#[derive(Default)]
struct ContinuationStore {
    records: RefCell<HashMap<String, FlowContinuation>>,
    lost_updates: Cell<usize>,
}

impl ContinuationStore {
    fn create(&self, continuation: FlowContinuation) -> CatgaResult<bool> {
        let mut records = self.records.borrow_mut();
        let id = continuation.state().id().to_owned();
        if records.contains_key(&id) {
            return Ok(false);
        }
        records.insert(id, continuation);
        Ok(true)
    }

    fn get(&self, flow_id: &str) -> CatgaResult<Option<FlowContinuation>> {
        Ok(self.records.borrow().get(flow_id).cloned())
    }

    fn get_by_wait_correlation(
        &self,
        correlation_id: &str,
    ) -> CatgaResult<Option<FlowContinuation>> {
        Ok(self
            .records
            .borrow()
            .values()
            .find(|continuation| {
                continuation.wait().is_some_and(|wait| wait.correlation_id() == correlation_id)
            })
            .cloned())
    }

    fn query(&self, query: &FlowQuery) -> Vec<String> {
        self.records
            .borrow()
            .values()
            .take(query.max_scan())
            .filter(|continuation| query.matches(continuation))
            .take(query.max_results())
            .map(|continuation| continuation.state().id().to_owned())
            .collect()
    }

    fn update(&self, expected_version: i64, next: FlowContinuation) -> CatgaResult<bool> {
        if self.lost_updates.get() > 0 {
            self.lost_updates.set(self.lost_updates.get() - 1);
            return Ok(false);
        }
        let mut records = self.records.borrow_mut();
        let Some(current) = records.get(next.state().id()) else {
            return Ok(false);
        };
        if current.state().version() != expected_version
            || !FlowState::is_next_version(expected_version, next.state().version())
        {
            return Ok(false);
        }
        records.insert(next.state().id().to_owned(), next);
        Ok(true)
    }

    fn claim(&self, expected: &FlowContinuation, next: FlowContinuation) -> CatgaResult<bool> {
        let mut records = self.records.borrow_mut();
        let unchanged = records
            .get(expected.state().id())
            .is_some_and(|current| same(current, expected));
        if !unchanged
            || !FlowState::is_next_version(expected.state().version(), next.state().version())
        {
            return Ok(false);
        }
        records.insert(next.state().id().to_owned(), next);
        Ok(true)
    }

    fn record_wait(
        &self,
        flow_id: &str,
        version: i64,
        now: Timestamp,
        update: impl FnOnce(&WaitCondition) -> WaitCondition,
    ) -> CatgaResult<bool> {
        let mut records = self.records.borrow_mut();
        let Some(continuation) = records.get(flow_id).cloned() else {
            return Ok(false);
        };
        if continuation.state().version() != version {
            return Ok(false);
        }
        let Some(wait) = continuation.wait() else {
            return Ok(false);
        };
        let next_wait = update(wait);
        records.insert(flow_id.to_owned(), continuation.with_wait(next_wait, now));
        Ok(true)
    }
}

type Handler = Rc<dyn Fn(&FlowContinuation) -> CatgaResult<FlowStepOutcome>>;
type Undo = Rc<dyn Fn() -> CatgaResult<()>>;

struct Worker {
    store: ContinuationStore,
    scheduler: RefCell<MemoryFlowScheduler>,
    handlers: HashMap<&'static str, Handler>,
    undo: HashMap<&'static str, Undo>,
    runtime: FlowRuntime,
    now: Cell<Timestamp>,
}

impl Worker {
    fn new(definition: FlowDefinition, handlers: Vec<(&'static str, Handler)>) -> Self {
        Worker {
            store: ContinuationStore::default(),
            scheduler: RefCell::new(MemoryFlowScheduler::new()),
            handlers: handlers.into_iter().collect(),
            undo: HashMap::new(),
            runtime: FlowRuntime::new(definition, "worker"),
            now: Cell::new(at(1_000)),
        }
    }

    fn drive(&self, mut next: RuntimeStep) -> CatgaResult<FlowRuntimeResult> {
        let now = self.now.get();
        loop {
            next = match next {
                RuntimeStep::Create { continuation } => {
                    let result = self.store.create(continuation.clone());
                    self.runtime.created(continuation, result)
                },
                RuntimeStep::Load { flow_id } => {
                    self.runtime.loaded(self.store.get(&flow_id), now, now)
                },
                RuntimeStep::Reload { flow_id } => {
                    self.runtime.current_result(self.store.get(&flow_id))
                },
                RuntimeStep::Claim { expected, next } => {
                    let result = self.store.claim(&expected, next.clone());
                    self.runtime.claimed(next, result, now)
                },
                RuntimeStep::Execute { continuation, attempt } => {
                    let result = self.handlers[continuation.step_name()](&continuation);
                    self.runtime.executed(continuation, attempt, result, now)
                },
                RuntimeStep::RenewForRetry { continuation, attempt } => {
                    self.runtime.retry_renewed(continuation, attempt, Ok(true), now)
                },
                RuntimeStep::Update { expected_version, next, after } => {
                    let result = self.store.update(expected_version, next.clone());
                    self.runtime.updated(next, after, result, now)
                },
                RuntimeStep::Schedule { pending, due_at } => {
                    let id = self.scheduler.borrow_mut().schedule_resume(
                        pending.state().id(),
                        pending.step_name(),
                        due_at,
                    );
                    self.runtime.scheduled(pending, Ok(id), now)
                },
                RuntimeStep::RecordSchedule { pending, scheduled } => {
                    let result =
                        self.store.update(pending.state().version(), scheduled.clone());
                    self.runtime.schedule_recorded(pending, scheduled, result)
                },
                RuntimeStep::Compensate { continuation, step_name } => {
                    let result = self.undo[step_name.as_str()]();
                    self.runtime.compensated(continuation, result, now)
                },
                RuntimeStep::StoreCancelled { expected_version, cancelled, schedule } => {
                    let result = self.store.update(expected_version, cancelled.clone());
                    self.runtime.cancel_stored(cancelled, schedule, result)
                },
                RuntimeStep::CancelSchedule { schedule_id, state } => {
                    self.scheduler.borrow_mut().cancel_resume(&schedule_id);
                    return Ok(FlowRuntimeResult::new(state));
                },
                RuntimeStep::RecordSuccess { flow_id, version, child_id, payload } => {
                    let result = self.store.record_wait(&flow_id, version, now, |wait| {
                        wait.record_success(&child_id, payload)
                    });
                    self.runtime.wait_recorded(&flow_id, result)
                },
                RuntimeStep::RecordFailure { flow_id, version, child_id, failure } => {
                    let result = self.store.record_wait(&flow_id, version, now, |wait| {
                        wait.record_failure(&child_id, failure)
                    });
                    self.runtime.wait_recorded(&flow_id, result)
                },
                RuntimeStep::Finish(result) => return result,
            };
        }
    }

    fn start(&self, flow_id: &str) -> CatgaResult<FlowRuntimeResult> {
        self.drive(self.runtime.start(flow_id, vec![], self.now.get()))
    }

    fn resume(&self, flow_id: &str) -> CatgaResult<FlowRuntimeResult> {
        self.drive(self.runtime.resume(flow_id))
    }

    fn succeed(&self, flow_id: &str, child: &str, payload: &[u8]) -> CatgaResult<FlowRuntimeResult> {
        let loaded = self.store.get(flow_id);
        self.drive(self.runtime.record_wait_success(flow_id, loaded, child, payload.to_vec()))
    }

    fn fail(&self, flow_id: &str, child: &str, error: CatgaError) -> CatgaResult<FlowRuntimeResult> {
        let loaded = self.store.get(flow_id);
        self.drive(self.runtime.record_wait_failure(flow_id, loaded, child, error))
    }

    fn succeed_by_correlation(
        &self,
        correlation: &str,
        child: &str,
        payload: &[u8],
    ) -> CatgaResult<FlowRuntimeResult> {
        let found = self.store.get_by_wait_correlation(correlation);
        let flow_id = self.runtime.correlated_flow(found)?;
        self.succeed(&flow_id, child, payload)
    }

    fn cancel(&self, flow_id: &str) -> CatgaResult<FlowRuntimeResult> {
        self.drive(self.runtime.cancel(self.store.get(flow_id), self.now.get()))
    }

    fn reconcile(&self, max_results: usize, max_scan: usize) -> CatgaResult<usize> {
        let query = self.runtime.reconcile_delayed_suspensions(max_results, max_scan)?;
        let mut total = 0;
        for flow_id in self.store.query(&query) {
            let mut next = self.runtime.reconcile_loaded(self.store.get(&flow_id), total);
            total = loop {
                next = match next {
                    ReconcileStep::Schedule { pending, due_at } => {
                        let id = self.scheduler.borrow_mut().schedule_resume(
                            pending.state().id(),
                            pending.step_name(),
                            due_at,
                        );
                        self.runtime.reconcile_scheduled(pending, Ok(id), self.now.get())
                    },
                    ReconcileStep::Record { expected_version, scheduled } => {
                        let result = self.store.update(expected_version, scheduled);
                        self.runtime.reconcile_recorded(total, result)
                    },
                    ReconcileStep::Next { reconciled } => break reconciled,
                    ReconcileStep::Fail(error) => return Err(error),
                };
            };
        }
        Ok(total)
    }

    fn launch(
        &self,
        flow_id: &str,
        launch: &dyn Fn(&str) -> CatgaResult<()>,
    ) -> CatgaResult<usize> {
        let mut next = self.runtime.launch_waiting_children();
        loop {
            next = match next {
                LaunchStep::LoadForClaim { launched, attempt } => {
                    let loaded = self.store.get(flow_id);
                    self.runtime.claim_next_wait_child(loaded, launched, attempt, self.now.get())
                },
                LaunchStep::StoreClaim {
                    expected,
                    next,
                    child_id,
                    correlation_id,
                    launched,
                    attempt,
                } => {
                    let result = self.store.claim(&expected, next);
                    self.runtime
                        .child_claim_stored(child_id, correlation_id, launched, attempt, result)
                },
                LaunchStep::Launch { child_id, launched, .. } => {
                    let result = launch(&child_id);
                    self.runtime.child_launched(child_id, launched, result)
                },
                LaunchStep::LoadToFinish { child_id, failure, launched, attempt } => {
                    let loaded = self.store.get(flow_id);
                    self.runtime.finish_wait_child_claim(
                        loaded,
                        child_id,
                        failure,
                        launched,
                        attempt,
                        self.now.get(),
                    )
                },
                LaunchStep::StoreFinish {
                    expected,
                    next,
                    child_id,
                    failure,
                    launched,
                    attempt,
                } => {
                    let result = self.store.claim(&expected, next);
                    self.runtime.child_finish_stored(child_id, failure, launched, attempt, result)
                },
                LaunchStep::Finish(result) => return result,
            };
        }
    }
}

fn children(correlation: &str, policy: WaitPolicy) -> WaitCondition {
    WaitCondition::for_children(
        correlation,
        policy,
        vec!["reserve".to_owned(), "charge".to_owned()],
        at(1_000),
        Duration::from_secs(3_600),
    )
    .expect("test child identities are valid")
}

fn waiting(wait: WaitCondition) -> Handler {
    Rc::new(move |_| Ok(FlowStepOutcome::wait(wait.clone())))
}

fn completing() -> Handler {
    Rc::new(|_| Ok(FlowStepOutcome::complete()))
}

fn advancing() -> Handler {
    Rc::new(|_| Ok(FlowStepOutcome::Advance))
}

#[test]
fn correlated_any_wait_rejects_invalid_input_then_resumes_exactly_once() -> CatgaResult<()> {
    let worker = Worker::new(
        FlowDefinition::new("checkout").step("await-child").step("complete"),
        vec![
            ("await-child", waiting(children("order-42/children", WaitPolicy::Any))),
            ("complete", completing()),
        ],
    );

    let suspended = worker.start("order-42")?;
    assert!(suspended.is_suspended());
    let missing = worker
        .succeed_by_correlation("missing", "reserve", b"")
        .expect_err("unknown correlations must not create a result");
    assert_eq!(missing.code(), ErrorCode::NotFound);
    let invalid_child = worker
        .succeed_by_correlation("order-42/children", "other", b"")
        .expect_err("only persisted child identities are accepted");
    assert_eq!(invalid_child.code(), ErrorCode::Validation);

    let completed = worker.succeed_by_correlation("order-42/children", "charge", b"ok")?;
    assert!(completed.is_success());
    assert_eq!(completed.state().status(), FlowStatus::Done);
    assert!(worker.resume("order-42")?.is_success());
    Ok(())
}

#[test]
fn delayed_suspension_reconciliation_persists_one_schedule_identity() -> CatgaResult<()> {
    let worker = Worker::new(
        FlowDefinition::new("checkout").step("complete"),
        vec![("complete", completing())],
    );
    let due_at = at(86_400);
    let delayed = FlowContinuation::new(
        FlowState::new("delayed-42", "checkout", vec![], "lost-worker", at(1)).suspended(),
        "complete",
        at(1),
    )
    .delayed_until(due_at, at(1));
    assert!(worker.store.create(delayed)?);

    assert_eq!(worker.reconcile(1, 1)?, 1);
    let stored = worker
        .store
        .get("delayed-42")?
        .expect("reconciled continuation remains durable");
    assert_eq!(stored.schedule_id(), Some("flow-resume-0"));
    assert_eq!(stored.resume_at(), Some(due_at));
    assert_eq!(worker.reconcile(1, 1)?, 0);

    let schedules = worker.scheduler.borrow_mut().take_due(due_at);
    assert_eq!(schedules.len(), 1);
    assert_eq!(schedules[0].flow_id(), "delayed-42");
    assert_eq!(schedules[0].state_id(), "complete");
    Ok(())
}

#[test]
fn runtime_waits_for_all_children_before_running_the_next_step() -> CatgaResult<()> {
    let worker = Worker::new(
        FlowDefinition::new("checkout").step("await-children").step("complete"),
        vec![
            ("await-children", waiting(children("checkout-children", WaitPolicy::All))),
            ("complete", completing()),
        ],
    );

    let started = worker.start("checkout-1")?;
    assert!(started.is_suspended());
    assert_eq!(started.state().status(), FlowStatus::Suspended);
    let duplicate = worker.start("checkout-1").expect_err("flow identities are unique");
    assert_eq!(duplicate.code(), ErrorCode::Conflict);
    assert_eq!(
        worker
            .store
            .get("checkout-1")?
            .expect("started continuation persists")
            .step_name(),
        "complete"
    );

    let pending = worker.succeed("checkout-1", "reserve", b"reserved")?;
    assert!(pending.is_suspended());
    let done = worker.succeed("checkout-1", "charge", b"charged")?;
    assert!(done.is_success());
    assert_eq!(done.state().step(), 2);

    let replay = worker.resume("checkout-1")?;
    assert!(replay.is_success());
    Ok(())
}

#[test]
fn runtime_fails_an_all_wait_when_a_child_reports_an_error() -> CatgaResult<()> {
    let worker = Worker::new(
        FlowDefinition::new("checkout").step("await-children").step("unreachable"),
        vec![
            ("await-children", waiting(children("checkout-children", WaitPolicy::All))),
            ("unreachable", completing()),
        ],
    );

    worker.start("checkout-2")?;
    let unknown = worker
        .succeed("checkout-2", "unknown", b"ignored")
        .expect_err("only persisted children can complete a durable wait");
    assert_eq!(unknown.code(), ErrorCode::Validation);
    let failed = worker.fail(
        "checkout-2",
        "reserve",
        failure(ErrorCode::Validation, "reservation rejected"),
    )?;

    assert!(failed.is_failure());
    assert_eq!(failed.state().error().map(CatgaError::code), Some(ErrorCode::Validation));
    let terminal = worker.succeed("checkout-2", "charge", b"ignored")?;
    assert!(terminal.is_failure());
    Ok(())
}

#[test]
fn runtime_cancellation_fences_a_delayed_resume_and_removes_its_schedule() -> CatgaResult<()> {
    let due_at = at(60 * 60);
    let worker = Worker::new(
        FlowDefinition::new("delayed").step("pause").step("complete"),
        vec![
            ("pause", Rc::new(move |_| Ok(FlowStepOutcome::suspend_until(due_at)))),
            ("complete", completing()),
        ],
    );

    let suspended = worker.start("delayed-1")?;
    assert!(suspended.is_suspended());
    let stale = worker
        .drive(worker.runtime.resume_scheduled(
            "delayed-1",
            worker.store.get("delayed-1"),
            "old-step",
        ))
        .expect_err("a schedule must target the continuation's current step");
    assert_eq!(stale.code(), ErrorCode::Conflict);
    let cancelled = worker.cancel("delayed-1")?;
    assert!(cancelled.is_cancelled());
    assert!(worker.scheduler.borrow_mut().take_due(due_at).is_empty());

    worker.now.set(due_at);
    let replay = worker.resume("delayed-1")?;
    assert!(replay.is_cancelled());
    Ok(())
}

#[test]
fn a_delayed_flow_runs_only_when_its_time_has_come() -> CatgaResult<()> {
    let due_at = at(5_000);
    let worker = Worker::new(
        FlowDefinition::new("delayed").step("pause").step("complete"),
        vec![
            ("pause", Rc::new(move |_| Ok(FlowStepOutcome::suspend_until(due_at)))),
            ("complete", completing()),
        ],
    );
    worker.start("delayed-2")?;
    let before = worker.store.get("delayed-2")?.expect("a stored flow");
    assert!(worker.resume("delayed-2")?.is_suspended());
    let after = worker.store.get("delayed-2")?.expect("a stored flow");
    assert!(same(&before, &after));

    worker.now.set(due_at);
    let due = worker.scheduler.borrow_mut().take_due(due_at);
    assert_eq!(due[0].state_id(), "complete");
    let done = worker.drive(worker.runtime.resume_scheduled(
        "delayed-2",
        worker.store.get("delayed-2"),
        due[0].state_id(),
    ))?;
    assert!(done.is_success());
    Ok(())
}

#[test]
fn a_failed_flow_undoes_its_steps_in_reverse() -> CatgaResult<()> {
    let undone: Rc<RefCell<Vec<&'static str>>> = Rc::default();
    let mut worker = Worker::new(
        FlowDefinition::new("saga")
            .step_with_compensation("reserve")
            .step_with_compensation("charge")
            .step("ship"),
        vec![
            ("reserve", advancing()),
            ("charge", advancing()),
            ("ship", Rc::new(|_| Err(failure(ErrorCode::Validation, "no courier")))),
        ],
    );
    for name in ["reserve", "charge"] {
        let log = Rc::clone(&undone);
        let undo: Undo = Rc::new(move || {
            log.borrow_mut().push(name);
            Ok(())
        });
        worker.undo.insert(name, undo);
    }
    let failed = worker.start("saga-1")?;
    assert!(failed.is_failure());
    assert!(!failed.is_compensating());
    assert_eq!(failed.state().error().expect("the failure").message(), "no courier");
    assert_eq!(*undone.borrow(), ["charge", "reserve"]);
    assert!(worker.resume("saga-1")?.is_failure());
    assert_eq!(*undone.borrow(), ["charge", "reserve"]);
    Ok(())
}

#[test]
fn a_step_can_jump_to_another_step() -> CatgaResult<()> {
    let worker = Worker::new(
        FlowDefinition::new("jump").step("start").step("skipped").step("end"),
        vec![
            ("start", Rc::new(|_| Ok(FlowStepOutcome::goto("end")))),
            ("skipped", Rc::new(|_| panic!("the step is jumped over"))),
            ("end", advancing()),
        ],
    );
    let done = worker.start("jump-1")?;
    assert!(done.is_success());
    let lost = Worker::new(
        FlowDefinition::new("jump").step("start"),
        vec![("start", Rc::new(|_| Ok(FlowStepOutcome::goto("missing"))))],
    );
    let failed = lost.start("jump-2")?;
    assert!(failed.is_failure());
    assert_eq!(
        failed.state().error().expect("the failure").message(),
        "a flow transition references an unregistered step"
    );
    Ok(())
}

#[test]
fn tagged_steps_are_tried_as_often_as_their_policy_says() -> CatgaResult<()> {
    let tries = Rc::new(Cell::new(0));
    let counter = Rc::clone(&tries);
    let mut worker = Worker::new(
        FlowDefinition::new("tagged").step_with_tag("call", "remote"),
        vec![(
            "call",
            Rc::new(move |_| {
                counter.set(counter.get() + 1);
                if counter.get() < 3 {
                    Err(failure(ErrorCode::Transient, "busy"))
                } else {
                    Ok(FlowStepOutcome::complete())
                }
            }),
        )],
    );
    worker.runtime = FlowRuntime::new(
        FlowDefinition::new("tagged").step_with_tag("call", "remote"),
        "worker",
    )
    .with_tag_policy(
        FlowTagPolicy::new(Duration::from_secs(5), 0)
            .with_retries("remote", 2)
            .with_timeout("remote", Duration::from_secs(9)),
    );
    assert_eq!(worker.runtime.step_timeout("call"), Some(Duration::from_secs(9)));
    assert_eq!(worker.runtime.step_timeout("other"), None);
    assert!(worker.start("tagged-1")?.is_success());
    assert_eq!(tries.get(), 3);
    Ok(())
}

#[test]
fn another_worker_takes_over_only_a_stale_flow() -> CatgaResult<()> {
    let mut worker = Worker::new(
        FlowDefinition::new("takeover").step("complete"),
        vec![("complete", completing())],
    );
    worker.runtime = FlowRuntime::new(FlowDefinition::new("takeover").step("complete"), "worker")
        .with_stale_after(Duration::from_secs(30));
    let running = FlowContinuation::new(
        FlowState::new("owned", "takeover", vec![], "other", at(1_000)),
        "complete",
        at(1_000),
    );
    assert!(worker.store.create(running)?);
    worker.now.set(at(1_010));
    assert!(worker.resume("owned")?.is_running());
    worker.now.set(at(1_030));
    assert!(worker.resume("owned")?.is_success());
    assert_eq!(worker.runtime.heartbeat_interval(), Some(Duration::from_secs(15)));
    Ok(())
}

#[test]
fn flows_of_another_definition_are_not_touched() -> CatgaResult<()> {
    let worker = Worker::new(
        FlowDefinition::new("mine").step("complete"),
        vec![("complete", completing())],
    );
    let other = FlowContinuation::new(
        FlowState::new("foreign", "theirs", vec![], "other", at(1)),
        "complete",
        at(1),
    );
    assert!(worker.store.create(other)?);
    assert!(worker.resume("foreign").is_err());
    let missing = worker.resume("missing").expect_err("no such flow");
    assert_eq!(missing.code(), ErrorCode::NotFound);
    Ok(())
}

#[test]
fn waiting_children_are_launched_once() -> CatgaResult<()> {
    let worker = Worker::new(
        FlowDefinition::new("checkout").step("await-children").step("complete"),
        vec![
            ("await-children", waiting(children("launch", WaitPolicy::All))),
            ("complete", completing()),
        ],
    );
    worker.start("launch-1")?;
    let launched: RefCell<Vec<String>> = RefCell::default();
    let count = worker.launch("launch-1", &|child| {
        launched.borrow_mut().push(child.to_owned());
        Ok(())
    })?;
    assert_eq!(count, 2);
    assert_eq!(*launched.borrow(), ["reserve", "charge"]);
    assert_eq!(worker.launch("launch-1", &|_| panic!("all children run"))?, 0);
    Ok(())
}

#[test]
fn a_child_that_does_not_launch_can_be_launched_again() -> CatgaResult<()> {
    let worker = Worker::new(
        FlowDefinition::new("checkout").step("await-children").step("complete"),
        vec![
            ("await-children", waiting(children("launch", WaitPolicy::All))),
            ("complete", completing()),
        ],
    );
    worker.start("launch-2")?;
    let error = worker
        .launch("launch-2", &|_| Err(failure(ErrorCode::Unavailable, "no worker")))
        .expect_err("the launcher fails");
    assert_eq!(error.message(), "no worker");
    assert_eq!(worker.launch("launch-2", &|_| Ok(()))?, 2);
    assert_eq!(MAX_CHILD_LAUNCH_CAS_RETRIES, 8);
    Ok(())
}

#[test]
fn an_attempt_ends_when_its_claim_is_lost_or_its_time_is_up() {
    assert!(matches!(
        step_attempt::<u8>(AttemptEvent::Heartbeat(Ok(true))),
        AttemptStep::Continue
    ));
    assert!(matches!(
        step_attempt::<u8>(AttemptEvent::Finished(Ok(7))),
        AttemptStep::End(Ok(7))
    ));
    match step_attempt::<u8>(AttemptEvent::TimedOut) {
        AttemptStep::End(Err(error)) => {
            assert_eq!(error.code(), ErrorCode::Timeout);
            assert_eq!(error.message(), "tagged flow step timed out");
        },
        other => panic!("unexpected step {other:?}"),
    }
    match compensation_attempt::<u8>(AttemptEvent::Heartbeat(Ok(false))) {
        AttemptStep::End(Err(error)) => assert_eq!(error.code(), ErrorCode::Conflict),
        other => panic!("unexpected step {other:?}"),
    }
}

#[derive(Default)]
struct StateStore {
    states: RefCell<HashMap<String, FlowState>>,
}

impl StateStore {
    fn insert(&self, state: FlowState) {
        self.states.borrow_mut().insert(state.id().to_owned(), state);
    }

    fn create(&self, state: FlowState) -> CatgaResult<bool> {
        if self.states.borrow().contains_key(state.id()) {
            return Ok(false);
        }
        self.insert(state);
        Ok(true)
    }

    fn update(&self, expected_version: i64, next: FlowState) -> CatgaResult<bool> {
        let current = self.get(next.id())?;
        let Some(current) = current else {
            return Ok(false);
        };
        if current.version() != expected_version
            || !FlowState::is_next_version(expected_version, next.version())
        {
            return Ok(false);
        }
        self.insert(next);
        Ok(true)
    }

    fn get(&self, id: &str) -> CatgaResult<Option<FlowState>> {
        Ok(self.states.borrow().get(id).cloned())
    }

    fn heartbeat(&self, id: &str, owner: &str, version: i64, now: Timestamp) -> CatgaResult<bool> {
        let Some(current) = self.get(id)? else {
            return Ok(false);
        };
        if current.owner() != Some(owner) || current.version() != version {
            return Ok(false);
        }
        self.insert(current.heartbeated_at(now));
        Ok(true)
    }
}

fn execute(
    executor: &FlowExecutor,
    store: &StateStore,
    id: &str,
    flow_type: &str,
    work: &dyn Fn(&FlowState) -> CatgaResult<FlowResult>,
) -> CatgaResult<FlowResult> {
    let now = at(1_000);
    finish(executor, store, executor.execute(id, flow_type, vec![], now), work)
}

fn finish(
    executor: &FlowExecutor,
    store: &StateStore,
    mut next: ExecutorStep,
    work: &dyn Fn(&FlowState) -> CatgaResult<FlowResult>,
) -> CatgaResult<FlowResult> {
    let now = at(1_000);
    loop {
        next = match next {
            ExecutorStep::Create { initial } => {
                let result = store.create(initial.clone());
                executor.created(initial, result)
            },
            ExecutorStep::Load { initial } => {
                let loaded = store.get(initial.id());
                executor.existing_loaded(initial, loaded, now)
            },
            ExecutorStep::StoreClaim { expected_version, claimed } => {
                let result = store.update(expected_version, claimed.clone());
                executor.claim_stored(claimed, result)
            },
            ExecutorStep::LoadLostClaim { id } => executor.lost_claim_loaded(store.get(&id)),
            ExecutorStep::Run { state } => {
                let outcome = work(&state);
                executor.work_finished(state, outcome)
            },
            ExecutorStep::StoreResult { state, next, result } => {
                let stored = store.update(state.version(), next);
                executor.result_stored(state, result, stored)
            },
            ExecutorStep::LoadForResult { state, result } => {
                let loaded = store.get(state.id());
                executor.result_reloaded(state, result, loaded)
            },
            ExecutorStep::Finish(result) => return result,
        };
    }
}

#[test]
fn executor_persists_terminal_result_and_does_not_replay_completed_work() -> CatgaResult<()> {
    let store = StateStore::default();
    let executor = FlowExecutor::new("worker-a", Duration::from_secs(1));
    let invocations = Cell::new(0);

    let first = execute(&executor, &store, "once", "checkout", &|_| {
        invocations.set(invocations.get() + 1);
        Ok(FlowResult::success(2))
    })?;
    assert!(first.is_success());
    assert_eq!(first.completed_steps(), 2);
    assert_eq!(invocations.get(), 1);
    let stored = store.get("once")?.expect("terminal flow persists");
    assert_eq!(stored.status(), FlowStatus::Done);
    assert_eq!(stored.version(), 1);

    let replay = execute(&executor, &store, "once", "checkout", &|_| {
        invocations.set(invocations.get() + 1);
        Ok(FlowResult::success(99))
    })?;
    assert_eq!(replay.completed_steps(), 2);
    assert_eq!(invocations.get(), 1);
    Ok(())
}

#[test]
fn a_resumption_is_judged_at_an_instant_and_stamped_with_the_clock() {
    let definition = FlowDefinition::new("payment").step("pay").step("ship");
    let runtime = FlowRuntime::new(definition, "worker-b");
    let delayed = || {
        let state = FlowState::new("judged", "payment", vec![], "worker-a", at(1)).suspended();
        FlowContinuation::new(state, "ship", at(1)).delayed_until(at(50), at(1))
    };
    assert!(matches!(
        runtime.loaded(Ok(Some(delayed())), at(49), at(1_000)),
        RuntimeStep::Finish(Ok(result)) if result.is_suspended()
    ));
    match runtime.loaded(Ok(Some(delayed())), at(50), at(1_000)) {
        RuntimeStep::Claim { expected, next } => {
            assert_eq!(expected.state().version(), 0);
            assert_eq!(next.state().version(), 1);
            assert_eq!(next.state().heartbeat(), at(1_000));
            assert_eq!(next.updated_at(), at(1_000));
        },
        _ => panic!("the delay is over at that instant"),
    }
}

#[test]
fn stored_results_are_read_back_without_the_time_they_took() -> CatgaResult<()> {
    let store = StateStore::default();
    let executor = FlowExecutor::new("worker-a", Duration::from_secs(1));
    for (id, result) in [
        ("done", FlowResult::success(4)),
        ("failed", FlowResult::failure(2, failure(ErrorCode::Unavailable, "declined"))),
    ] {
        let timed = result.clone().with_elapsed(Duration::from_secs(9));
        let first = execute(&executor, &store, id, "checkout", &|_| Ok(timed.clone()))?;
        assert_eq!(first.elapsed(), Duration::from_secs(9));
        let again =
            execute(&executor, &store, id, "checkout", &|_| panic!("the work ran before"))?;
        assert_eq!(again.completed_steps(), result.completed_steps());
        assert_eq!(
            again.error().map(|error| error.message()),
            result.error().map(|error| error.message())
        );
        assert_eq!(again.elapsed(), Duration::zero());
    }
    Ok(())
}

#[test]
fn executor_claims_only_stale_owners_and_preserves_lease_fencing() -> CatgaResult<()> {
    let store = StateStore::default();
    store.insert(
        FlowState::new("stale", "checkout", vec![], "old", at(0))
            .heartbeated_at(Timestamp::unix_epoch()),
    );
    store.insert(FlowState::new("active", "checkout", vec![], "other", at(1_000)));
    let executor = FlowExecutor::new("worker-b", Duration::from_secs(1));

    assert!(!store.heartbeat("stale", executor.owner(), 0, at(1_000))?);
    let stale =
        execute(&executor, &store, "stale", "checkout", &|_| Ok(FlowResult::success(1)))?;
    assert!(stale.is_success());
    let stored = store.get("stale")?.expect("stale flow survives claim");
    assert_eq!(stored.status(), FlowStatus::Done);
    assert_eq!(stored.version(), 2);

    let active =
        execute(&executor, &store, "active", "checkout", &|_| Ok(FlowResult::success(1)))
            .expect_err("a fresh foreign lease must not be stolen");
    assert_eq!(active.code(), ErrorCode::Transient);
    let conflicting_type =
        execute(&executor, &store, "active", "refund", &|_| Ok(FlowResult::success(1)))
            .expect_err("flow identities cannot change type");
    assert_eq!(conflicting_type.code(), ErrorCode::Conflict);
    Ok(())
}

#[test]
fn executor_converts_work_errors_to_terminal_failures() -> CatgaResult<()> {
    let store = StateStore::default();
    let executor = FlowExecutor::new("worker-c", Duration::from_secs(1));
    let result = execute(&executor, &store, "fails", "checkout", &|_| {
        Err(failure(ErrorCode::Transient, "downstream unavailable"))
    })?;

    assert!(!result.is_success());
    assert_eq!(result.error().map(CatgaError::code), Some(ErrorCode::Transient));
    let stored = store.get("fails")?.expect("failure persists");
    assert_eq!(stored.status(), FlowStatus::Failed);
    assert_eq!(stored.error().map(CatgaError::code), Some(ErrorCode::Transient));
    Ok(())
}

#[test]
fn recovery_sweeps_are_bounded() {
    let executor = FlowExecutor::new("worker-d", Duration::from_secs(1));
    let store = StateStore::default();
    assert!(FlowRecoveryOptions::new(0, Duration::from_secs(1)).is_err());
    assert!(FlowHeartbeatOptions::new(Duration::zero()).is_err());
    assert_eq!(
        FlowHeartbeatOptions::new(Duration::from_secs(3)).expect("a positive interval").interval,
        Duration::from_secs(3)
    );
    let options = FlowRecoveryOptions::new(2, Duration::from_secs(1)).expect("valid options");
    let mut claimed = 0;
    let mut next = executor.recover_stale(options);
    let recovered = loop {
        next = match next {
            RecoveryStep::Claim(sweep) => {
                claimed += 1;
                let state = FlowState::new(
                    &format!("flow-{claimed}"),
                    "checkout",
                    vec![],
                    "worker-d",
                    at(1_000),
                );
                store.insert(state.clone());
                sweep.claimed(Ok(Some(state)))
            },
            RecoveryStep::Run { sweep, state } => {
                let work = |_: &FlowState| Ok(FlowResult::success(1));
                let result = finish(&executor, &store, ExecutorStep::Run { state }, &work);
                sweep.recovered(result)
            },
            RecoveryStep::Finish(result) => break result.expect("the sweep ends"),
        };
    };
    assert_eq!(recovered, 2);
    assert_eq!(claimed, 2);
}

#[test]
fn interrupted_work_stores_nothing() {
    let executor = FlowExecutor::new("worker-a", Duration::from_secs(1));
    let state = || FlowState::new("supervised", "checkout", vec![], "worker-a", at(1));
    assert!(matches!(
        executor.work_supervised(state(), WorkEvent::Heartbeat(Ok(true))),
        WorkStep::Continue { state } if state.id() == "supervised"
    ));
    let unavailable = failure(ErrorCode::Unavailable, "no store");
    for (event, code, message) in [
        (WorkEvent::Cancelled, ErrorCode::Cancelled, "durable flow work was cancelled"),
        (
            WorkEvent::Heartbeat(Ok(false)),
            ErrorCode::Conflict,
            "durable flow ownership was lost while heartbeating",
        ),
        (WorkEvent::Heartbeat(Err(unavailable)), ErrorCode::Unavailable, "no store"),
    ] {
        match executor.work_supervised(state(), event) {
            WorkStep::End(ExecutorStep::Finish(Err(error))) => {
                assert_eq!(error.code(), code);
                assert_eq!(error.message(), message);
            },
            _ => panic!("interrupted work ends with its failure"),
        }
    }
    match executor.work_supervised(state(), WorkEvent::Finished(Ok(FlowResult::success(3)))) {
        WorkStep::End(ExecutorStep::StoreResult { next, .. }) => {
            assert_eq!(next.status(), FlowStatus::Done);
            assert_eq!(next.step(), 3);
        },
        _ => panic!("finished work is stored"),
    }
}

type Trace = Rc<RefCell<Vec<&'static str>>>;
type LocalAction = Rc<dyn Fn() -> CatgaResult<()>>;

fn run_local(flow: &Flow<LocalAction>, next: LocalStep) -> FlowResult {
    drive_local(flow, next, &|action, context| {
        assert!(context.is_none());
        action()
    })
}

fn drive_local<A>(
    flow: &Flow<A>,
    mut next: LocalStep,
    call: &dyn Fn(&A, Option<&A>) -> CatgaResult<()>,
) -> FlowResult {
    loop {
        next = match next {
            LocalStep::Run(run) => {
                let action = flow.action(run.next).expect("a step");
                let result = call(&action.run, action.context.as_ref());
                flow.step_finished(run, result)
            },
            LocalStep::Compensate(rollback) => {
                let index = rollback.index().expect("a step to undo");
                let action = flow.action(index).expect("a step");
                let _ = call(&action.compensate, action.context.as_ref());
                rollback.compensated()
            },
            LocalStep::Finish(result) => return result,
        };
    }
}

enum ContextCall {
    Context(Trace),
    With(fn(Trace) -> CatgaResult<()>),
}

fn call_with_context(call: &ContextCall, context: Option<&ContextCall>) -> CatgaResult<()> {
    match (call, context) {
        (ContextCall::With(run), Some(ContextCall::Context(trace))) => run(Rc::clone(trace)),
        _ => panic!("an action with a context is expected"),
    }
}

fn traced(trace: &Trace, name: &'static str, result: Option<CatgaError>) -> LocalAction {
    let trace = Rc::clone(trace);
    Rc::new(move || {
        trace.borrow_mut().push(name);
        match &result {
            Some(error) => Err(error.clone()),
            None => Ok(()),
        }
    })
}

fn reserve_inventory(trace: Trace) -> CatgaResult<()> {
    trace.borrow_mut().push("reserve");
    Ok(())
}

fn release_inventory(trace: Trace) -> CatgaResult<()> {
    trace.borrow_mut().push("release");
    Ok(())
}

fn capture_payment(trace: Trace) -> CatgaResult<()> {
    trace.borrow_mut().push("capture");
    Err(failure(ErrorCode::Unavailable, "payment declined"))
}

fn refund_payment(trace: Trace) -> CatgaResult<()> {
    trace.borrow_mut().push("refund");
    Ok(())
}

#[test]
fn compensating_flow_macro_keeps_actions_and_compensations_visible() {
    let trace = Trace::default();
    let context = || ContextCall::Context(Rc::clone(&trace));
    let flow = Flow::new("macro-context")
        .step_with(
            context(),
            ContextCall::With(reserve_inventory),
            ContextCall::With(release_inventory),
        )
        .step_with(
            context(),
            ContextCall::With(capture_payment),
            ContextCall::With(refund_payment),
        );

    let result = drive_local(&flow, flow.run(), &call_with_context);
    assert!(!result.is_success());
    assert_eq!(*trace.borrow(), ["reserve", "capture", "release"]);
}

#[derive(Clone)]
struct CheckoutTrace(Trace);

impl CheckoutTrace {
    fn reserve_inventory(self) -> CatgaResult<()> {
        reserve_inventory(self.0)
    }

    fn release_inventory(self) -> CatgaResult<()> {
        release_inventory(self.0)
    }

    fn capture_payment(self) -> CatgaResult<()> {
        capture_payment(self.0)
    }

    fn refund_payment(self) -> CatgaResult<()> {
        refund_payment(self.0)
    }
}

enum MethodCall {
    Context(CheckoutTrace),
    Method(fn(CheckoutTrace) -> CatgaResult<()>),
}

#[test]
fn compensating_flow_macro_supports_context_methods() {
    let trace = Trace::default();
    let context = || MethodCall::Context(CheckoutTrace(Rc::clone(&trace)));
    let flow = Flow::new("method-context")
        .step_with(
            context(),
            MethodCall::Method(CheckoutTrace::reserve_inventory),
            MethodCall::Method(CheckoutTrace::release_inventory),
        )
        .step_with(
            context(),
            MethodCall::Method(CheckoutTrace::capture_payment),
            MethodCall::Method(CheckoutTrace::refund_payment),
        );

    let result = drive_local(&flow, flow.run(), &|call, context| match (call, context) {
        (MethodCall::Method(run), Some(MethodCall::Context(context))) => run(context.clone()),
        _ => panic!("a method with a context is expected"),
    });
    assert!(!result.is_success());
    assert_eq!(*trace.borrow(), ["reserve", "capture", "release"]);
}

#[test]
fn local_flow_clones_context_for_forward_and_compensation_actions() {
    let trace = Trace::default();
    let flow = Flow::new("context")
        .step_with(
            ContextCall::Context(Rc::clone(&trace)),
            ContextCall::With(|trace| {
                trace.borrow_mut().push("reserve");
                Ok(())
            }),
            ContextCall::With(|trace| {
                trace.borrow_mut().push("release");
                Ok(())
            }),
        )
        .step_with(
            ContextCall::Context(Rc::clone(&trace)),
            ContextCall::With(|trace| {
                trace.borrow_mut().push("charge");
                Err(failure(ErrorCode::Unavailable, "payment declined"))
            }),
            ContextCall::With(|trace| {
                trace.borrow_mut().push("refund");
                Ok(())
            }),
        );

    let result = drive_local(&flow, flow.run(), &call_with_context);
    assert!(!result.is_success());
    assert_eq!(*trace.borrow(), ["reserve", "charge", "release"]);
    assert_eq!(result.completed_steps(), 1);
    assert_eq!(result.error().expect("the failure").message(), "payment declined");
}

#[test]
fn a_local_rollback_undoes_the_newest_steps_first_and_is_bounded() {
    let trace = Trace::default();
    let mut flow = Flow::new("rollback");
    for (run, undo) in [("a", "undo-a"), ("b", "undo-b"), ("c", "undo-c")] {
        flow = flow.step(traced(&trace, run, None), traced(&trace, undo, None));
    }
    let broken = failure(ErrorCode::Internal, "broken");
    let flow = flow.step(traced(&trace, "d", Some(broken)), traced(&trace, "undo-d", None));
    let result = run_local(&flow, flow.run_from(1, 1));
    assert!(!result.is_success());
    assert_eq!(*trace.borrow(), ["b", "c", "d", "undo-c"]);
    assert_eq!(local_cancellation().code(), ErrorCode::Cancelled);
    let timed = FlowResult::success(3).with_elapsed(Duration::from_millis(20));
    assert_eq!(timed.elapsed(), Duration::from_millis(20));
}

#[test]
fn reloads_raise_the_version_of_one_definition() -> CatgaResult<()> {
    let registry = FlowRegistry::new()
        .register(FlowDefinition::new("checkout").step("a"))?
        .register(FlowDefinition::new("refund").step("a"))?;
    assert!(registry.contains("checkout"));
    let replaced = registry.clone().register(FlowDefinition::new("checkout").step("b"))?;
    assert!(replaced.get("checkout").expect("a definition").definition().has_step("b"));
    assert_eq!(replaced.get("checkout").expect("a definition").version(), 0);
    assert!(FlowRegistry::new().register(FlowDefinition::new("").step("a")).is_err());
    let (registry, reloaded) =
        registry.reload(FlowDefinition::new("checkout").step("a").step("b"), at(9))?;
    assert_eq!(reloaded.flow_name(), "checkout");
    assert_eq!(reloaded.new_version(), reloaded.old_version() + 1);
    assert_eq!(reloaded.reloaded_at(), at(9));
    let current = registry.get("checkout").expect("a definition");
    assert_eq!(current.version(), reloaded.new_version());
    assert!(current.definition().has_step("b"));
    assert_eq!(registry.get("refund").expect("a definition").version(), reloaded.old_version());
    let mut names = registry.names();
    names.sort();
    assert_eq!(names, ["checkout", "refund"]);
    let runtime = RegistryFlowRuntime::new("worker");
    assert_eq!(
        runtime.runtime_for_type(&registry, "checkout")?.definition().name(),
        "checkout"
    );
    assert_eq!(
        runtime
            .runtime_for_type(&registry, "missing")
            .expect_err("no such definition")
            .code(),
        ErrorCode::NotFound
    );
    let stored = |flow_type: &str| {
        FlowContinuation::new(
            FlowState::new("flow", flow_type, vec![], "worker", at(1)),
            "a",
            at(1),
        )
    };
    let found = runtime.runtime_for_id(&registry, Ok(Some(stored("refund"))))?;
    assert_eq!(found.definition().name(), "refund");
    assert_eq!(found.owner(), "worker");
    assert!(runtime.runtime_for_id(&registry, Ok(Some(stored("missing")))).is_err());
    assert_eq!(
        runtime.runtime_for_id(&registry, Ok(None)).expect_err("no such flow").message(),
        "flow does not exist"
    );
    let (registry, removed) = registry.unregister("refund");
    assert!(removed);
    assert!(!registry.contains("refund"));
    Ok(())
}

#[test]
fn version_managers_count_each_flow() -> CatgaResult<()> {
    let versions = FlowVersionManager::new();
    let before = versions.current("flow");
    let (versions, next) = versions.increment("flow")?;
    assert_eq!(next, before + 1);
    assert_eq!(versions.current("flow"), next);
    assert_eq!(versions.current("other"), before);
    let versions = versions.set("flow", 41)?;
    let (versions, next) = versions.increment("flow")?;
    assert_eq!(next, 42);
    let versions = versions.set("flow", u64::MAX)?;
    assert_eq!(
        versions.clone().increment("flow").expect_err("the last version").code(),
        ErrorCode::Conflict
    );
    assert!(versions.set("", 1).is_err());
    Ok(())
}

#[test]
fn definitions_know_the_order_of_their_steps() {
    let definition = FlowDefinition::new("order")
        .step("first")
        .step_with_tag("second", "slow")
        .step_with_compensation("third");
    assert_eq!(definition.first_step_name(), Some("first"));
    assert_eq!(definition.next_step_name("first"), Some("second"));
    assert_eq!(definition.next_step_name("third"), None);
    assert_eq!(definition.step_tag("second"), Some("slow"));
    assert!(definition.has_compensation("third"));
    assert!(!definition.has_compensation("first"));
    assert_eq!(definition.handler_index("second").expect("a step"), 1);
    assert!(definition.handler_index("missing").is_err());
}
