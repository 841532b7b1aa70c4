//! State machines: transitions, guards, initial states and stored instances.

use std::cell::RefCell;
use std::rc::Rc;

use catga_flow::state_machine_definition::{HandleStep, InitialState, StateAction};
use catga_flow::state_machine_execution::{
    event_handled, initial_created, instance_created, instance_loaded, instance_updated,
    validate_fallback_instance_id, validate_instance_id, EventRoute, Instance, InstanceStep,
};
use catga_flow::{
    CatgaError, CatgaResult, Duration, ErrorCode, StateMachine, StateMachineEventRouter,
    StateMachineResult, StateMachineSnapshot, StateMachineState, Timestamp,
};

const NEW: u64 = 0;
const PAID: u64 = 1;
const SHIPPED: u64 = 2;

const PAY: u64 = 10;
const SHIP: u64 = 11;
const NOTE: u64 = 12;
const AUDIT: u64 = 100;

fn at(seconds: u64) -> Timestamp {
    Timestamp::unix_epoch().checked_add(Duration::from_secs(seconds)).expect("time in range")
}

#[derive(Clone, Debug, PartialEq)]
struct Order {
    state: u64,
    paid: u32,
}

impl StateMachineState<u64> for Order {
    fn current_state(&self) -> &u64 {
        &self.state
    }

    fn set_current_state(&mut self, state: u64) {
        self.state = state;
    }
}

type Log = Rc<RefCell<Vec<&'static str>>>;

#[derive(Clone)]
enum Call {
    Do(Rc<dyn Fn(&mut Order) -> CatgaResult<()>>),
    Guard(Rc<dyn Fn(&Order) -> CatgaResult<bool>>),
    Make(Order),
    Extract,
}

fn logging(log: &Log, entry: &'static str) -> Call {
    let log = Rc::clone(log);
    Call::Do(Rc::new(move |_| {
        log.borrow_mut().push(entry);
        Ok(())
    }))
}

fn handle(
    machine: &StateMachine<Call>,
    order: &mut Order,
    event: u64,
    categories: &[u64],
) -> CatgaResult<StateMachineResult<u64>> {
    let mut next = machine.handle(*order.current_state(), event, categories);
    let run = |call: Option<&StateAction<Call>>, order: &mut Order| match call {
        Some(StateAction::Sync(Call::Do(run)) | StateAction::Async(Call::Do(run))) => run(order),
        _ => Ok(()),
    };
    loop {
        next = match next {
            HandleStep::CheckGuard(plan) => {
                let guard = machine.transition(plan).and_then(|found| found.guard.as_ref());
                let result = match guard {
                    Some(Call::Guard(guard)) => guard(order),
                    _ => Ok(true),
                };
                machine.guard_evaluated(plan, event, categories, result)
            },
            HandleStep::RunExit(plan) => {
                let result = run(machine.on_exit(plan.previous), order);
                machine.exit_finished(plan, result)
            },
            HandleStep::RunAction(plan) => {
                let action = machine.transition(plan).and_then(|found| found.action.as_ref());
                let result = run(action, order);
                machine.action_finished(plan, result, *order.current_state())
            },
            HandleStep::SetState { plan, target } => {
                order.set_current_state(target);
                machine.state_set(plan, target)
            },
            HandleStep::RunEnter { plan, current } => {
                let result = run(machine.on_enter(current), order);
                machine.enter_finished(plan, result, *order.current_state())
            },
            HandleStep::Finish(result) => return result,
        };
    }
}

fn machine(log: &Log) -> StateMachine<Call> {
    StateMachine::builder(NEW)
        .state(NEW)
        .on_exit(logging(log, "leave-new"))
        .on(PAY)
        .when(Call::Guard(Rc::new(|order| Ok(order.paid >= 10))))
        .execute(logging(log, "pay"))
        .transition_to(PAID)
        .on(NOTE)
        .execute(logging(log, "note"))
        .finish()
        .done()
        .state(PAID)
        .on_enter(logging(log, "enter-paid"))
        .on(SHIP)
        .transition_to(SHIPPED)
        .on_category(AUDIT, Call::Extract)
        .execute_async(logging(log, "audit"))
        .finish()
        .done()
        .build()
}

#[test]
fn a_transition_runs_exit_action_and_entry_in_order() -> CatgaResult<()> {
    let log = Log::default();
    let machine = machine(&log);
    let mut order = Order { state: NEW, paid: 10 };
    let result = handle(&machine, &mut order, PAY, &[])?;
    assert!(result.handled());
    assert!(result.transitioned());
    assert_eq!(result.previous(), NEW);
    assert_eq!(result.current(), PAID);
    assert_eq!(order.state, PAID);
    assert_eq!(*log.borrow(), ["leave-new", "pay", "enter-paid"]);
    Ok(())
}

#[test]
fn a_guard_that_does_not_hold_leaves_the_event_unhandled() -> CatgaResult<()> {
    let log = Log::default();
    let machine = machine(&log);
    let mut order = Order { state: NEW, paid: 9 };
    let result = handle(&machine, &mut order, PAY, &[])?;
    assert!(!result.handled());
    assert_eq!(order.state, NEW);
    assert!(log.borrow().is_empty());
    let unknown = handle(&machine, &mut order, SHIP, &[])?;
    assert!(!unknown.handled());
    Ok(())
}

#[test]
fn a_transition_without_a_target_stays_in_its_state() -> CatgaResult<()> {
    let log = Log::default();
    let machine = machine(&log);
    let mut order = Order { state: NEW, paid: 0 };
    let result = handle(&machine, &mut order, NOTE, &[])?;
    assert!(result.handled());
    assert!(!result.transitioned());
    assert_eq!(order.state, NEW);
    assert!(log.borrow().contains(&"note"));
    Ok(())
}

#[test]
fn exact_events_go_before_categories() -> CatgaResult<()> {
    let log = Log::default();
    let machine = machine(&log);
    let mut order = Order { state: PAID, paid: 10 };
    let audited = handle(&machine, &mut order, 77, &[AUDIT])?;
    assert!(audited.handled());
    assert_eq!(*log.borrow(), ["audit"]);
    let shipped = handle(&machine, &mut order, SHIP, &[AUDIT])?;
    assert_eq!(shipped.current(), SHIPPED);
    assert_eq!(*log.borrow(), ["audit"]);
    Ok(())
}

#[test]
fn actions_remember_how_they_are_called() {
    let log = Log::default();
    let machine = StateMachine::builder(NEW)
        .state(NEW)
        .on_enter_async(logging(&log, "enter"))
        .on_exit_async(logging(&log, "leave"))
        .done()
        .state(PAID)
        .on_enter(logging(&log, "enter"))
        .on_exit(logging(&log, "leave"))
        .on_category(AUDIT, Call::Extract)
        .when(Call::Guard(Rc::new(|_| Ok(true))))
        .execute(logging(&log, "audit"))
        .transition_to(NEW)
        .done()
        .build();
    assert!(matches!(machine.on_enter(NEW), Some(StateAction::Async(_))));
    assert!(matches!(machine.on_exit(NEW), Some(StateAction::Async(_))));
    assert!(matches!(machine.on_enter(PAID), Some(StateAction::Sync(_))));
    assert!(matches!(machine.on_exit(PAID), Some(StateAction::Sync(_))));
    let mut order = Order { state: PAID, paid: 0 };
    let result = handle(&machine, &mut order, NOTE, &[AUDIT]).expect("the category matches");
    assert!(result.handled());
    assert_eq!(order.state, NEW);
    assert_eq!(*log.borrow(), ["leave", "audit", "enter"]);
}

#[test]
fn a_failing_action_ends_the_handling() {
    let broken = Call::Do(Rc::new(|_| Err(CatgaError::new(ErrorCode::Internal, "broken"))));
    let machine = StateMachine::builder(NEW)
        .state(NEW)
        .on(PAY)
        .execute(broken)
        .transition_to(PAID)
        .done()
        .build();
    let mut order = Order { state: NEW, paid: 0 };
    let error = handle(&machine, &mut order, PAY, &[]).expect_err("the action fails");
    assert_eq!(error.message(), "broken");
    assert_eq!(order.state, NEW);
}

#[test]
fn initial_states_come_from_the_event_or_the_default() {
    let machine: StateMachine<Call> = StateMachine::builder(NEW)
        .starts_with(PAY, PAID, Call::Make(Order { state: PAID, paid: 1 }))
        .build();
    assert_eq!(machine.initial(), NEW);
    assert!(matches!(
        machine.initial_for(PAY),
        InitialState::FromEvent { initial_state: PAID, .. }
    ));
    assert!(matches!(machine.initial_for(SHIP), InitialState::Missing));
    let machine: StateMachine<Call> = StateMachine::builder(NEW)
        .default_initial_state(Call::Make(Order { state: NEW, paid: 0 }))
        .create_instance_from(SHIP, Call::Make(Order { state: NEW, paid: 2 }))
        .build();
    assert!(matches!(
        machine.initial_for(NOTE),
        InitialState::Default { initial_state: NEW, factory: Call::Make(order) }
            if order.paid == 0
    ));
    assert!(matches!(
        machine.initial_for(SHIP),
        InitialState::FromEvent { initial_state: NEW, factory: Call::Make(order) }
            if order.paid == 2
    ));
}

fn handled() -> StateMachineResult<u64> {
    StateMachineResult::new(NEW, PAID, true)
}

#[test]
fn a_new_instance_is_stored_when_its_event_was_handled() {
    let step = instance_loaded::<Order, u64>("order-1", Ok(None));
    let InstanceStep::CreateInitial { instance_id } = step else { panic!("a new instance") };
    assert_eq!(instance_id, "order-1");
    let step = initial_created::<Order, u64>(instance_id, Ok(true));
    let InstanceStep::Handle { instance } = step else { panic!("an instance to handle") };
    assert!(matches!(&instance, Instance::New { instance_id } if instance_id == "order-1"));
    let step = event_handled(instance, Ok(handled()), Order { state: PAID, paid: 3 }, at(5));
    let InstanceStep::Create { snapshot, result } = step else { panic!("a new record") };
    assert_eq!(snapshot.instance_id(), "order-1");
    assert_eq!(snapshot.version(), 0);
    assert_eq!(snapshot.state().paid, 3);
    assert_eq!(snapshot.created_at(), at(5));
    assert!(matches!(
        instance_created::<Order, u64>("order-1", result, Ok(false)),
        InstanceStep::Finish(Err(error)) if error.code() == ErrorCode::Conflict
    ));
    assert!(matches!(
        instance_created::<Order, u64>("order-1", handled(), Ok(true)),
        InstanceStep::Finish(Ok(result)) if result.handled()
    ));
}

#[test]
fn a_stored_instance_is_replaced_only_when_its_event_was_handled() {
    let stored = || StateMachineSnapshot::new("order-2", Order { state: NEW, paid: 1 }, at(1));
    let step = instance_loaded::<Order, u64>("order-2", Ok(Some(stored())));
    let InstanceStep::Handle { instance } = step else { panic!("an instance to handle") };
    let step = event_handled(instance, Ok(handled()), Order { state: PAID, paid: 1 }, at(2));
    let InstanceStep::Update { expected_version, next, result } = step else {
        panic!("a replacement")
    };
    assert_eq!(expected_version, 0);
    assert_eq!(next.version(), 1);
    assert_eq!(next.updated_at(), at(2));
    assert!(matches!(
        instance_updated::<Order, u64>("order-2", result, Ok(false)),
        InstanceStep::Finish(Err(error)) if error.code() == ErrorCode::Conflict
    ));
    let unhandled = StateMachineResult::new(NEW, NEW, false);
    let step = event_handled(
        Instance::Existing { snapshot: stored() },
        Ok(unhandled),
        Order { state: NEW, paid: 1 },
        at(2),
    );
    assert!(matches!(step, InstanceStep::Finish(Ok(result)) if !result.handled()));
    let lost: InstanceStep<Order, u64> =
        instance_loaded("order-2", Err(CatgaError::new(ErrorCode::Unavailable, "no store")));
    assert!(matches!(
        lost,
        InstanceStep::Finish(Err(error)) if error.message() == "no store"
    ));
}

#[test]
fn events_are_routed_by_type_and_then_by_the_fallback() {
    let router = StateMachineEventRouter::new().for_event(PAY, 'p');
    assert!(matches!(router.route(PAY, "Pay").expect("a route"), EventRoute::Typed('p')));
    assert_eq!(
        router.route(SHIP, "Ship").expect_err("no route").code(),
        ErrorCode::Unsupported
    );
    let router = router.with_fallback('f');
    assert!(matches!(router.route(SHIP, "Ship").expect("a route"), EventRoute::Fallback('f')));
    assert!(validate_instance_id("order", "Pay").is_ok());
    assert_eq!(
        validate_instance_id(" \t", "Pay").expect_err("a blank identity").code(),
        ErrorCode::Validation
    );
    assert!(validate_fallback_instance_id("order").is_ok());
    assert_eq!(
        validate_fallback_instance_id("").expect_err("a blank identity").code(),
        ErrorCode::Validation
    );
}
