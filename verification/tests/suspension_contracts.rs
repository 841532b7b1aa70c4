//! Durable waits: validation and bounded results.

use catga_flow::runtime_wait::{evaluate_wait, is_stale, WaitEvaluation};
use catga_flow::{
    CatgaError, Duration, ErrorCode, FlowChildLaunchState, FlowContinuation, FlowQuery, FlowState,
    FlowStatus, FlowSummary, FlowTagPolicy, MemoryFlowScheduler, Timestamp, WaitCondition,
    WaitPolicy, MAX_FLOW_QUERY_RESULTS, MAX_FLOW_QUERY_SCAN, MAX_WAIT_CHILDREN,
    MAX_WAIT_RESULT_BYTES,
};

fn at(seconds: u64) -> Timestamp {
    Timestamp::unix_epoch().checked_add(Duration::from_secs(seconds)).expect("time in range")
}

fn names(names: &[&str]) -> Vec<String> {
    names.iter().map(|name| (*name).to_owned()).collect()
}

#[test]
fn child_waits_accept_only_persisted_children_and_deduplicate_results() {
    let wait = WaitCondition::for_children(
        "parent/42",
        WaitPolicy::All,
        names(&["charge", "reserve"]),
        Timestamp::unix_epoch(),
        Duration::from_secs(30),
    )
    .expect("distinct child identities are valid");
    assert!(wait.accepts_child("charge"));
    assert!(!wait.accepts_child("unknown"));

    let unknown = wait.record_success("unknown", vec![1_u8]);
    assert_eq!(unknown.completed_count(), 0);
    let completed = wait.record_success("charge", vec![2_u8]);
    assert_eq!(completed.completed_count(), 1);
    assert_eq!(completed.results()[0].payload(), Some(&[2_u8][..]));
    assert_eq!(completed.results()[0].shared_payload(), Some(vec![2_u8]));
    let duplicate = completed.record_failure(
        "charge",
        CatgaError::new(ErrorCode::Transient, "duplicate result must be ignored"),
    );
    assert_eq!(duplicate.completed_count(), 1);
    assert!(duplicate.results()[0].is_success());
    assert!(completed.validate().is_ok());
}

#[test]
fn waits_reject_invalid_child_sets_and_oversized_results_without_retaining_them() {
    let duplicate = WaitCondition::for_children(
        "parent/duplicate",
        WaitPolicy::Any,
        names(&["child", "child"]),
        Timestamp::unix_epoch(),
        Duration::from_secs(1),
    )
    .expect_err("child launch identities must be unique");
    assert_eq!(duplicate.code(), ErrorCode::Validation);
    let empty = WaitCondition::for_children(
        "parent/empty",
        WaitPolicy::Any,
        Vec::new(),
        Timestamp::unix_epoch(),
        Duration::from_secs(1),
    )
    .expect_err("a child wait needs at least one child");
    assert_eq!(empty.code(), ErrorCode::Validation);
    let unnamed = WaitCondition::for_children(
        "parent/unnamed",
        WaitPolicy::Any,
        names(&["child", ""]),
        Timestamp::unix_epoch(),
        Duration::from_secs(1),
    )
    .expect_err("child launch identities must not be empty");
    assert_eq!(unnamed.code(), ErrorCode::Validation);

    let external = WaitCondition::new(
        "external",
        WaitPolicy::Any,
        1,
        Timestamp::unix_epoch(),
        Duration::from_secs(1),
    );
    assert!(external.accepts_child("any-external-child"));
    assert!(external.accepts_payload_len(MAX_WAIT_RESULT_BYTES));
    assert!(!external.accepts_payload_len(MAX_WAIT_RESULT_BYTES.saturating_add(1)));
    let too_large =
        external.record_success("any-external-child", vec![0; MAX_WAIT_RESULT_BYTES + 1]);
    assert_eq!(too_large.completed_count(), 0);
    assert!(!external.is_expired_at(Timestamp::unix_epoch()));
    assert!(external.is_expired_at(at(1)));
}

#[test]
fn child_waits_are_bounded() {
    let children: Vec<String> = (0..=MAX_WAIT_CHILDREN).map(|i| format!("child-{i}")).collect();
    assert_eq!(
        WaitCondition::for_children(
            "parent",
            WaitPolicy::All,
            children.clone(),
            at(0),
            Duration::from_secs(1),
        )
        .expect_err("too many children")
        .code(),
        ErrorCode::Validation
    );
    assert!(WaitCondition::for_children(
        "parent",
        WaitPolicy::All,
        children[1..].to_vec(),
        at(0),
        Duration::from_secs(1),
    )
    .is_ok());
}

#[test]
fn a_child_claim_belongs_to_one_owner_until_it_expires() {
    let wait = WaitCondition::for_children(
        "parent",
        WaitPolicy::All,
        names(&["a", "b"]),
        at(0),
        Duration::from_secs(60),
    )
    .expect("valid children");
    let (child, claimed) =
        wait.claim_next_child("node-a", at(1), Duration::from_secs(5)).expect("a pending child");
    assert_eq!(child, "a");
    match claimed.child_launches()[0].state() {
        FlowChildLaunchState::Claimed { owner, expires_at } => {
            assert_eq!(owner, "node-a");
            assert_eq!(*expires_at, at(6));
        },
        other => panic!("unexpected launch state {other:?}"),
    }
    let (second, both) =
        claimed.claim_next_child("node-b", at(2), Duration::from_secs(5)).expect("a second child");
    assert_eq!(second, "b");
    assert!(both.claim_next_child("node-c", at(3), Duration::from_secs(5)).is_none());
    let (taken, _) =
        both.claim_next_child("node-c", at(6), Duration::from_secs(5)).expect("an expired claim");
    assert_eq!(taken, "a");
    assert!(both.mark_child_launched("a", "node-b").is_none());
    let launched = both.mark_child_launched("a", "node-a").expect("own claim");
    assert!(matches!(launched.child_launches()[0].state(), FlowChildLaunchState::Launched));
    let released = both.release_child_claim("b", "node-b").expect("own claim");
    assert!(matches!(released.child_launches()[1].state(), FlowChildLaunchState::Pending));
    assert!(both.release_child_claim("b", "node-a").is_none());
}

#[test]
fn waits_are_evaluated_by_policy_failures_and_deadline() {
    let wait = |policy| {
        WaitCondition::new("wait", policy, 2, at(0), Duration::from_secs(10))
    };
    assert!(matches!(evaluate_wait(&wait(WaitPolicy::All), at(1)), WaitEvaluation::Pending));
    let one = wait(WaitPolicy::All).record_success("a", vec![]);
    assert!(matches!(evaluate_wait(&one, at(1)), WaitEvaluation::Pending));
    let all = one.record_success("b", vec![]);
    assert!(matches!(evaluate_wait(&all, at(1)), WaitEvaluation::Ready));
    let any = wait(WaitPolicy::Any).record_success("a", vec![]);
    assert!(matches!(evaluate_wait(&any, at(1)), WaitEvaluation::Ready));
    let failed = wait(WaitPolicy::All)
        .record_failure("a", CatgaError::new(ErrorCode::Internal, "child failed"));
    match evaluate_wait(&failed, at(1)) {
        WaitEvaluation::Failed(error) => assert_eq!(error.message(), "child failed"),
        other => panic!("unexpected evaluation {other:?}"),
    }
    match evaluate_wait(&wait(WaitPolicy::All), at(10)) {
        WaitEvaluation::Failed(error) => assert_eq!(error.code(), ErrorCode::Timeout),
        other => panic!("unexpected evaluation {other:?}"),
    }
    assert!(is_stale(at(0), at(5), Duration::from_secs(5)));
    assert!(!is_stale(at(0), at(4), Duration::from_secs(5)));
    assert!(!is_stale(at(5), at(0), Duration::zero()));
}

#[test]
fn queries_select_by_status_type_and_time() {
    let summary = FlowSummary::new("flow", "payment", FlowStatus::Suspended, 3, at(5));
    let query = FlowQuery::new(10, 100).expect("valid limits");
    assert!(query.matches_summary(&summary));
    let query = FlowQuery::new(10, 100).expect("valid limits").with_status(FlowStatus::Done);
    assert!(!query.matches_summary(&summary));
    let query = FlowQuery::new(10, 100).expect("valid limits").with_flow_type("payment");
    assert!(query.matches_summary(&summary));
    let query = FlowQuery::new(10, 100).expect("valid limits").with_flow_type("order");
    assert!(!query.matches_summary(&summary));
    let query = FlowQuery::new(10, 100)
        .expect("valid limits")
        .created_between(at(5), at(6))
        .expect("valid range");
    assert!(query.matches_summary(&summary));
    assert!(FlowQuery::new(10, 100)
        .expect("valid limits")
        .created_between(at(6), at(5))
        .is_err());
    assert!(FlowQuery::new(0, 100).is_err());
    assert!(FlowQuery::new(MAX_FLOW_QUERY_RESULTS + 1, MAX_FLOW_QUERY_SCAN).is_err());
    assert!(FlowQuery::new(1, MAX_FLOW_QUERY_SCAN + 1).is_err());
    let query = FlowQuery::new(MAX_FLOW_QUERY_RESULTS, MAX_FLOW_QUERY_SCAN).expect("the limits");
    assert_eq!(query.max_results(), 1000);
    assert_eq!(query.max_scan(), 10000);
}

#[test]
fn summaries_are_taken_from_continuations() {
    let continuation = FlowContinuation::new(
        FlowState::new("flow", "payment", vec![], "node-a", at(1)),
        "charge",
        at(2),
    );
    let summary = FlowSummary::from_continuation(&continuation);
    assert_eq!(summary.id(), "flow");
    assert_eq!(summary.flow_type(), "payment");
    assert_eq!(summary.status(), FlowStatus::Running);
    assert_eq!(summary.version(), 0);
    assert_eq!(summary.created_at(), at(2));
    for (query, expected) in [
        (FlowQuery::new(1, 1).expect("valid limits").with_status(FlowStatus::Running), true),
        (FlowQuery::new(1, 1).expect("valid limits").with_status(FlowStatus::Done), false),
        (FlowQuery::new(1, 1).expect("valid limits").with_flow_type("payment"), true),
    ] {
        assert_eq!(query.matches(&continuation), expected);
        assert_eq!(query.matches_summary(&summary), expected);
    }
    assert_eq!(summary.with_updated_at(at(9)).updated_at(), at(9));
}

#[test]
fn scheduled_resumes_come_out_once_when_they_are_due() {
    let mut scheduler = MemoryFlowScheduler::new();
    let first = scheduler.schedule_resume("flow-a", "step-1", at(5));
    let second = scheduler.schedule_resume("flow-b", "step-2", at(10));
    assert_eq!(first, "flow-resume-0");
    assert_eq!(second, "flow-resume-1");
    assert!(scheduler.take_due(at(4)).is_empty());
    let due = scheduler.take_due(at(5));
    assert_eq!(due.len(), 1);
    assert_eq!(due[0].schedule_id(), "flow-resume-0");
    assert_eq!(due[0].flow_id(), "flow-a");
    assert_eq!(due[0].state_id(), "step-1");
    assert_eq!(due[0].due_at(), at(5));
    assert!(scheduler.take_due(at(5)).is_empty());
    assert!(!scheduler.cancel_resume(&first));
    assert!(scheduler.cancel_resume(&second));
    assert!(scheduler.take_due(at(100)).is_empty());
}

#[test]
fn all_due_resumes_come_out_together() {
    let mut scheduler = MemoryFlowScheduler::new();
    for (flow, due) in [("late", 9), ("early", 1), ("middle", 4)] {
        scheduler.schedule_resume(flow, "step", at(due));
    }
    let mut flows: Vec<String> =
        scheduler.take_due(at(4)).iter().map(|due| due.flow_id().to_owned()).collect();
    flows.sort();
    assert_eq!(flows, ["early", "middle"]);
    assert_eq!(scheduler.take_due(at(9))[0].flow_id(), "late");
}

#[test]
fn tag_policies_fall_back_to_their_defaults() {
    let policy = FlowTagPolicy::new(Duration::from_secs(10), 3)
        .with_timeout("slow", Duration::from_secs(60))
        .with_retries("slow", 5)
        .with_persist("durable");
    assert_eq!(policy.timeout_for("slow"), Duration::from_secs(60));
    assert_eq!(policy.timeout_for("other"), Duration::from_secs(10));
    assert_eq!(policy.retries_for("slow"), 5);
    assert_eq!(policy.retries_for("other"), 3);
    assert!(policy.should_persist("durable"));
    assert!(!policy.should_persist("slow"));
}

#[test]
fn blank_identities_are_rejected() {
    let blank = WaitCondition::new(" \t", WaitPolicy::Any, 1, at(0), Duration::from_secs(1));
    let named = WaitCondition::new("id", WaitPolicy::Any, 1, at(0), Duration::from_secs(1));
    assert!(named.validate().is_ok());
    assert!(catga_flow::text::is_blank(" \t"));
    assert!(!catga_flow::text::is_blank(" x"));
    assert!(catga_flow::text::is_blank("\u{85}\u{A0}\u{2003}\u{3000}"));
    assert!(!catga_flow::text::is_blank("\u{200B}"));
    assert_eq!(blank.correlation_id(), " \t");
}
