//! Durable records: what is written is read back, and what is damaged is rejected.

use catga_flow::record::{read_exact, Record};
use catga_flow::state_machine_model::read_snapshot_frame;
use catga_flow::wire::{
    decode_duration, decode_error, decode_error_code, decode_time, encode_duration, encode_error,
    encode_error_code, encode_time, TimeWire,
};
use catga_flow::{
    decode_continuation, decode_state_machine_snapshot, encode_continuation,
    encode_state_machine_snapshot, flow_timeout_deadline_unix_ms, CatgaError, CatgaResult,
    CheckpointFrame, CheckpointLevel, CheckpointWork, Duration, ErrorCode, FlowContinuation,
    FlowState, ParallelBranchProgress, StateMachineSnapshot, Timestamp, WaitCondition, WaitPolicy,
    MAX_CHECKPOINT_PATH_DEPTH, MAX_CHECKPOINT_STATE_BYTES, MAX_FLOW_COMPENSATIONS,
    MAX_FLOW_DATA_BYTES,
};

fn at(seconds: u64) -> Timestamp {
    Timestamp::unix_epoch().checked_add(Duration::from_secs(seconds)).expect("time in range")
}

fn decode_work(work: CheckpointWork) -> CheckpointWork {
    let mut bytes = Vec::new();
    assert!(work.write(&mut bytes), "encode checkpoint work");
    read_exact(&bytes).expect("decode checkpoint work")
}

#[test]
fn checkpoint_work_round_trips_every_persisted_cursor_shape() {
    assert!(matches!(decode_work(CheckpointWork::Branch), CheckpointWork::Branch));

    assert!(matches!(
        decode_work(CheckpointWork::ForEach { next_index: 2, total: 5 }),
        CheckpointWork::ForEach { next_index: 2, total: 5 }
    ));

    assert!(matches!(
        decode_work(CheckpointWork::ReplayableForEach {
            next_index: 1,
            items: vec![b"first".to_vec(), b"second".to_vec()],
        }),
        CheckpointWork::ReplayableForEach { next_index: 1, items }
            if items == [b"first".to_vec(), b"second".to_vec()]
    ));

    assert!(matches!(
        decode_work(CheckpointWork::Parallel { states: vec![Some(b"done".to_vec()), None] }),
        CheckpointWork::Parallel { states } if states == [Some(b"done".to_vec()), None]
    ));

    assert!(matches!(
        decode_work(CheckpointWork::WhenAny { winner: 3, state: b"winner".to_vec() }),
        CheckpointWork::WhenAny { winner: 3, state } if state == b"winner"
    ));

    assert!(matches!(
        decode_work(CheckpointWork::ParallelBranches {
            branches: vec![
                Some(ParallelBranchProgress::Completed { state: b"complete".to_vec() }),
                Some(ParallelBranchProgress::InProgress {
                    step_index: 4,
                    checkpoint_frame: true,
                    payload: b"resume".to_vec(),
                }),
                None,
            ],
        }),
        CheckpointWork::ParallelBranches { branches }
            if matches!(
                &branches[..],
                [
                    Some(ParallelBranchProgress::Completed { state }),
                    Some(ParallelBranchProgress::InProgress {
                        step_index: 4,
                        checkpoint_frame: true,
                        payload,
                    }),
                    None,
                ] if state == b"complete" && payload == b"resume"
            )
    ));
}

#[test]
fn checkpoint_frame_round_trips_nested_path_state_and_cursor() {
    let levels = [
        CheckpointLevel { branch: 1, next_step: 2 },
        CheckpointLevel { branch: 3, next_step: 4 },
    ];
    let encoded = CheckpointFrame::encode(
        &levels,
        b"application state".to_vec(),
        CheckpointWork::ParallelBranches {
            branches: vec![Some(ParallelBranchProgress::InProgress {
                step_index: 7,
                checkpoint_frame: false,
                payload: b"nested state".to_vec(),
            })],
        },
    )
    .expect("encode checkpoint frame");

    let decoded = CheckpointFrame::decode(&encoded)
        .expect("decode checkpoint frame")
        .expect("checkpoint magic must produce a frame");
    assert_eq!(decoded.levels.len(), 2);
    assert_eq!(decoded.levels[0].branch, 1);
    assert_eq!(decoded.levels[0].next_step, 2);
    assert_eq!(decoded.levels[1].branch, 3);
    assert_eq!(decoded.levels[1].next_step, 4);
    assert_eq!(decoded.state, b"application state");
    assert!(matches!(
        decoded.work,
        CheckpointWork::ParallelBranches { branches }
            if matches!(
                &branches[..],
                [Some(ParallelBranchProgress::InProgress {
                    step_index: 7,
                    checkpoint_frame: false,
                    payload,
                })] if payload == b"nested state"
            )
    ));
}

#[test]
fn checkpoint_frame_accepts_legacy_branch_frames_without_a_work_cursor() {
    let mut legacy = b"CDF1".to_vec();
    legacy.extend([1, 0]);
    legacy.extend(0_u32.to_be_bytes());

    let decoded = CheckpointFrame::decode(&legacy)
        .expect("decode legacy frame")
        .expect("checkpoint magic must produce a frame");
    assert!(decoded.levels.is_empty());
    assert!(decoded.state.is_empty());
    assert!(matches!(decoded.work, CheckpointWork::Branch));
}

#[test]
fn checkpoint_frame_rejects_size_version_depth_and_cursor_corruption() {
    assert!(CheckpointFrame::decode(b"application state")
        .expect("non-frame payload is application state")
        .is_none());

    for payload in [
        b"CDF1".as_slice(),
        b"CDF1\x02\0\0\0\0\0".as_slice(),
        b"CDF1\x01!\0\0\0\0".as_slice(),
        b"CDF1\x01\0\0\0\0\x01".as_slice(),
    ] {
        let error = match CheckpointFrame::decode(payload) {
            Err(error) => error,
            Ok(_) => panic!("corrupt checkpoint unexpectedly decoded"),
        };
        assert_eq!(error.code(), ErrorCode::Validation);
    }

    let valid = CheckpointFrame::encode(&[], b"state".to_vec(), CheckpointWork::Branch)
        .expect("encode frame");
    let mut invalid_work_length = valid.clone();
    let work_length = invalid_work_length.len() - 5;
    invalid_work_length[work_length..work_length + 4].copy_from_slice(&99_u32.to_be_bytes());
    assert_eq!(
        match CheckpointFrame::decode(&invalid_work_length) {
            Err(error) => error.code(),
            Ok(_) => panic!("declared work beyond frame unexpectedly decoded"),
        },
        ErrorCode::Validation
    );

    let mut invalid_work_tag = valid;
    let last = invalid_work_tag.len() - 1;
    invalid_work_tag[last] = 99;
    assert_eq!(
        match CheckpointFrame::decode(&invalid_work_tag) {
            Err(error) => error.code(),
            Ok(_) => panic!("unknown work tag unexpectedly decoded"),
        },
        ErrorCode::Validation
    );
}

#[test]
fn checkpoint_frame_enforces_depth_and_state_size_limits() {
    let levels = vec![CheckpointLevel { branch: 0, next_step: 0 }; MAX_CHECKPOINT_PATH_DEPTH + 1];
    assert_eq!(
        CheckpointFrame::encode(&levels, Vec::new(), CheckpointWork::Branch)
            .expect_err("deep checkpoint path rejected")
            .code(),
        ErrorCode::Validation
    );
    assert_eq!(
        CheckpointFrame::encode(
            &[],
            vec![0; MAX_CHECKPOINT_STATE_BYTES + 1],
            CheckpointWork::Branch,
        )
        .expect_err("large checkpoint state rejected")
        .code(),
        ErrorCode::Validation
    );
}

#[test]
fn checkpoint_cursor_tags_reject_unknown_values() {
    assert!(read_exact::<CheckpointWork>(&[u8::MAX]).is_none());
    assert!(read_exact::<ParallelBranchProgress>(&[u8::MAX]).is_none());
}

#[test]
fn checkpoint_frame_rejects_oversized_state_and_trailing_cursor_bytes() {
    let mut oversized_state = b"CDF1".to_vec();
    oversized_state.extend([1, 0]);
    oversized_state.extend(((MAX_CHECKPOINT_STATE_BYTES as u32) + 1).to_be_bytes());
    assert_eq!(
        match CheckpointFrame::decode(&oversized_state) {
            Err(error) => error.code(),
            Ok(_) => panic!("declared oversized state unexpectedly decoded"),
        },
        ErrorCode::Validation
    );

    let mut trailing_cursor =
        CheckpointFrame::encode(&[], Vec::new(), CheckpointWork::Branch).expect("frame");
    trailing_cursor.push(0);
    assert_eq!(
        match CheckpointFrame::decode(&trailing_cursor) {
            Err(error) => error.code(),
            Ok(_) => panic!("trailing cursor unexpectedly decoded"),
        },
        ErrorCode::Validation
    );
}

#[test]
fn checkpoint_frames_have_a_fixed_layout() {
    let encoded = CheckpointFrame::encode(
        &[CheckpointLevel { branch: 1, next_step: 258 }],
        vec![9, 8],
        CheckpointWork::Branch,
    )
    .expect("encode frame");
    assert_eq!(
        encoded[..20],
        [b'C', b'D', b'F', b'1', 1, 1, 0, 0, 0, 1, 0, 0, 1, 2, 0, 0, 0, 2, 9, 8]
    );
}

fn steps(continuation: &FlowContinuation) -> Vec<&str> {
    continuation.compensation_steps().iter().map(AsRef::as_ref).collect()
}

#[test]
fn continuation_codec_preserves_the_durable_compensation_stack() {
    let continuation = FlowContinuation::new(
        FlowState::new("payment-rollback", "payment", vec![], "node-a", at(5)),
        "charge",
        at(5),
    )
    .record_compensation("reserve", at(5))
    .expect("record reserve rollback")
    .record_compensation("charge", at(5))
    .expect("record charge rollback");

    let encoded = encode_continuation(&continuation).expect("encode continuation");
    let restored = decode_continuation(&encoded).expect("decode continuation");

    assert_eq!(steps(&restored), ["reserve", "charge"]);
}

#[test]
fn continuation_frames_use_the_memorypack_format_version() {
    let continuation = FlowContinuation::new(
        FlowState::new("memorypack-version", "payment", vec![], "node-a", at(5)),
        "charge",
        at(5),
    );

    let encoded = encode_continuation(&continuation).expect("encode continuation");

    assert_eq!(encoded.first(), Some(&7));
}

#[test]
fn continuation_decoder_rejects_trailing_bytes() {
    let continuation = FlowContinuation::new(
        FlowState::new("exact-frame", "payment", vec![], "node-a", at(5)),
        "charge",
        at(5),
    );
    let mut encoded = encode_continuation(&continuation).expect("encode continuation");
    encoded.push(0);

    assert!(decode_continuation(&encoded).is_err());
}

#[test]
fn continuation_codec_round_trips_and_rejects_trailing_bytes() -> CatgaResult<()> {
    let continuation = FlowContinuation::new(
        FlowState::new("payment-rollback", "payment", vec![], "node-a", at(5)),
        "charge",
        at(5),
    );
    let mut encoded = encode_continuation(&continuation)?;
    let restored = decode_continuation(&encoded)?;
    assert!(steps(&restored).is_empty());

    encoded.push(0);
    assert!(decode_continuation(&encoded).is_err());
    Ok(())
}

#[test]
fn continuation_frames_keep_every_part_of_the_record() {
    let wait = WaitCondition::for_children(
        "parent/1",
        WaitPolicy::Any,
        vec!["left".to_owned(), "right".to_owned()],
        at(7),
        Duration::from_millis(1500),
    )
    .expect("distinct children")
    .record_failure("left", CatgaError::new(ErrorCode::Transient, "again"));
    let state = FlowState::new("flow", "payment", vec![1, 2, 3], "node-a", at(6))
        .at_step(4)
        .next_version()
        .expect("version in range")
        .with_error(
            CatgaError::new(ErrorCode::Conflict, "lost").with_details("by another".to_owned()),
        )
        .suspended();
    let continuation = FlowContinuation::waiting(state, "charge", wait, at(8))
        .with_schedule_id("timer-1", at(9));

    let restored = decode_continuation(&encode_continuation(&continuation).expect("encode"))
        .expect("decode");
    assert_eq!(restored.state().id(), "flow");
    assert_eq!(restored.state().flow_type(), "payment");
    assert_eq!(restored.state().status(), catga_flow::FlowStatus::Suspended);
    assert_eq!(restored.state().step(), 4);
    assert_eq!(restored.state().version(), 1);
    assert_eq!(restored.state().owner(), continuation.state().owner());
    assert_eq!(restored.state().heartbeat(), at(6));
    assert_eq!(restored.state().data(), [1, 2, 3]);
    let failure = restored.state().error().expect("stored error");
    assert_eq!(failure.code(), ErrorCode::Conflict);
    assert_eq!(failure.message(), "lost");
    assert_eq!(failure.details(), Some("by another"));
    assert_eq!(restored.step_name(), "charge");
    assert_eq!(restored.schedule_id(), Some("timer-1"));
    assert_eq!(restored.resume_at(), None);
    assert_eq!(restored.created_at(), at(8));
    assert_eq!(restored.updated_at(), at(9));
    let wait = restored.wait().expect("stored wait");
    assert_eq!(wait.correlation_id(), "parent/1");
    assert_eq!(wait.policy(), WaitPolicy::Any);
    assert_eq!(wait.created_at(), at(7));
    assert_eq!(wait.timeout(), Duration::from_millis(1500));
    assert_eq!(wait.completed_count(), 1);
    assert_eq!(wait.results()[0].error().expect("child error").message(), "again");
    assert_eq!(wait.child_launches().len(), 2);

    let delayed = continuation.delayed_until(at(20), at(10));
    let restored =
        decode_continuation(&encode_continuation(&delayed).expect("encode")).expect("decode");
    assert_eq!(restored.resume_at(), Some(at(20)));
    assert!(restored.wait().is_none());
    assert_eq!(restored.schedule_id(), None);
    assert_eq!(restored.updated_at(), at(10));
}

#[test]
fn continuation_decoder_rejects_other_versions_and_damaged_text() {
    let continuation = FlowContinuation::new(
        FlowState::new("utf8", "payment", vec![], "node-a", at(5)),
        "charge",
        at(5),
    );
    let encoded = encode_continuation(&continuation).expect("encode continuation");
    let mut version = encoded.clone();
    version[0] = 6;
    assert_eq!(
        decode_continuation(&version).expect_err("another version").code(),
        ErrorCode::Internal
    );
    assert!(decode_continuation(&[]).is_err());
    let mut text = encoded;
    let place = text.windows(4).position(|bytes| bytes == b"utf8").expect("the identity");
    text[place] = 0xff;
    assert!(decode_continuation(&text).is_err());
}

#[test]
fn compensation_stacks_are_bounded() {
    let mut continuation = FlowContinuation::new(
        FlowState::new("bounded", "payment", vec![], "node-a", at(5)),
        "charge",
        at(5),
    );
    for _ in 0..MAX_FLOW_COMPENSATIONS {
        continuation = continuation.record_compensation("step", at(5)).expect("within the limit");
    }
    assert_eq!(continuation.next_compensation(), Some("step"));
    assert_eq!(
        continuation
            .record_compensation("step", at(5))
            .expect_err("beyond the limit")
            .code(),
        ErrorCode::Validation
    );
}

#[test]
fn flow_state_codec_rejects_data_larger_than_the_durable_limit() -> CatgaResult<()> {
    let boundary = FlowState::new(
        "flow-data-boundary",
        "payment",
        vec![0_u8; MAX_FLOW_DATA_BYTES],
        "node-a",
        at(5),
    );
    assert!(boundary.write(&mut Vec::new()));
    let encoded = encode_continuation(&FlowContinuation::new(boundary, "charge", at(5)))?;
    assert_eq!(decode_continuation(&encoded)?.state().data().len(), MAX_FLOW_DATA_BYTES);

    let oversized = FlowState::new(
        "flow-data-oversized",
        "payment",
        vec![0_u8; MAX_FLOW_DATA_BYTES + 1],
        "node-a",
        at(5),
    );
    assert!(!oversized.write(&mut Vec::new()));
    assert!(encode_continuation(&FlowContinuation::new(oversized, "charge", at(5))).is_err());
    Ok(())
}

#[test]
fn flow_state_decoder_rejects_an_oversized_raw_data_field() {
    let fields = |data: Vec<u8>| {
        (
            ("flow-data-raw".to_owned(), ("payment".to_owned(), (0_u8, (0_u32, 0_i64)))),
            (
                Some("node-a".to_owned()),
                (Timestamp::unix_epoch(), (data, None::<CatgaError>)),
            ),
        )
    };
    let mut raw = Vec::new();
    assert!(fields(vec![0_u8; MAX_FLOW_DATA_BYTES + 1]).write(&mut raw));
    assert!(read_exact::<FlowState>(&raw).is_none());

    let mut accepted = Vec::new();
    assert!(fields(vec![0_u8; MAX_FLOW_DATA_BYTES]).write(&mut accepted));
    let state = read_exact::<FlowState>(&accepted).expect("data within the limit");
    assert_eq!(state.id(), "flow-data-raw");
}

#[derive(Clone, Debug, PartialEq)]
struct State {
    paid: bool,
}

#[test]
fn state_machine_frames_preserve_audit_times() -> CatgaResult<()> {
    let created_at = at(1_700_000_000);
    let updated_at = created_at.checked_add(Duration::from_nanos(42)).expect("time in range");
    let snapshot =
        StateMachineSnapshot::restore("order-7", State { paid: false }, 4, created_at, updated_at)?;

    let encoded =
        encode_state_machine_snapshot(&snapshot, Ok(vec![snapshot.state().paid as u8]))?;
    let frame = read_snapshot_frame(&encoded)?;
    let state = State { paid: frame.state[0] != 0 };
    let decoded = decode_state_machine_snapshot("order-7", &frame, Ok(state))?;

    assert_eq!(decoded.instance_id(), snapshot.instance_id());
    assert_eq!(decoded.state(), snapshot.state());
    assert_eq!(decoded.version(), 4);
    assert_eq!(decoded.created_at(), created_at);
    assert_eq!(decoded.updated_at(), updated_at);
    Ok(())
}

#[test]
fn snapshot_frames_reject_codec_failures_and_damage() {
    let snapshot =
        StateMachineSnapshot::restore("order-8", State { paid: true }, 1, at(1), at(2))
            .expect("valid snapshot");
    let failure = encode_state_machine_snapshot(
        &snapshot,
        Err(CatgaError::new(ErrorCode::Internal, "no codec")),
    )
    .expect_err("codec failure");
    assert_eq!(failure.message(), "no codec");
    let encoded = encode_state_machine_snapshot(&snapshot, Ok(vec![1])).expect("encode");
    assert!(read_snapshot_frame(&encoded[..3]).is_err());
    let mut version = encoded.clone();
    version[0] = 99;
    assert!(read_snapshot_frame(&version).is_err());
    let frame = read_snapshot_frame(&encoded).expect("frame");
    assert_eq!(
        decode_state_machine_snapshot::<State>(
            "order-8",
            &frame,
            Err(CatgaError::new(ErrorCode::Internal, "no codec")),
        )
        .expect_err("codec failure")
        .message(),
        "no codec"
    );
    assert!(StateMachineSnapshot::restore("order-8", State { paid: true }, -1, at(1), at(2))
        .is_err());
    assert!(StateMachineSnapshot::restore("order-8", State { paid: true }, 1, at(2), at(1))
        .is_err());
}

#[test]
fn snapshots_count_versions_one_by_one() {
    let first = StateMachineSnapshot::new("order-9", State { paid: false }, at(3));
    assert_eq!(first.version(), 0);
    let second = first.next_version(State { paid: true }, at(4)).expect("version in range");
    assert_eq!(second.version(), 1);
    assert_eq!(second.created_at(), at(3));
    assert_eq!(second.updated_at(), at(4));
    assert!(StateMachineSnapshot::<State>::is_next_version(0, 1));
    assert!(!StateMachineSnapshot::<State>::is_next_version(0, 2));
    let last =
        StateMachineSnapshot::restore("order-9", State { paid: true }, i64::MAX, at(3), at(4))
            .expect("valid snapshot");
    assert!(last.next_version(State { paid: false }, at(5)).is_err());
}

#[test]
fn timeout_deadline_rounds_fractional_milliseconds_up() -> CatgaResult<()> {
    let created_at = Timestamp::unix_epoch()
        .checked_add(Duration::from_nanos(1))
        .expect("time in range");
    let continuation = FlowContinuation::waiting(
        FlowState::new("fractional-timeout", "test", vec![], "node-a", at(0)).suspended(),
        "resume",
        WaitCondition::new(
            "fractional-timeout/wait",
            WaitPolicy::All,
            1,
            created_at,
            Duration::zero(),
        ),
        at(0),
    );

    assert_eq!(flow_timeout_deadline_unix_ms(&continuation)?, Some(1));
    Ok(())
}

#[test]
fn a_flow_that_does_not_wait_has_no_deadline() {
    let continuation = FlowContinuation::new(
        FlowState::new("no-wait", "test", vec![], "node-a", at(0)),
        "resume",
        at(0),
    );
    assert_eq!(flow_timeout_deadline_unix_ms(&continuation).expect("valid record"), None);
}

#[test]
fn times_before_and_after_the_epoch_have_one_notation() {
    let before = Timestamp::unix_epoch()
        .checked_sub(Duration::checked_new(1, 500_000_000).expect("a duration"))
        .expect("time in range");
    let wire = encode_time(before);
    assert!(wire.before_epoch);
    assert_eq!(wire.seconds, 1);
    assert_eq!(wire.nanoseconds, 500_000_000);
    assert_eq!(decode_time(wire).expect("valid time"), before);
    let out_of_range =
        TimeWire { before_epoch: false, seconds: u64::MAX, nanoseconds: 1_000_000_000 };
    assert_eq!(
        decode_time(out_of_range).expect_err("beyond the last time").message(),
        "flow timestamp is out of range"
    );
}

#[test]
fn durations_have_one_notation() {
    let duration = Duration::from_millis(1_250);
    let wire = encode_duration(duration);
    assert_eq!(wire.seconds, 1);
    assert_eq!(wire.nanoseconds, 250_000_000);
    assert_eq!(decode_duration(wire), duration);
}

#[test]
fn compensations_are_taken_back_newest_first() {
    let state = FlowState::new("stack", "payment", vec![7], "node-a", at(5));
    assert_eq!(state.shared_data(), [7]);
    let continuation = FlowContinuation::new(state, "ship", at(5))
        .record_compensation("reserve", at(6))
        .expect("within the limit")
        .record_compensation("charge", at(7))
        .expect("within the limit");
    assert_eq!(continuation.next_compensation(), Some("charge"));
    let continuation = continuation.complete_compensation(at(8));
    assert_eq!(continuation.next_compensation(), Some("reserve"));
    let continuation = continuation.complete_compensation(at(9));
    assert_eq!(continuation.next_compensation(), None);
}

#[test]
fn error_codes_have_stable_numbers() {
    let codes = [
        ErrorCode::Validation,
        ErrorCode::NotFound,
        ErrorCode::Conflict,
        ErrorCode::Unauthorized,
        ErrorCode::Forbidden,
        ErrorCode::Cancelled,
        ErrorCode::Timeout,
        ErrorCode::Unsupported,
        ErrorCode::Transient,
        ErrorCode::Unavailable,
        ErrorCode::Internal,
    ];
    for code in codes {
        assert_eq!(decode_error_code(encode_error_code(code)).expect("known code"), code);
    }
    assert!(decode_error_code(u8::MAX).is_err());
    let error = CatgaError::new(ErrorCode::Transient, "busy");
    let wire = encode_error(&error);
    assert!(wire.retryable);
    let restored = decode_error(wire).expect("known code");
    assert_eq!(restored.code(), ErrorCode::Transient);
    assert_eq!(restored.message(), "busy");
}
