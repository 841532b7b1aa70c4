//! State-machine values that may be persisted independently of configuration.

use vstd::prelude::*;
use vstd::std_specs::cmp::PartialEqSpec;

use crate::bytes;
use crate::bytes::{copy_range, push_bytes, push_i64, read_i64_at};
use crate::error;
use crate::error::{CatgaError, CatgaResult, ErrorCode};
use crate::record::Record;
use crate::text;
use crate::text::{decimal_text, join};
use crate::time::Timestamp;

verus! {

/// Mutable state held by a state-machine instance.
pub trait StateMachineState<K>: Clone {
    /// Returns the instance's current state discriminator.
    fn current_state(&self) -> &K;

    /// Replaces the instance's current state discriminator.
    fn set_current_state(&mut self, state: K);
}

/// The outcome of attempting to handle one event.
#[derive(Clone, Debug, PartialEq, Eq)]
pub struct StateMachineResult<K> {
    previous: K,
    current: K,
    handled: bool,
}

/// Mathematical model of a [`StateMachineResult`].
pub struct ResultView<K> {
    pub previous: K,
    pub current: K,
    pub handled: bool,
}

impl<K> View for StateMachineResult<K> {
    type V = ResultView<K>;

    closed spec fn view(&self) -> ResultView<K> {
        ResultView { previous: self.previous, current: self.current, handled: self.handled }
    }
}

impl<K> StateMachineResult<K> {
    /// Describes one attempt to handle an event.
    pub fn new(previous: K, current: K, handled: bool) -> (result: Self)
        ensures
            result@ == (ResultView { previous, current, handled }),
    {
        StateMachineResult { previous, current, handled }
    }

    /// Returns the state before event handling.
    pub fn previous(&self) -> (result: K) where K: Clone
        ensures
            cloned::<K>(self@.previous, result),
    {
        self.previous.clone()
    }

    /// Returns the state after event handling.
    pub fn current(&self) -> (result: K) where K: Clone
        ensures
            cloned::<K>(self@.current, result),
    {
        self.current.clone()
    }

    /// Returns whether a configured transition handled the event.
    pub fn handled(&self) -> (result: bool)
        ensures
            result == self@.handled,
    {
        self.handled
    }

    /// Returns whether handling changed the state discriminator.
    pub fn transitioned(&self) -> (result: bool) where K: Eq
        ensures
            K::obeys_eq_spec() ==> result == !self@.previous.eq_spec(&self@.current),
    {
        self.previous != self.current
    }
}

/// Immutable, versioned state-machine data kept by a store.
#[derive(Clone, Debug, PartialEq, Eq)]
pub struct StateMachineSnapshot<S> {
    instance_id: String,
    state: S,
    version: i64,
    created_at: Timestamp,
    updated_at: Timestamp,
}

/// Mathematical model of a [`StateMachineSnapshot`].
pub struct SnapshotView<S> {
    pub instance_id: Seq<char>,
    pub state: S,
    pub version: i64,
    pub created_at: int,
    pub updated_at: int,
}

impl<S> View for StateMachineSnapshot<S> {
    type V = SnapshotView<S>;

    closed spec fn view(&self) -> SnapshotView<S> {
        SnapshotView {
            instance_id: self.instance_id@,
            state: self.state,
            version: self.version,
            created_at: self.created_at@,
            updated_at: self.updated_at@,
        }
    }
}

impl<S> SnapshotView<S> {
    /// The first version of an instance.
    pub open spec fn initial(instance_id: Seq<char>, state: S, now: int) -> Self {
        SnapshotView { instance_id, state, version: 0, created_at: now, updated_at: now }
    }

    /// Whether a further version exists.
    pub open spec fn can_advance(self) -> bool {
        self.version < i64::MAX
    }

    /// The following version with another state; its update time never moves back.
    pub open spec fn advanced(self, state: S, now: int) -> Self {
        SnapshotView {
            state,
            version: (self.version + 1) as i64,
            updated_at: if now < self.updated_at {
                self.updated_at
            } else {
                now
            },
            ..self
        }
    }
}

/// Why the fields of a snapshot are rejected, or `None` where they are not.
pub open spec fn snapshot_failure(version: i64, created_at: int, updated_at: int) -> Option<
    Seq<char>,
> {
    if version < 0 {
        Some("state-machine snapshot version cannot be negative"@)
    } else if updated_at < created_at {
        Some("state-machine snapshot update time cannot precede creation time"@)
    } else {
        None
    }
}

/// The failure of a version that cannot grow any more.
pub open spec fn snapshot_version_exhausted() -> error::ErrorView {
    error::plain_error(
        ErrorCode::Conflict,
        "state-machine snapshot version cannot advance beyond i64::MAX"@,
    )
}

impl<S> StateMachineSnapshot<S> {
    /// Creates the first version of an instance snapshot.
    pub fn new(instance_id: &str, state: S, now: Timestamp) -> (result: Self)
        ensures
            result@ == SnapshotView::initial(instance_id@, state, now@),
    {
        StateMachineSnapshot {
            instance_id: instance_id.to_owned(),
            state,
            version: 0,
            created_at: now,
            updated_at: now,
        }
    }

    /// Restores a snapshot with its persisted creation and update timestamps.
    pub fn restore(
        instance_id: &str,
        state: S,
        version: i64,
        created_at: Timestamp,
        updated_at: Timestamp,
    ) -> (result: CatgaResult<Self>)
        ensures
            match (result, snapshot_failure(version, created_at@, updated_at@)) {
                (Ok(snapshot), None) => snapshot@ == (SnapshotView {
                    instance_id: instance_id@,
                    state,
                    version,
                    created_at: created_at@,
                    updated_at: updated_at@,
                }),
                (Err(failure), Some(message)) => failure@ == error::validation(message),
                _ => false,
            },
    {
        if version < 0 {
            return Err(
                CatgaError::new(
                    ErrorCode::Validation,
                    "state-machine snapshot version cannot be negative",
                ),
            );
        }
        if updated_at.is_before(created_at) {
            return Err(
                CatgaError::new(
                    ErrorCode::Validation,
                    "state-machine snapshot update time cannot precede creation time",
                ),
            );
        }
        Ok(
            StateMachineSnapshot {
                instance_id: instance_id.to_owned(),
                state,
                version,
                created_at,
                updated_at,
            },
        )
    }

    /// Returns the immutable instance identity.
    pub fn instance_id(&self) -> (result: &str)
        ensures
            result@ == self@.instance_id,
    {
        self.instance_id.as_str()
    }

    /// Returns the persisted state payload.
    pub fn state(&self) -> (result: &S)
        ensures
            *result == self@.state,
    {
        &self.state
    }

    /// Returns the optimistic concurrency version.
    pub fn version(&self) -> (result: i64)
        ensures
            result == self@.version,
    {
        self.version
    }

    /// Returns when this instance snapshot was first persisted.
    pub fn created_at(&self) -> (result: Timestamp)
        ensures
            result@ == self@.created_at,
    {
        self.created_at
    }

    /// Returns when this state was last successfully persisted.
    pub fn updated_at(&self) -> (result: Timestamp)
        ensures
            result@ == self@.updated_at,
    {
        self.updated_at
    }

    /// Produces the next version with an updated state payload.
    pub fn next_version(&self, state: S, now: Timestamp) -> (result: CatgaResult<Self>)
        ensures
            match result {
                Ok(next) => self@.can_advance() && next@ == self@.advanced(state, now@),
                Err(failure) => !self@.can_advance() && failure@ == snapshot_version_exhausted(),
            },
    {
        if self.version == i64::MAX {
            return Err(
                CatgaError::new(
                    ErrorCode::Conflict,
                    "state-machine snapshot version cannot advance beyond i64::MAX",
                ),
            );
        }
        Ok(
            StateMachineSnapshot {
                instance_id: self.instance_id.clone(),
                state,
                version: self.version + 1,
                created_at: self.created_at,
                updated_at: now.latest(self.updated_at),
            },
        )
    }

    /// Returns whether `next` is the exact representable successor of `expected`.
    pub fn is_next_version(expected: i64, next: i64) -> (result: bool)
        ensures
            result == (expected + 1 == next),
    {
        expected < i64::MAX && expected + 1 == next
    }
}

/// A snapshot keeps being valid as it advances, and its identity and creation time never change.
pub proof fn lemma_snapshots_stay_valid<S>(snapshot: SnapshotView<S>, state: S, now: int)
    requires
        snapshot_failure(snapshot.version, snapshot.created_at, snapshot.updated_at) is None,
        snapshot.can_advance(),
    ensures
        ({
            let next = snapshot.advanced(state, now);
            &&& snapshot_failure(next.version, next.created_at, next.updated_at) is None
            &&& next.version == snapshot.version + 1
            &&& next.instance_id == snapshot.instance_id
            &&& next.created_at == snapshot.created_at
            &&& next.updated_at >= snapshot.updated_at
        }),
{
}

/// First byte of a durable snapshot.
pub const SNAPSHOT_FORMAT_VERSION: u8 = 1;

/// Number of bytes of an instant in a durable snapshot.
pub const TIME_WIRE_BYTES: usize = 13;

/// Number of bytes before the state payload of a durable snapshot.
pub const SNAPSHOT_METADATA_BYTES: usize = 1 + 8 + 13 + 13;

/// The fields of a durable snapshot, with the state payload still encoded.
#[derive(Debug)]
pub struct SnapshotFrame {
    pub version: i64,
    pub created_at: Timestamp,
    pub updated_at: Timestamp,
    pub state: Vec<u8>,
}

/// Mathematical model of a [`SnapshotFrame`].
pub struct SnapshotFrameView {
    pub version: i64,
    pub created_at: int,
    pub updated_at: int,
    pub state: Seq<u8>,
}

impl View for SnapshotFrame {
    type V = SnapshotFrameView;

    open spec fn view(&self) -> SnapshotFrameView {
        SnapshotFrameView {
            version: self.version,
            created_at: self.created_at@,
            updated_at: self.updated_at@,
            state: self.state@,
        }
    }
}

/// The bytes of a durable snapshot.
pub open spec fn snapshot_layout(frame: SnapshotFrameView) -> Seq<u8> {
    seq![SNAPSHOT_FORMAT_VERSION] + (bytes::be_i64(frame.version) + (<Timestamp as Record>::layout(
        frame.created_at,
    ) + (<Timestamp as Record>::layout(frame.updated_at) + frame.state)))
}

/// The failure of a snapshot that cannot be read.
pub open spec fn unreadable(message: Seq<char>) -> error::ErrorView {
    error::plain_error(ErrorCode::Internal, message)
}

/// The fields in the bytes of a durable snapshot, or why they cannot be read.
pub open spec fn snapshot_fields(value: Seq<u8>) -> Result<SnapshotFrameView, error::ErrorView> {
    if value.len() < SNAPSHOT_METADATA_BYTES {
        Err(unreadable("state-machine snapshot value is missing metadata"@))
    } else if value[0] != SNAPSHOT_FORMAT_VERSION {
        Err(
            unreadable(
                "unsupported state-machine snapshot format version "@ + text::decimal(
                    value[0] as nat,
                ),
            ),
        )
    } else {
        match <Timestamp as Record>::parse(value, 9) {
            None => Err(
                unreadable(
                    "state-machine snapshot creation time is malformed: flow timestamp is out of range"@,
                ),
            ),
            Some((created_at, _)) => match <Timestamp as Record>::parse(value, 22) {
                None => Err(
                    unreadable(
                        "state-machine snapshot update time is malformed: flow timestamp is out of range"@,
                    ),
                ),
                Some((updated_at, _)) => Ok(
                    SnapshotFrameView {
                        version: bytes::i64_at(value, 1) as i64,
                        created_at,
                        updated_at,
                        state: value.skip(SNAPSHOT_METADATA_BYTES as int),
                    },
                ),
            },
        }
    }
}

fn unread(message: &str) -> (result: CatgaError)
    ensures
        result@ == unreadable(message@),
{
    CatgaError::new(ErrorCode::Internal, message)
}

/// Encodes one state-machine snapshot with its encoded state payload.
pub fn encode_state_machine_snapshot<S>(
    snapshot: &StateMachineSnapshot<S>,
    state: CatgaResult<Vec<u8>>,
) -> (result: CatgaResult<Vec<u8>>)
    ensures
        match (result, state) {
            (Err(failure), _) if snapshot@.version < 0 => failure@ == error::validation(
                "state-machine snapshot version cannot be negative"@,
            ),
            (Err(failure), Err(rejected)) => failure@ == rejected@,
            (Ok(value), Ok(state)) => snapshot@.version >= 0 && value@ == snapshot_layout(
                SnapshotFrameView {
                    version: snapshot@.version,
                    created_at: snapshot@.created_at,
                    updated_at: snapshot@.updated_at,
                    state: state@,
                },
            ),
            _ => false,
        },
{
    if snapshot.version < 0 {
        return Err(
            CatgaError::new(
                ErrorCode::Validation,
                "state-machine snapshot version cannot be negative",
            ),
        );
    }
    let state: Vec<u8> = match state {
        Ok(state) => state,
        Err(failure) => {
            return Err(failure);
        },
    };
    proof {
        use_type_invariant(&snapshot.created_at);
        use_type_invariant(&snapshot.updated_at);
        snapshot.created_at.lemma_in_range();
        snapshot.updated_at.lemma_in_range();
    }
    let mut value: Vec<u8> = Vec::new();
    value.push(SNAPSHOT_FORMAT_VERSION);
    push_i64(&mut value, snapshot.version);
    let _created_written: bool = snapshot.created_at.write(&mut value);
    let _updated_written: bool = snapshot.updated_at.write(&mut value);
    push_bytes(&mut value, state.as_slice());
    assert(value@ =~= snapshot_layout(
        SnapshotFrameView {
            version: snapshot@.version,
            created_at: snapshot@.created_at,
            updated_at: snapshot@.updated_at,
            state: state@,
        },
    ));
    Ok(value)
}

/// Reads the fields of one durable state-machine snapshot.
pub fn read_snapshot_frame(value: &[u8]) -> (result: CatgaResult<SnapshotFrame>)
    ensures
        match (result, snapshot_fields(value@)) {
            (Ok(frame), Ok(expected)) => frame@ == expected,
            (Err(failure), Err(expected)) => failure@ == expected,
            _ => false,
        },
{
    if value.len() < SNAPSHOT_METADATA_BYTES {
        return Err(unread("state-machine snapshot value is missing metadata"));
    }
    if value[0] != SNAPSHOT_FORMAT_VERSION {
        let message: String = join(
            "unsupported state-machine snapshot format version ",
            decimal_text(value[0] as u64).as_str(),
        );
        return Err(unread(message.as_str()));
    }
    let version: i64 = read_i64_at(value, 1);
    let created_at: Timestamp = match <Timestamp as Record>::read(value, 9) {
        Some((instant, _)) => instant,
        None => {
            return Err(
                unread(
                    "state-machine snapshot creation time is malformed: flow timestamp is out of range",
                ),
            );
        },
    };
    let updated_at: Timestamp = match <Timestamp as Record>::read(value, 22) {
        Some((instant, _)) => instant,
        None => {
            return Err(
                unread(
                    "state-machine snapshot update time is malformed: flow timestamp is out of range",
                ),
            );
        },
    };
    let state: Vec<u8> = copy_range(value, SNAPSHOT_METADATA_BYTES, value.len());
    assert(state@ =~= value@.skip(SNAPSHOT_METADATA_BYTES as int));
    Ok(SnapshotFrame { version, created_at, updated_at, state })
}

/// Restores one state-machine snapshot from its fields and its decoded state payload.
pub fn decode_state_machine_snapshot<S>(
    instance_id: &str,
    frame: &SnapshotFrame,
    state: CatgaResult<S>,
) -> (result: CatgaResult<StateMachineSnapshot<S>>)
    ensures
        match state {
            Err(rejected) => result matches Err(failure) && failure@ == rejected@,
            Ok(state) => match (
                result,
                snapshot_failure(frame@.version, frame@.created_at, frame@.updated_at),
            ) {
                (Ok(snapshot), None) => snapshot@ == (SnapshotView {
                    instance_id: instance_id@,
                    state,
                    version: frame@.version,
                    created_at: frame@.created_at,
                    updated_at: frame@.updated_at,
                }),
                (Err(failure), Some(message)) => failure@ == error::validation(message),
                _ => false,
            },
        },
{
    match state {
        Err(failure) => Err(failure),
        Ok(state) => StateMachineSnapshot::restore(
            instance_id,
            state,
            frame.version,
            frame.created_at,
            frame.updated_at,
        ),
    }
}

proof fn lemma_time_layout_length(nanos: int)
    ensures
        <Timestamp as Record>::layout(nanos).len() == TIME_WIRE_BYTES,
{
}

/// A snapshot is read back as it was written, with its audit times and its exact state payload.
pub proof fn lemma_snapshot_round_trip(frame: SnapshotFrameView)
    requires
        crate::time::valid_timestamp(frame.created_at),
        crate::time::valid_timestamp(frame.updated_at),
    ensures
        snapshot_fields(snapshot_layout(frame)) == Ok::<SnapshotFrameView, error::ErrorView>(frame),
{
    let value = snapshot_layout(frame);
    let version = bytes::be_i64(frame.version);
    let created = <Timestamp as Record>::layout(frame.created_at);
    let updated = <Timestamp as Record>::layout(frame.updated_at);
    lemma_time_layout_length(frame.created_at);
    lemma_time_layout_length(frame.updated_at);
    assert(version.len() == 8);
    assert(bytes::holds_at(value, 1, version));
    assert(bytes::holds_at(value, 9, created));
    assert(bytes::holds_at(value, 22, updated));
    bytes::lemma_i64_round_trip(value, 1, frame.version);
    <Timestamp as Record>::lemma_round_trip(frame.created_at, value, 9);
    <Timestamp as Record>::lemma_round_trip(frame.updated_at, value, 22);
    assert(value.skip(SNAPSHOT_METADATA_BYTES as int) =~= frame.state);
}

/// A stored snapshot starts with the format version 1, its version in eight bytes and its two times in
/// thirteen bytes each; the state is all that follows. Bytes of another form are refused.
pub proof fn lemma_snapshots_have_a_fixed_form(frame: SnapshotFrameView, other: Seq<u8>)
    ensures
        ({
            let layout = snapshot_layout(frame);
            &&& layout.len() == 35 + frame.state.len()
            &&& layout[0] == 1
            &&& layout.subrange(1, 9) =~= bytes::be_i64(frame.version)
            &&& layout.skip(35) =~= frame.state
        }),
        other.len() < 35 || other[0] != 1 ==> snapshot_fields(other) is Err,
{
    lemma_time_layout_length(frame.created_at);
    lemma_time_layout_length(frame.updated_at);
    assert(bytes::be_i64(frame.version).len() == 8);
}

} // verus!
