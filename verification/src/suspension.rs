//! Durable waits, child launches and the continuations that hold them.

use vstd::prelude::*;

use crate::bytes;
use crate::error;
use crate::error::{CatgaError, CatgaResult, ErrorCode};
use crate::record::Record;
use crate::search;
use crate::state;
use crate::state::clone_error_option;
use crate::text;
use crate::text::{decimal_text, join};
use crate::time::{Duration, Timestamp};

verus! {

/// The policy used to decide when a wait condition is complete.
#[derive(Clone, Copy, Debug, PartialEq, Eq, Structural)]
pub enum WaitPolicy {
    /// Every expected child must succeed.
    All,
    /// The first successful child completes the condition.
    Any,
}

/// Maximum number of durable child identities or retained results in one wait condition.
pub const MAX_WAIT_CHILDREN: usize = 1024;

/// Maximum byte length of one successful child payload retained by a wait condition.
pub const MAX_WAIT_RESULT_BYTES: usize = 65536;

/// Maximum successful rollback-capable steps retained by one durable flow.
pub const MAX_FLOW_COMPENSATIONS: usize = 1024;

/// Persisted state of one stable child-launch intent.
#[derive(Debug)]
pub enum FlowChildLaunchState {
    /// No process currently owns launching this child.
    Pending,
    /// One runtime holds the launch claim until `expires_at`.
    Claimed {
        /// Runtime owner that obtained the claim.
        owner: String,
        /// Wall-clock deadline after which another runtime may retry the stable child identity.
        expires_at: Timestamp,
    },
    /// A launcher successfully accepted the stable child identity.
    Launched,
}

/// Mathematical model of a [`FlowChildLaunchState`].
pub enum LaunchView {
    Pending,
    Claimed { owner: Seq<char>, expires_at: int },
    Launched,
}

impl View for FlowChildLaunchState {
    type V = LaunchView;

    open spec fn view(&self) -> LaunchView {
        match *self {
            FlowChildLaunchState::Pending => LaunchView::Pending,
            FlowChildLaunchState::Claimed { owner, expires_at } => LaunchView::Claimed {
                owner: owner@,
                expires_at: expires_at@,
            },
            FlowChildLaunchState::Launched => LaunchView::Launched,
        }
    }
}

impl Clone for FlowChildLaunchState {
    fn clone(&self) -> (result: Self)
        ensures
            result@ == self@,
    {
        match self {
            FlowChildLaunchState::Pending => FlowChildLaunchState::Pending,
            FlowChildLaunchState::Claimed { owner, expires_at } => FlowChildLaunchState::Claimed {
                owner: owner.clone(),
                expires_at: *expires_at,
            },
            FlowChildLaunchState::Launched => FlowChildLaunchState::Launched,
        }
    }
}

/// One bounded, stable child identity retained by a durable wait condition.
#[derive(Debug)]
pub struct FlowChildLaunch {
    child_id: String,
    state: FlowChildLaunchState,
}

/// Mathematical model of a [`FlowChildLaunch`].
pub struct ChildView {
    pub child_id: Seq<char>,
    pub state: LaunchView,
}

impl View for FlowChildLaunch {
    type V = ChildView;

    closed spec fn view(&self) -> ChildView {
        ChildView { child_id: self.child_id@, state: self.state@ }
    }
}

impl DeepView for FlowChildLaunch {
    type V = ChildView;

    open spec fn deep_view(&self) -> ChildView {
        self@
    }
}

impl Clone for FlowChildLaunch {
    fn clone(&self) -> (result: Self)
        ensures
            result@ == self@,
    {
        FlowChildLaunch { child_id: self.child_id.clone(), state: self.state.clone() }
    }
}

impl FlowChildLaunch {
    /// Creates an intent that no process has claimed.
    pub fn pending(child_id: &str) -> (result: Self)
        ensures
            result@ == (ChildView { child_id: child_id@, state: LaunchView::Pending }),
    {
        FlowChildLaunch { child_id: child_id.to_owned(), state: FlowChildLaunchState::Pending }
    }

    /// Returns the stable application-supplied child identity.
    pub fn child_id(&self) -> (result: &str)
        ensures
            result@ == self@.child_id,
    {
        self.child_id.as_str()
    }

    /// Returns the persisted launch state.
    pub fn state(&self) -> (result: &FlowChildLaunchState)
        ensures
            result@ == self@.state,
    {
        &self.state
    }

    fn with_state(&self, state: FlowChildLaunchState) -> (result: Self)
        ensures
            result@ == (ChildView { state: state@, ..self@ }),
    {
        FlowChildLaunch { child_id: self.child_id.clone(), state }
    }
}

/// One immutable child result recorded against a wait condition.
#[derive(Debug)]
pub struct WaitResult {
    child_id: String,
    payload: Option<Vec<u8>>,
    error: Option<CatgaError>,
}

/// Mathematical model of a [`WaitResult`].
pub struct ResultView {
    pub child_id: Seq<char>,
    pub payload: Option<Seq<u8>>,
    pub error: Option<error::ErrorView>,
}

/// The model of an optional payload.
pub open spec fn payload_option(value: Option<Vec<u8>>) -> Option<Seq<u8>> {
    match value {
        Some(payload) => Some(payload@),
        None => None,
    }
}

impl View for WaitResult {
    type V = ResultView;

    closed spec fn view(&self) -> ResultView {
        ResultView {
            child_id: self.child_id@,
            payload: payload_option(self.payload),
            error: state::error_option(self.error),
        }
    }
}

impl DeepView for WaitResult {
    type V = ResultView;

    open spec fn deep_view(&self) -> ResultView {
        self@
    }
}

impl Clone for WaitResult {
    fn clone(&self) -> (result: Self)
        ensures
            result@ == self@,
    {
        WaitResult {
            child_id: self.child_id.clone(),
            payload: match &self.payload {
                Some(payload) => Some(bytes::copy_bytes(payload)),
                None => None,
            },
            error: clone_error_option(&self.error),
        }
    }
}

impl ResultView {
    pub open spec fn success(child_id: Seq<char>, payload: Seq<u8>) -> Self {
        ResultView { child_id, payload: Some(payload), error: None }
    }

    pub open spec fn failure(child_id: Seq<char>, error: error::ErrorView) -> Self {
        ResultView { child_id, payload: None, error: Some(error) }
    }

    pub open spec fn is_success(self) -> bool {
        self.error is None
    }

    /// Whether a retained payload is within its limit.
    pub open spec fn is_bounded(self) -> bool {
        match self.payload {
            Some(payload) => payload.len() <= MAX_WAIT_RESULT_BYTES,
            None => true,
        }
    }
}

impl WaitResult {
    fn success(child_id: &str, payload: Vec<u8>) -> (result: Self)
        ensures
            result@ == ResultView::success(child_id@, payload@),
    {
        WaitResult { child_id: child_id.to_owned(), payload: Some(payload), error: None }
    }

    fn failure(child_id: &str, error: CatgaError) -> (result: Self)
        ensures
            result@ == ResultView::failure(child_id@, error@),
    {
        WaitResult { child_id: child_id.to_owned(), payload: None, error: Some(error) }
    }

    /// Returns the child identity that produced this result.
    pub fn child_id(&self) -> (result: &str)
        ensures
            result@ == self@.child_id,
    {
        self.child_id.as_str()
    }

    /// Returns whether the child completed successfully.
    pub fn is_success(&self) -> (result: bool)
        ensures
            result == self@.is_success(),
    {
        self.error.is_none()
    }

    /// Returns the successful result payload without copying it.
    pub fn payload(&self) -> (result: Option<&[u8]>)
        ensures
            match (result, self@.payload) {
                (Some(payload), Some(model)) => payload@ == model,
                (None, None) => true,
                _ => false,
            },
    {
        match &self.payload {
            Some(payload) => Some(payload.as_slice()),
            None => None,
        }
    }

    /// Returns an owned copy of the successful payload.
    pub fn shared_payload(&self) -> (result: Option<Vec<u8>>)
        ensures
            payload_option(result) == self@.payload,
    {
        match &self.payload {
            Some(payload) => Some(bytes::copy_bytes(payload)),
            None => None,
        }
    }

    /// Returns the failure associated with this child, when any.
    pub fn error(&self) -> (result: Option<&CatgaError>)
        ensures
            match (result, self@.error) {
                (Some(failure), Some(model)) => failure@ == model,
                (None, None) => true,
                _ => false,
            },
    {
        match &self.error {
            Some(failure) => Some(failure),
            None => None,
        }
    }
}

/// Immutable persisted state for a set of child-flow results.
#[derive(Debug)]
pub struct WaitCondition {
    correlation_id: String,
    policy: WaitPolicy,
    expected_count: u32,
    results: Vec<WaitResult>,
    created_at: Timestamp,
    timeout: Duration,
    child_launches: Vec<FlowChildLaunch>,
}

/// Mathematical model of a [`WaitCondition`].
pub struct WaitView {
    pub correlation_id: Seq<char>,
    pub policy: WaitPolicy,
    pub expected_count: u32,
    pub results: Seq<ResultView>,
    pub created_at: int,
    pub timeout: int,
    pub child_launches: Seq<ChildView>,
}

impl View for WaitCondition {
    type V = WaitView;

    closed spec fn view(&self) -> WaitView {
        WaitView {
            correlation_id: self.correlation_id@,
            policy: self.policy,
            expected_count: self.expected_count,
            results: self.results.deep_view(),
            created_at: self.created_at@,
            timeout: self.timeout@,
            child_launches: self.child_launches.deep_view(),
        }
    }
}

impl DeepView for WaitCondition {
    type V = WaitView;

    open spec fn deep_view(&self) -> WaitView {
        self@
    }
}

impl WaitView {
    /// Whether one of the launch intents is for `child`.
    pub open spec fn names_child(self, child: Seq<char>) -> bool {
        exists|i: int|
            0 <= i < self.child_launches.len() && #[trigger] self.child_launches[i].child_id
                == child
    }

    /// Whether a completion of `child` belongs to this wait.
    pub open spec fn accepts_child(self, child: Seq<char>) -> bool {
        self.child_launches.len() == 0 || self.names_child(child)
    }

    /// Whether `child` has reported.
    pub open spec fn has_reported(self, child: Seq<char>) -> bool {
        exists|i: int|
            0 <= i < self.results.len() && #[trigger] self.results[i].child_id == child
    }

    /// Whether a further result of `child` is retained.
    pub open spec fn admits(self, child: Seq<char>) -> bool {
        &&& self.results.len() < MAX_WAIT_CHILDREN
        &&& self.results.len() < self.expected_count
        &&& self.accepts_child(child)
        &&& !self.has_reported(child)
    }

    /// The wait after a result of a child, which is dropped where it is not admitted.
    pub open spec fn record(self, result: ResultView) -> Self {
        if self.admits(result.child_id) {
            WaitView { results: self.results.push(result), ..self }
        } else {
            self
        }
    }

    pub open spec fn record_success(self, child: Seq<char>, payload: Seq<u8>) -> Self {
        if payload.len() <= MAX_WAIT_RESULT_BYTES {
            self.record(ResultView::success(child, payload))
        } else {
            self
        }
    }

    pub open spec fn record_failure(self, child: Seq<char>, error: error::ErrorView) -> Self {
        self.record(ResultView::failure(child, error))
    }

    /// Whether the time for child results is over.
    pub open spec fn is_expired_at(self, now: int) -> bool {
        now >= self.created_at && now - self.created_at >= self.timeout
    }

    /// Whether a runtime may claim a launch at `now`.
    pub open spec fn claimable(now: int) -> spec_fn(ChildView) -> bool {
        |child: ChildView|
            match child.state {
                LaunchView::Pending => true,
                LaunchView::Claimed { expires_at, .. } => expires_at <= now,
                LaunchView::Launched => false,
            }
    }

    /// Whether `owner` holds the claim on the launch of `child`.
    pub open spec fn claimed_by(child: Seq<char>, owner: Seq<char>) -> spec_fn(ChildView) -> bool {
        |launch: ChildView|
            launch.child_id == child && match launch.state {
                LaunchView::Claimed { owner: holder, .. } => holder == owner,
                _ => false,
            }
    }

    /// The wait with one launch in another state.
    pub open spec fn with_launch(self, place: int, launch: LaunchView) -> Self {
        WaitView {
            child_launches: self.child_launches.update(
                place,
                ChildView { state: launch, ..self.child_launches[place] },
            ),
            ..self
        }
    }

    /// The first launch that may be claimed and the wait with that claim.
    pub open spec fn claim_next_child(self, owner: Seq<char>, now: int, claim_for: int) -> Option<
        (Seq<char>, Self),
    > {
        if !crate::time::valid_timestamp(now + claim_for) {
            None
        } else {
            match search::first_where(self.child_launches, Self::claimable(now)) {
                Some(place) => Some(
                    (
                        self.child_launches[place].child_id,
                        self.with_launch(
                            place,
                            LaunchView::Claimed { owner, expires_at: now + claim_for },
                        ),
                    ),
                ),
                None => None,
            }
        }
    }

    /// The wait after `owner` ends its claim on `child` with `launch`.
    pub open spec fn end_claim(
        self,
        child: Seq<char>,
        owner: Seq<char>,
        launch: LaunchView,
    ) -> Option<Self> {
        match search::first_where(self.child_launches, Self::claimed_by(child, owner)) {
            Some(place) => Some(self.with_launch(place, launch)),
            None => None,
        }
    }

    /// Whether the identity, the expected count and the retained results are within bounds.
    pub open spec fn bounded(self) -> bool {
        &&& self.correlation_id.len() > 0
        &&& 0 < self.expected_count <= MAX_WAIT_CHILDREN
        &&& self.results.len() <= self.expected_count
        &&& forall|i: int|
            0 <= i < self.results.len() ==> (#[trigger] self.results[i]).is_bounded()
    }

    /// Whether the launch intents, where there are any, name each expected child once.
    pub open spec fn launches_valid(self) -> bool {
        self.child_launches.len() > 0 ==> {
            &&& self.child_launches.len() == self.expected_count
            &&& forall|i: int|
                0 <= i < self.child_launches.len() ==> (
                #[trigger] self.child_launches[i]).child_id.len() > 0
            &&& forall|i: int, j: int|
                0 <= i < j < self.child_launches.len() ==> (
                #[trigger] self.child_launches[i]).child_id != (
                #[trigger] self.child_launches[j]).child_id
        }
    }

    /// Whether a wait may be persisted and decoded.
    pub open spec fn valid(self) -> bool {
        self.bounded() && self.launches_valid()
    }

    /// Why an invalid wait is rejected.
    pub open spec fn rejection(self) -> error::ErrorView {
        if !self.bounded() {
            error::validation(
                "flow wait condition requires a correlation, at least one expected child, and supported bounds"@,
            )
        } else {
            error::validation("flow child launch intents are invalid"@)
        }
    }
}

impl Clone for WaitCondition {
    fn clone(&self) -> (result: Self)
        ensures
            result@ == self@,
    {
        WaitCondition {
            correlation_id: self.correlation_id.clone(),
            policy: self.policy,
            expected_count: self.expected_count,
            results: clone_results(&self.results),
            created_at: self.created_at,
            timeout: self.timeout,
            child_launches: clone_launches(&self.child_launches),
        }
    }
}

fn clone_results(results: &Vec<WaitResult>) -> (copy: Vec<WaitResult>)
    ensures
        copy.deep_view() == results.deep_view(),
{
    let copy: Vec<WaitResult> = results.clone();
    assert(copy.deep_view() =~= results.deep_view());
    copy
}

fn clone_launches(launches: &Vec<FlowChildLaunch>) -> (copy: Vec<FlowChildLaunch>)
    ensures
        copy.deep_view() == launches.deep_view(),
{
    let copy: Vec<FlowChildLaunch> = launches.clone();
    assert(copy.deep_view() =~= launches.deep_view());
    copy
}

/// Why a list of child identities is rejected, or `None` where it is accepted: the first
/// identity that is empty or repeated, or that exceeds the limit, decides.
pub open spec fn child_list_failure(child_ids: Seq<Seq<char>>) -> Option<Seq<char>>
    decreases child_ids.len(),
{
    if child_ids.len() == 0 {
        None
    } else {
        let earlier = child_ids.drop_last();
        match child_list_failure(earlier) {
            Some(message) => Some(message),
            None => if child_ids.last().len() == 0 || earlier.contains(child_ids.last()) {
                Some("flow child identities must be non-empty and unique"@)
            } else if earlier.len() == MAX_WAIT_CHILDREN {
                Some("flow child wait exceeds the supported child limit"@)
            } else {
                None
            },
        }
    }
}

proof fn lemma_child_list_failure_stays(child_ids: Seq<Seq<char>>, count: int)
    requires
        0 <= count <= child_ids.len(),
        child_list_failure(child_ids.take(count)) is Some,
    ensures
        child_list_failure(child_ids) == child_list_failure(child_ids.take(count)),
    decreases child_ids.len() - count,
{
    if count < child_ids.len() {
        let longer = child_ids.take(count + 1);
        assert(longer.drop_last() =~= child_ids.take(count));
        lemma_child_list_failure_stays(child_ids, count + 1);
    } else {
        assert(child_ids.take(count) =~= child_ids);
    }
}

/// Whether a list is within the limit, without empty or repeated identities.
pub open spec fn is_child_list(child_ids: Seq<Seq<char>>) -> bool {
    &&& child_ids.len() <= MAX_WAIT_CHILDREN
    &&& forall|i: int| 0 <= i < child_ids.len() ==> (#[trigger] child_ids[i]).len() > 0
    &&& forall|i: int, j: int|
        0 <= i < j < child_ids.len() ==> #[trigger] child_ids[i] != #[trigger] child_ids[j]
}

/// No identity of a list is rejected exactly where the list is within the limit and its identities
/// are non-empty and distinct. A wait needs at least one identity besides.
pub proof fn lemma_child_list_accepted(child_ids: Seq<Seq<char>>)
    ensures
        child_list_failure(child_ids) is None <==> is_child_list(child_ids),
    decreases child_ids.len(),
{
    if child_ids.len() > 0 {
        let earlier = child_ids.drop_last();
        let last = child_ids.last();
        lemma_child_list_accepted(earlier);
        if is_child_list(child_ids) {
            assert forall|i: int| 0 <= i < earlier.len() implies (
            #[trigger] earlier[i]).len() > 0 by {
                assert(earlier[i] == child_ids[i]);
            }
            assert forall|i: int, j: int| 0 <= i < j < earlier.len() implies #[trigger] earlier[i]
                != #[trigger] earlier[j] by {
                assert(child_ids[i] != child_ids[j]);
            }
            assert(!earlier.contains(last)) by {
                if earlier.contains(last) {
                    let i = choose|i: int| 0 <= i < earlier.len() && earlier[i] == last;
                    assert(child_ids[i] != child_ids[child_ids.len() - 1]);
                }
            }
        }
        if child_list_failure(child_ids) is None {
            assert forall|i: int| 0 <= i < child_ids.len() implies (
            #[trigger] child_ids[i]).len() > 0 by {
                if i < earlier.len() {
                    assert(earlier[i] == child_ids[i]);
                }
            }
            assert forall|i: int, j: int|
                0 <= i < j < child_ids.len() implies #[trigger] child_ids[i]
                != #[trigger] child_ids[j] by {
                assert(earlier[i] == child_ids[i]);
                if j < earlier.len() {
                    assert(earlier[j] == child_ids[j]);
                } else {
                    assert(earlier.contains(earlier[i]));
                }
            }
        }
    }
}

/// The launch intents of a list of child identities.
pub open spec fn pending_launches(child_ids: Seq<Seq<char>>) -> Seq<ChildView> {
    Seq::new(
        child_ids.len(),
        |i: int| ChildView { child_id: child_ids[i], state: LaunchView::Pending },
    )
}

impl WaitCondition {
    /// Creates an empty condition waiting for `expected_count` distinct child results.
    pub fn new(
        correlation_id: &str,
        policy: WaitPolicy,
        expected_count: u32,
        created_at: Timestamp,
        timeout: Duration,
    ) -> (result: Self)
        ensures
            result@ == (WaitView {
                correlation_id: correlation_id@,
                policy,
                expected_count,
                results: Seq::empty(),
                created_at: created_at@,
                timeout: timeout@,
                child_launches: Seq::empty(),
            }),
    {
        let results: Vec<WaitResult> = Vec::new();
        let child_launches: Vec<FlowChildLaunch> = Vec::new();
        assert(results.deep_view() =~= Seq::empty());
        assert(child_launches.deep_view() =~= Seq::empty());
        WaitCondition {
            correlation_id: correlation_id.to_owned(),
            policy,
            expected_count,
            results,
            created_at,
            timeout,
            child_launches,
        }
    }

    /// Creates a wait condition that launches exactly the supplied stable child identities.
    ///
    /// Child identities are persisted before launch. They must be unique, non-empty, and no more
    /// than [`MAX_WAIT_CHILDREN`].
    pub fn for_children(
        correlation_id: &str,
        policy: WaitPolicy,
        child_ids: Vec<String>,
        created_at: Timestamp,
        timeout: Duration,
    ) -> (result: CatgaResult<Self>)
        ensures
            match child_list_failure(child_ids.deep_view()) {
                Some(message) => result matches Err(failure) && failure@ == error::validation(
                    message,
                ),
                None => if child_ids@.len() == 0 {
                    result matches Err(failure) && failure@ == error::validation(
                        "a durable child wait requires at least one child identity"@,
                    )
                } else {
                    result matches Ok(wait) && wait@ == (WaitView {
                        correlation_id: correlation_id@,
                        policy,
                        expected_count: child_ids@.len() as u32,
                        results: Seq::empty(),
                        created_at: created_at@,
                        timeout: timeout@,
                        child_launches: pending_launches(child_ids.deep_view()),
                    }) && wait@.launches_valid() && child_ids@.len() <= MAX_WAIT_CHILDREN
                },
            },
            result is Ok <==> child_ids@.len() > 0 && is_child_list(child_ids.deep_view()),
    {
        let ghost ids = child_ids.deep_view();
        proof {
            lemma_child_list_accepted(ids);
        }
        let mut children: Vec<FlowChildLaunch> = Vec::new();
        let mut index: usize = 0;
        assert(ids.take(0) =~= Seq::empty());
        assert(children.deep_view() =~= pending_launches(ids.take(0)));
        while index < child_ids.len()
            invariant
                index <= child_ids@.len(),
                ids == child_ids.deep_view(),
                child_list_failure(ids.take(index as int)) is None,
                children.deep_view() == pending_launches(ids.take(index as int)),
                children@.len() == index,
                index <= MAX_WAIT_CHILDREN,
            decreases child_ids@.len() - index,
        {
            let child_id: &String = &child_ids[index];
            let ghost earlier = ids.take(index as int);
            let ghost longer = ids.take(index + 1);
            assert(longer.drop_last() =~= earlier);
            assert(longer.last() == child_id@);
            if child_id.as_str().is_empty() || contains_child(&children, child_id.as_str()) {
                proof {
                    if child_id@.len() != 0 {
                        let place = choose|i: int|
                            0 <= i < children.deep_view().len() && (
                            #[trigger] children.deep_view()[i]).child_id == child_id@;
                        assert(earlier[place] == child_id@);
                    }
                    lemma_child_list_failure_stays(ids, index + 1);
                }
                return Err(
                    CatgaError::new(
                        ErrorCode::Validation,
                        "flow child identities must be non-empty and unique",
                    ),
                );
            }
            proof {
                if earlier.contains(child_id@) {
                    let place = choose|i: int| 0 <= i < earlier.len() && earlier[i] == child_id@;
                    assert(children.deep_view()[place].child_id == child_id@);
                }
            }
            if children.len() == MAX_WAIT_CHILDREN {
                proof {
                    lemma_child_list_failure_stays(ids, index + 1);
                }
                return Err(
                    CatgaError::new(
                        ErrorCode::Validation,
                        "flow child wait exceeds the supported child limit",
                    ),
                );
            }
            let ghost before = children.deep_view();
            children.push(FlowChildLaunch::pending(child_id.as_str()));
            index = index + 1;
            assert forall|i: int| 0 <= i < longer.len() implies children.deep_view()[i]
                == pending_launches(longer)[i] by {
                if i < earlier.len() {
                    assert(children.deep_view()[i] == before[i]);
                    assert(before[i] == pending_launches(earlier)[i]);
                }
            }
            assert(children.deep_view() =~= pending_launches(longer));
        }
        assert(ids.take(index as int) =~= ids);
        if children.is_empty() {
            return Err(
                CatgaError::new(
                    ErrorCode::Validation,
                    "a durable child wait requires at least one child identity",
                ),
            );
        }
        let results: Vec<WaitResult> = Vec::new();
        assert(results.deep_view() =~= Seq::empty());
        Ok(
            WaitCondition {
                correlation_id: correlation_id.to_owned(),
                policy,
                expected_count: children.len() as u32,
                results,
                created_at,
                timeout,
                child_launches: children,
            },
        )
    }

    /// Returns the stable condition identity.
    pub fn correlation_id(&self) -> (result: &str)
        ensures
            result@ == self@.correlation_id,
    {
        self.correlation_id.as_str()
    }

    /// Returns the configured completion policy.
    pub fn policy(&self) -> (result: WaitPolicy)
        ensures
            result == self@.policy,
    {
        self.policy
    }

    /// Returns the number of distinct child results expected.
    pub fn expected_count(&self) -> (result: u32)
        ensures
            result == self@.expected_count,
    {
        self.expected_count
    }

    /// Returns the number of distinct child results recorded, as far as it can be counted.
    pub fn completed_count(&self) -> (result: u32)
        ensures
            result == if self@.results.len() <= u32::MAX {
                self@.results.len() as u32
            } else {
                u32::MAX
            },
    {
        if self.results.len() <= 4294967295 {
            self.results.len() as u32
        } else {
            u32::MAX
        }
    }

    /// Returns recorded child results in insertion order.
    pub fn results(&self) -> (result: &Vec<WaitResult>)
        ensures
            result.deep_view() == self@.results,
    {
        &self.results
    }

    /// Returns stable child launch intents, or none for an externally completed wait.
    pub fn child_launches(&self) -> (result: &Vec<FlowChildLaunch>)
        ensures
            result.deep_view() == self@.child_launches,
    {
        &self.child_launches
    }

    /// Returns when the condition was created.
    pub fn created_at(&self) -> (result: Timestamp)
        ensures
            result@ == self@.created_at,
    {
        self.created_at
    }

    /// Returns the maximum time child results may take.
    pub fn timeout(&self) -> (result: Duration)
        ensures
            result@ == self@.timeout,
    {
        self.timeout
    }

    /// Returns whether the condition is expired at `now`.
    pub fn is_expired_at(&self, now: Timestamp) -> (result: bool)
        ensures
            result == self@.is_expired_at(now@),
    {
        match now.duration_since(self.created_at) {
            Ok(elapsed) => elapsed.at_least(self.timeout),
            Err(_) => false,
        }
    }

    fn has_reported(&self, child_id: &str) -> (result: bool)
        ensures
            result == self@.has_reported(child_id@),
    {
        let child: String = child_id.to_owned();
        let mut index: usize = 0;
        while index < self.results.len()
            invariant
                index <= self.results@.len(),
                child@ == child_id@,
                forall|i: int|
                    0 <= i < index ==> (#[trigger] self@.results[i]).child_id != child_id@,
                self@.results == self.results.deep_view(),
            decreases self.results@.len() - index,
        {
            if self.results[index].child_id == child {
                assert(self@.results[index as int].child_id == child_id@);
                return true;
            }
            index = index + 1;
        }
        false
    }

    fn admits(&self, child_id: &str) -> (result: bool)
        ensures
            result == self@.admits(child_id@),
    {
        self.results.len() < MAX_WAIT_CHILDREN && self.results.len() < self.expected_count as usize
            && self.accepts_child(child_id) && !self.has_reported(child_id)
    }

    fn with_result(&self, result: WaitResult) -> (wait: Self)
        ensures
            wait@ == (WaitView { results: self@.results.push(result@), ..self@ }),
    {
        let mut wait: WaitCondition = self.clone();
        let ghost before = wait.results.deep_view();
        wait.results.push(result);
        assert(wait.results.deep_view() =~= before.push(result@));
        wait
    }

    /// Adds a successful child result unless the child has already reported.
    pub fn record_success(&self, child_id: &str, payload: Vec<u8>) -> (result: Self)
        ensures
            result@ == self@.record_success(child_id@, payload@),
    {
        if payload.len() > MAX_WAIT_RESULT_BYTES || !self.admits(child_id) {
            return self.clone();
        }
        self.with_result(WaitResult::success(child_id, payload))
    }

    /// Adds a failed child result unless the child has already reported.
    pub fn record_failure(&self, child_id: &str, error: CatgaError) -> (result: Self)
        ensures
            result@ == self@.record_failure(child_id@, error@),
    {
        if !self.admits(child_id) {
            return self.clone();
        }
        self.with_result(WaitResult::failure(child_id, error))
    }

    /// Returns whether this wait accepts a completion from `child_id`.
    ///
    /// Generic external waits created with [`Self::new`] accept any child identity. Durable child
    /// fan-out accepts only its persisted child identities.
    pub fn accepts_child(&self, child_id: &str) -> (result: bool)
        ensures
            result == self@.accepts_child(child_id@),
    {
        self.child_launches.is_empty() || contains_child(&self.child_launches, child_id)
    }

    /// Returns whether `payload_len` is safe to retain for this condition.
    pub fn accepts_payload_len(&self, payload_len: usize) -> (result: bool)
        ensures
            result == (payload_len <= MAX_WAIT_RESULT_BYTES),
    {
        payload_len <= MAX_WAIT_RESULT_BYTES
    }

    fn with_launch(&self, index: usize, state: FlowChildLaunchState) -> (wait: Self)
        requires
            index < self@.child_launches.len(),
        ensures
            wait@ == self@.with_launch(index as int, state@),
    {
        let mut wait: WaitCondition = self.clone();
        let ghost before = wait.child_launches.deep_view();
        assert(wait.child_launches.deep_view().len() == wait.child_launches@.len());
        assert(self.child_launches.deep_view().len() == self.child_launches@.len());
        let launch: FlowChildLaunch = wait.child_launches[index].with_state(state);
        wait.child_launches.set(index, launch);
        assert(wait.child_launches.deep_view() =~= before.update(index as int, launch@));
        wait
    }

    /// Claims the first launch that is pending or whose claim has expired.
    pub fn claim_next_child(&self, owner: &str, now: Timestamp, claim_for: Duration) -> (result:
        Option<(String, Self)>)
        ensures
            match (result, self@.claim_next_child(owner@, now@, claim_for@)) {
                (Some((child_id, wait)), Some((child, model))) => child_id@ == child && wait@
                    == model,
                (None, None) => true,
                _ => false,
            },
    {
        let expires_at: Timestamp = match now.checked_add(claim_for) {
            Some(expires_at) => expires_at,
            None => {
                return None;
            },
        };
        let ghost claimable = WaitView::claimable(now@);
        let mut index: usize = 0;
        while index < self.child_launches.len()
            invariant
                index <= self.child_launches@.len(),
                claimable == WaitView::claimable(now@),
                self@.child_launches == self.child_launches.deep_view(),
                forall|i: int| 0 <= i < index ==> !claimable(#[trigger] self@.child_launches[i]),
                expires_at@ == now@ + claim_for@,
                crate::time::valid_timestamp(expires_at@),
            decreases self.child_launches@.len() - index,
        {
            let open: bool = match &self.child_launches[index].state {
                FlowChildLaunchState::Pending => true,
                FlowChildLaunchState::Claimed { expires_at, .. } => !now.is_before(*expires_at),
                FlowChildLaunchState::Launched => false,
            };
            assert(open == claimable(self@.child_launches[index as int]));
            if open {
                proof {
                    search::lemma_first(
                        self@.child_launches,
                        claimable,
                        Some(index as int),
                    );
                }
                let child_id: String = self.child_launches[index].child_id.clone();
                let claim = FlowChildLaunchState::Claimed { owner: owner.to_owned(), expires_at };
                return Some((child_id, self.with_launch(index, claim)));
            }
            index = index + 1;
        }
        proof {
            search::lemma_first(self@.child_launches, claimable, None);
        }
        None
    }

    fn claim_index(&self, child_id: &str, owner: &str) -> (result: Option<usize>)
        ensures
            match (
                result,
                search::first_where(
                    self@.child_launches,
                    WaitView::claimed_by(child_id@, owner@),
                ),
            ) {
                (Some(index), Some(place)) => index == place && index < self@.child_launches.len(),
                (None, None) => true,
                _ => false,
            },
    {
        let child: String = child_id.to_owned();
        let holder: String = owner.to_owned();
        let ghost claimed = WaitView::claimed_by(child_id@, owner@);
        let mut index: usize = 0;
        while index < self.child_launches.len()
            invariant
                index <= self.child_launches@.len(),
                child@ == child_id@,
                holder@ == owner@,
                claimed == WaitView::claimed_by(child_id@, owner@),
                self@.child_launches == self.child_launches.deep_view(),
                forall|i: int| 0 <= i < index ==> !claimed(#[trigger] self@.child_launches[i]),
            decreases self.child_launches@.len() - index,
        {
            let held: bool = self.child_launches[index].child_id == child && match &self
                .child_launches[index].state {
                FlowChildLaunchState::Claimed { owner: current, .. } => *current == holder,
                _ => false,
            };
            assert(held == claimed(self@.child_launches[index as int]));
            if held {
                proof {
                    search::lemma_first(self@.child_launches, claimed, Some(index as int));
                }
                return Some(index);
            }
            index = index + 1;
        }
        proof {
            search::lemma_first(self@.child_launches, claimed, None);
        }
        None
    }

    /// Records that the launcher accepted a child that `owner` had claimed.
    pub fn mark_child_launched(&self, child_id: &str, owner: &str) -> (result: Option<Self>)
        ensures
            match (result, self@.end_claim(child_id@, owner@, LaunchView::Launched)) {
                (Some(wait), Some(model)) => wait@ == model,
                (None, None) => true,
                _ => false,
            },
    {
        match self.claim_index(child_id, owner) {
            Some(index) => Some(self.with_launch(index, FlowChildLaunchState::Launched)),
            None => None,
        }
    }

    /// Gives up the claim of `owner` on a child.
    pub fn release_child_claim(&self, child_id: &str, owner: &str) -> (result: Option<Self>)
        ensures
            match (result, self@.end_claim(child_id@, owner@, LaunchView::Pending)) {
                (Some(wait), Some(model)) => wait@ == model,
                (None, None) => true,
                _ => false,
            },
    {
        match self.claim_index(child_id, owner) {
            Some(index) => Some(self.with_launch(index, FlowChildLaunchState::Pending)),
            None => None,
        }
    }

    fn payloads_bounded(&self) -> (result: bool)
        ensures
            result == forall|i: int|
                0 <= i < self@.results.len() ==> (#[trigger] self@.results[i]).is_bounded(),
    {
        let mut index: usize = 0;
        while index < self.results.len()
            invariant
                index <= self.results@.len(),
                self@.results == self.results.deep_view(),
                forall|i: int|
                    0 <= i < index ==> (#[trigger] self@.results[i]).is_bounded(),
            decreases self.results@.len() - index,
        {
            match &self.results[index].payload {
                Some(payload) => {
                    if payload.len() > MAX_WAIT_RESULT_BYTES {
                        assert(self@.results[index as int].payload == Some(payload@));
                        return false;
                    }
                },
                None => {},
            }
            index = index + 1;
        }
        true
    }

    fn launches_distinct(&self) -> (result: bool)
        ensures
            result == ((forall|i: int|
                0 <= i < self@.child_launches.len() ==> (
                #[trigger] self@.child_launches[i]).child_id.len() > 0) && (forall|i: int, j: int|
                0 <= i < j < self@.child_launches.len() ==> (
                #[trigger] self@.child_launches[i]).child_id != (
                #[trigger] self@.child_launches[j]).child_id)),
    {
        let mut index: usize = 0;
        while index < self.child_launches.len()
            invariant
                index <= self.child_launches@.len(),
                self@.child_launches == self.child_launches.deep_view(),
                forall|i: int|
                    0 <= i < index ==> (#[trigger] self@.child_launches[i]).child_id.len() > 0,
                forall|i: int, j: int|
                    0 <= i < j < index ==> (#[trigger] self@.child_launches[i]).child_id != (
                    #[trigger] self@.child_launches[j]).child_id,
            decreases self.child_launches@.len() - index,
        {
            if self.child_launches[index].child_id.as_str().is_empty() {
                assert(self@.child_launches[index as int].child_id.len() == 0);
                return false;
            }
            let mut earlier: usize = 0;
            while earlier < index
                invariant
                    earlier <= index < self.child_launches@.len(),
                    self@.child_launches == self.child_launches.deep_view(),
                    forall|i: int|
                        0 <= i < earlier ==> (#[trigger] self@.child_launches[i]).child_id
                            != self@.child_launches[index as int].child_id,
                decreases index - earlier,
            {
                if self.child_launches[earlier].child_id == self.child_launches[index].child_id {
                    assert(self@.child_launches[earlier as int].child_id
                        == self@.child_launches[index as int].child_id);
                    return false;
                }
                earlier = earlier + 1;
            }
            index = index + 1;
        }
        true
    }

    /// Validates the durable wait identity, expected child count, and bounded payload shape.
    pub fn validate(&self) -> (result: CatgaResult<()>)
        ensures
            match result {
                Ok(_) => self@.valid(),
                Err(failure) => !self@.valid() && failure@ == self@.rejection(),
            },
    {
        assert(self@.results.len() == self.results@.len());
        assert(self@.child_launches.len() == self.child_launches@.len());
        if self.correlation_id.as_str().is_empty() || self.expected_count == 0
            || self.expected_count as usize > MAX_WAIT_CHILDREN || self.results.len()
            > MAX_WAIT_CHILDREN || self.results.len() > self.expected_count as usize
            || !self.payloads_bounded() {
            return Err(
                CatgaError::new(
                    ErrorCode::Validation,
                    "flow wait condition requires a correlation, at least one expected child, and supported bounds",
                ),
            );
        }
        if !self.child_launches.is_empty() && (self.child_launches.len() > MAX_WAIT_CHILDREN
            || self.child_launches.len() != self.expected_count as usize
            || !self.launches_distinct()) {
            return Err(
                CatgaError::new(ErrorCode::Validation, "flow child launch intents are invalid"),
            );
        }
        Ok(())
    }
}

fn contains_child(launches: &Vec<FlowChildLaunch>, child_id: &str) -> (result: bool)
    ensures
        result == exists|i: int|
            0 <= i < launches.deep_view().len() && (#[trigger] launches.deep_view()[i]).child_id
                == child_id@,
{
    let child: String = child_id.to_owned();
    let mut index: usize = 0;
    while index < launches.len()
        invariant
            index <= launches@.len(),
            child@ == child_id@,
            forall|i: int|
                0 <= i < index ==> (#[trigger] launches.deep_view()[i]).child_id != child_id@,
        decreases launches@.len() - index,
    {
        if launches[index].child_id == child {
            assert(launches.deep_view()[index as int].child_id == child_id@);
            return true;
        }
        index = index + 1;
    }
    false
}

/// The number of a wait policy in a durable record.
pub open spec fn wait_policy_number(value: WaitPolicy) -> u8 {
    match value {
        WaitPolicy::All => 0,
        WaitPolicy::Any => 1,
    }
}

/// Converts a wait policy to its number.
pub fn encode_wait_policy(value: WaitPolicy) -> (result: u8)
    ensures
        result == wait_policy_number(value),
{
    match value {
        WaitPolicy::All => 0,
        WaitPolicy::Any => 1,
    }
}

/// Converts a number to its wait policy; an unknown number is the failure's text.
pub fn decode_wait_policy(value: u8) -> (result: Result<WaitPolicy, String>)
    ensures
        match result {
            Ok(policy) => wait_policy_number(policy) == value,
            Err(message) => value > 1 && message@ == "invalid wait policy: "@ + text::decimal(
                value as nat,
            ),
        },
{
    match value {
        0 => Ok(WaitPolicy::All),
        1 => Ok(WaitPolicy::Any),
        other => Err(join("invalid wait policy: ", decimal_text(other as u64).as_str())),
    }
}

/// A recorded result counts once: a later result of the same child changes nothing.
pub proof fn lemma_duplicate_result_ignored(wait: WaitView, first: ResultView, second: ResultView)
    requires
        wait.admits(first.child_id),
        second.child_id == first.child_id,
    ensures
        wait.record(first).record(second) == wait.record(first),
{
    let recorded = wait.record(first);
    assert(recorded.results[wait.results.len() as int].child_id == first.child_id);
}

/// A wait whose children are known retains no result of any other child.
pub proof fn lemma_unknown_child_ignored(wait: WaitView, result: ResultView)
    requires
        wait.child_launches.len() > 0,
        !wait.names_child(result.child_id),
    ensures
        wait.record(result) == wait,
{
}

/// A valid wait stays valid whatever is recorded.
pub proof fn lemma_record_keeps_valid(wait: WaitView, result: ResultView)
    requires
        wait.valid(),
        result.is_bounded(),
    ensures
        wait.record(result).valid(),
{
    let recorded = wait.record(result);
    assert forall|i: int| 0 <= i < recorded.results.len() implies (
    #[trigger] recorded.results[i]).is_bounded() by {
        if i < wait.results.len() {
            assert(wait.results[i].is_bounded());
        }
    }
}

/// A valid wait stays valid however its launches are claimed and finished.
pub proof fn lemma_launch_keeps_valid(wait: WaitView, place: int, launch: LaunchView)
    requires
        wait.valid(),
        0 <= place < wait.child_launches.len(),
    ensures
        wait.with_launch(place, launch).valid(),
{
    let changed = wait.with_launch(place, launch);
    assert forall|i: int| 0 <= i < changed.child_launches.len() implies (
    #[trigger] changed.child_launches[i]).child_id == wait.child_launches[i].child_id by {}
}

/// A fresh claim is released to exactly the wait before it, where the launch was pending.
pub proof fn lemma_claim_then_release(
    wait: WaitView,
    owner: Seq<char>,
    now: int,
    claim_for: int,
)
    requires
        wait.launches_valid(),
        wait.claim_next_child(owner, now, claim_for) is Some,
        search::first_where(wait.child_launches, WaitView::claimable(now)) matches Some(place)
            && wait.child_launches[place].state is Pending,
    ensures
        ({
            let (child, claimed) = wait.claim_next_child(owner, now, claim_for)->0;
            claimed.end_claim(child, owner, LaunchView::Pending) == Some(wait)
        }),
{
    let place = search::first_where(wait.child_launches, WaitView::claimable(now))->0;
    search::lemma_first(wait.child_launches, WaitView::claimable(now), Some(place));
    let (child, claimed) = wait.claim_next_child(owner, now, claim_for)->0;
    let held = WaitView::claimed_by(child, owner);
    assert forall|i: int| 0 <= i < place implies !#[trigger] held(claimed.child_launches[i]) by {
        assert(claimed.child_launches[i] == wait.child_launches[i]);
        assert(wait.child_launches[i].child_id != wait.child_launches[place].child_id);
    }
    assert(held(claimed.child_launches[place]));
    search::lemma_first(claimed.child_launches, held, Some(place));
    let released = claimed.with_launch(place, LaunchView::Pending);
    assert(released.child_launches =~= wait.child_launches);
}

/// A result is its child, its payload and its failure.
impl Record for WaitResult {
    open spec fn fits(value: ResultView) -> bool {
        <(String, (Option<Vec<u8>>, Option<CatgaError>)) as Record>::fits(
            (value.child_id, (value.payload, value.error)),
        )
    }

    open spec fn valid(value: ResultView) -> bool {
        true
    }

    open spec fn layout(value: ResultView) -> Seq<u8> {
        <(String, (Option<Vec<u8>>, Option<CatgaError>)) as Record>::layout(
            (value.child_id, (value.payload, value.error)),
        )
    }

    open spec fn parse(bytes: Seq<u8>, at: int) -> Option<(ResultView, int)> {
        match <(String, (Option<Vec<u8>>, Option<CatgaError>)) as Record>::parse(bytes, at) {
            Some(((child_id, (payload, error)), next)) => Some(
                (ResultView { child_id, payload, error }, next),
            ),
            None => None,
        }
    }

    proof fn lemma_round_trip(value: ResultView, bytes: Seq<u8>, at: int) {
        <(String, (Option<Vec<u8>>, Option<CatgaError>)) as Record>::lemma_round_trip(
            (value.child_id, (value.payload, value.error)),
            bytes,
            at,
        );
    }

    proof fn lemma_progress(bytes: Seq<u8>, at: int) {
        <(String, (Option<Vec<u8>>, Option<CatgaError>)) as Record>::lemma_progress(bytes, at);
    }

    fn write(&self, out: &mut Vec<u8>) -> (written: bool) {
        let copy: WaitResult = self.clone();
        proof {
            if copy.payload is Some {
                assert(copy.payload->0.deep_view() =~= copy.payload->0@);
            }
        }
        (copy.child_id, (copy.payload, copy.error)).write(out)
    }

    fn read(bytes: &[u8], at: usize) -> (result: Option<(Self, usize)>) {
        match <(String, (Option<Vec<u8>>, Option<CatgaError>)) as Record>::read(bytes, at) {
            Some(((child_id, (payload, error)), next)) => {
                proof {
                    if payload is Some {
                        assert(payload->0.deep_view() =~= payload->0@);
                    }
                }
                Some((WaitResult { child_id, payload, error }, next))
            },
            None => None,
        }
    }
}

/// The fields of a launch intent, in their order.
pub type LaunchFields = (String, (u8, (Option<String>, Option<Timestamp>)));

/// The fields of a modelled launch intent: a claim is number 1 with its owner and deadline.
pub open spec fn launch_fields(value: ChildView) -> (
    Seq<char>,
    (u8, (Option<Seq<char>>, Option<int>)),
) {
    match value.state {
        LaunchView::Pending => (value.child_id, (0u8, (None, None))),
        LaunchView::Claimed { owner, expires_at } => (
            value.child_id,
            (1u8, (Some(owner), Some(expires_at))),
        ),
        LaunchView::Launched => (value.child_id, (2u8, (None, None))),
    }
}

/// The launch intent with these fields, where there is one.
pub open spec fn launch_from_fields(
    fields: (Seq<char>, (u8, (Option<Seq<char>>, Option<int>))),
) -> Option<ChildView> {
    let (child_id, (number, (owner, expires_at))) = fields;
    match (owner, expires_at) {
        (None, None) => if number == 0 {
            Some(ChildView { child_id, state: LaunchView::Pending })
        } else if number == 2 {
            Some(ChildView { child_id, state: LaunchView::Launched })
        } else {
            None
        },
        (Some(owner), Some(expires_at)) => if number == 1 {
            Some(ChildView { child_id, state: LaunchView::Claimed { owner, expires_at } })
        } else {
            None
        },
        _ => None,
    }
}

/// A launch intent is its child, the number of its state, and the claim's owner and deadline.
impl Record for FlowChildLaunch {
    open spec fn fits(value: ChildView) -> bool {
        <LaunchFields as Record>::fits(launch_fields(value))
    }

    open spec fn valid(value: ChildView) -> bool {
        true
    }

    open spec fn layout(value: ChildView) -> Seq<u8> {
        <LaunchFields as Record>::layout(launch_fields(value))
    }

    open spec fn parse(bytes: Seq<u8>, at: int) -> Option<(ChildView, int)> {
        match <LaunchFields as Record>::parse(bytes, at) {
            Some((fields, next)) => match launch_from_fields(fields) {
                Some(launch) => Some((launch, next)),
                None => None,
            },
            None => None,
        }
    }

    proof fn lemma_round_trip(value: ChildView, bytes: Seq<u8>, at: int) {
        <LaunchFields as Record>::lemma_round_trip(launch_fields(value), bytes, at);
    }

    proof fn lemma_progress(bytes: Seq<u8>, at: int) {
        <LaunchFields as Record>::lemma_progress(bytes, at);
    }

    fn write(&self, out: &mut Vec<u8>) -> (written: bool) {
        let fields: LaunchFields = match &self.state {
            FlowChildLaunchState::Pending => (self.child_id.clone(), (0, (None, None))),
            FlowChildLaunchState::Claimed { owner, expires_at } => (
                self.child_id.clone(),
                (1, (Some(owner.clone()), Some(*expires_at))),
            ),
            FlowChildLaunchState::Launched => (self.child_id.clone(), (2, (None, None))),
        };
        assert(fields.deep_view() == launch_fields(self@));
        fields.write(out)
    }

    fn read(bytes: &[u8], at: usize) -> (result: Option<(Self, usize)>) {
        match <LaunchFields as Record>::read(bytes, at) {
            Some(((child_id, (number, (owner, expires_at))), next)) => {
                let state: FlowChildLaunchState = match (number, owner, expires_at) {
                    (0, None, None) => FlowChildLaunchState::Pending,
                    (1, Some(owner), Some(expires_at)) => FlowChildLaunchState::Claimed {
                        owner,
                        expires_at,
                    },
                    (2, None, None) => FlowChildLaunchState::Launched,
                    _ => {
                        return None;
                    },
                };
                Some((FlowChildLaunch { child_id, state }, next))
            },
            None => None,
        }
    }
}

/// The fields of a wait condition, in their order.
pub type WaitFields = (
    (String, (u8, u32)),
    (Vec<WaitResult>, (Timestamp, (Duration, Vec<FlowChildLaunch>))),
);

/// The fields of a modelled wait condition.
pub open spec fn wait_fields(value: WaitView) -> (
    (Seq<char>, (u8, u32)),
    (Seq<ResultView>, (int, (int, Seq<ChildView>))),
) {
    (
        (value.correlation_id, (wait_policy_number(value.policy), value.expected_count)),
        (value.results, (value.created_at, (value.timeout, value.child_launches))),
    )
}

/// A wait condition is its fields in order; a reader rejects an invalid one.
impl Record for WaitCondition {
    open spec fn fits(value: WaitView) -> bool {
        <WaitFields as Record>::fits(wait_fields(value))
    }

    open spec fn valid(value: WaitView) -> bool {
        value.valid()
    }

    open spec fn layout(value: WaitView) -> Seq<u8> {
        <WaitFields as Record>::layout(wait_fields(value))
    }

    open spec fn parse(bytes: Seq<u8>, at: int) -> Option<(WaitView, int)> {
        match <WaitFields as Record>::parse(bytes, at) {
            Some((fields, next)) => {
                let ((correlation_id, (number, expected_count)), rest) = fields;
                let (results, (created_at, (timeout, child_launches))) = rest;
                let policy = if number == 0 {
                    WaitPolicy::All
                } else {
                    WaitPolicy::Any
                };
                let wait = WaitView {
                    correlation_id,
                    policy,
                    expected_count,
                    results,
                    created_at,
                    timeout,
                    child_launches,
                };
                if number <= 1 && wait.valid() {
                    Some((wait, next))
                } else {
                    None
                }
            },
            None => None,
        }
    }

    proof fn lemma_round_trip(value: WaitView, bytes: Seq<u8>, at: int) {
        <WaitFields as Record>::lemma_round_trip(wait_fields(value), bytes, at);
    }

    proof fn lemma_progress(bytes: Seq<u8>, at: int) {
        <WaitFields as Record>::lemma_progress(bytes, at);
    }

    fn write(&self, out: &mut Vec<u8>) -> (written: bool) {
        let copy: WaitCondition = self.clone();
        let fields: WaitFields = (
            (copy.correlation_id, (encode_wait_policy(copy.policy), copy.expected_count)),
            (copy.results, (copy.created_at, (copy.timeout, copy.child_launches))),
        );
        assert(fields.deep_view() == wait_fields(self@));
        fields.write(out)
    }

    fn read(bytes: &[u8], at: usize) -> (result: Option<(Self, usize)>) {
        match <WaitFields as Record>::read(bytes, at) {
            Some((fields, next)) => {
                let ((correlation_id, (number, expected_count)), rest) = fields;
                let (results, (created_at, (timeout, child_launches))) = rest;
                let policy: WaitPolicy = match decode_wait_policy(number) {
                    Ok(policy) => policy,
                    Err(_) => {
                        return None;
                    },
                };
                let wait = WaitCondition {
                    correlation_id,
                    policy,
                    expected_count,
                    results,
                    created_at,
                    timeout,
                    child_launches,
                };
                match wait.validate() {
                    Ok(_) => Some((wait, next)),
                    Err(_) => None,
                }
            },
            None => None,
        }
    }
}

} // verus!
