//! Bounded discovery of durable flow continuations.

use vstd::prelude::*;

use crate::continuation;
use crate::continuation::FlowContinuation;
use crate::error;
use crate::error::{CatgaError, CatgaResult, ErrorCode};
use crate::state::FlowStatus;
use crate::text::same_text;
use crate::time::Timestamp;

verus! {

/// The maximum number of continuation summaries a query may return.
pub const MAX_FLOW_QUERY_RESULTS: usize = 1000;

/// The maximum number of continuation records a query may inspect.
pub const MAX_FLOW_QUERY_SCAN: usize = 10000;

/// A compact discovery record that does not expose a flow's input or wait-result payloads.
#[derive(Debug)]
pub struct FlowSummary {
    id: String,
    flow_type: String,
    status: FlowStatus,
    version: i64,
    created_at: Timestamp,
    updated_at: Timestamp,
}

/// Mathematical model of a [`FlowSummary`].
pub struct SummaryView {
    pub id: Seq<char>,
    pub flow_type: Seq<char>,
    pub status: FlowStatus,
    pub version: i64,
    pub created_at: int,
    pub updated_at: int,
}

impl View for FlowSummary {
    type V = SummaryView;

    closed spec fn view(&self) -> SummaryView {
        SummaryView {
            id: self.id@,
            flow_type: self.flow_type@,
            status: self.status,
            version: self.version,
            created_at: self.created_at@,
            updated_at: self.updated_at@,
        }
    }
}

/// What a summary keeps of a continuation.
pub open spec fn summary_of(value: continuation::ContinuationView) -> SummaryView {
    SummaryView {
        id: value.state.id,
        flow_type: value.state.flow_type,
        status: value.state.status,
        version: value.state.version,
        created_at: value.created_at,
        updated_at: value.updated_at,
    }
}

impl FlowSummary {
    /// Creates a summary from already validated persistence columns.
    pub fn new(
        id: &str,
        flow_type: &str,
        status: FlowStatus,
        version: i64,
        created_at: Timestamp,
    ) -> (result: Self)
        ensures
            result@ == (SummaryView {
                id: id@,
                flow_type: flow_type@,
                status,
                version,
                created_at: created_at@,
                updated_at: created_at@,
            }),
    {
        FlowSummary {
            id: id.to_owned(),
            flow_type: flow_type.to_owned(),
            status,
            version,
            created_at,
            updated_at: created_at,
        }
    }

    /// Creates a summary from a durable continuation.
    pub fn from_continuation(value: &FlowContinuation) -> (result: Self)
        ensures
            result@ == summary_of(value@),
    {
        FlowSummary::new(
            value.state().id(),
            value.state().flow_type(),
            value.state().status(),
            value.state().version(),
            value.created_at(),
        ).with_updated_at(value.updated_at())
    }

    /// Returns the stable flow identity.
    pub fn id(&self) -> (result: &str)
        ensures
            result@ == self@.id,
    {
        self.id.as_str()
    }

    /// Returns the flow definition type.
    pub fn flow_type(&self) -> (result: &str)
        ensures
            result@ == self@.flow_type,
    {
        self.flow_type.as_str()
    }

    /// Returns the current lifecycle status.
    pub fn status(&self) -> (result: FlowStatus)
        ensures
            result == self@.status,
    {
        self.status
    }

    /// Returns the current optimistic-concurrency version.
    pub fn version(&self) -> (result: i64)
        ensures
            result == self@.version,
    {
        self.version
    }

    /// Returns when the durable continuation was created.
    pub fn created_at(&self) -> (result: Timestamp)
        ensures
            result@ == self@.created_at,
    {
        self.created_at
    }

    /// Returns when the durable continuation was last successfully changed.
    pub fn updated_at(&self) -> (result: Timestamp)
        ensures
            result@ == self@.updated_at,
    {
        self.updated_at
    }

    /// Sets the timestamp of the last successful durable change.
    #[must_use]
    pub fn with_updated_at(self, updated_at: Timestamp) -> (result: Self)
        ensures
            result@ == (SummaryView { updated_at: updated_at@, ..self@ }),
    {
        FlowSummary { updated_at, ..self }
    }
}

/// Bounded filters for discovery of durable flow continuations.
#[derive(Debug)]
pub struct FlowQuery {
    max_results: usize,
    max_scan: usize,
    status: Option<FlowStatus>,
    flow_type: Option<String>,
    created_at: Option<(Timestamp, Timestamp)>,
}

/// Mathematical model of a [`FlowQuery`].
pub struct QueryView {
    pub max_results: usize,
    pub max_scan: usize,
    pub status: Option<FlowStatus>,
    pub flow_type: Option<Seq<char>>,
    pub created_at: Option<(int, int)>,
}

impl View for FlowQuery {
    type V = QueryView;

    closed spec fn view(&self) -> QueryView {
        QueryView {
            max_results: self.max_results,
            max_scan: self.max_scan,
            status: self.status,
            flow_type: error::text_option(self.flow_type),
            created_at: match self.created_at {
                Some((start, end)) => Some((start@, end@)),
                None => None,
            },
        }
    }
}

/// Whether query limits are positive, ordered and within the supported bounds.
pub open spec fn query_limits_valid(max_results: usize, max_scan: usize) -> bool {
    0 < max_results <= max_scan && max_results <= MAX_FLOW_QUERY_RESULTS && max_scan
        <= MAX_FLOW_QUERY_SCAN
}

/// The rejection of query limits.
pub open spec fn query_rejected() -> error::ErrorView {
    error::validation(
        "flow query limits must be positive, ordered, and within supported bounds"@,
    )
}

impl QueryView {
    /// Whether every configured filter accepts a record.
    pub open spec fn matches(
        self,
        status: FlowStatus,
        flow_type: Seq<char>,
        created_at: int,
    ) -> bool {
        &&& self.status is None || self.status == Some(status)
        &&& self.flow_type is None || self.flow_type == Some(flow_type)
        &&& match self.created_at {
            Some((start, end)) => start <= created_at < end,
            None => true,
        }
    }
}

impl FlowQuery {
    /// Creates a query with explicit result and scan limits.
    pub fn new(max_results: usize, max_scan: usize) -> (result: CatgaResult<Self>)
        ensures
            match result {
                Ok(query) => query_limits_valid(max_results, max_scan) && query@ == (QueryView {
                    max_results,
                    max_scan,
                    status: None,
                    flow_type: None,
                    created_at: None,
                }),
                Err(failure) => !query_limits_valid(max_results, max_scan) && failure@
                    == query_rejected(),
            },
    {
        if max_results == 0 || max_scan == 0 || max_results > max_scan || max_results
            > MAX_FLOW_QUERY_RESULTS || max_scan > MAX_FLOW_QUERY_SCAN {
            return Err(
                CatgaError::new(
                    ErrorCode::Validation,
                    "flow query limits must be positive, ordered, and within supported bounds",
                ),
            );
        }
        Ok(FlowQuery { max_results, max_scan, status: None, flow_type: None, created_at: None })
    }

    /// Filters continuations by their current lifecycle status.
    pub fn with_status(self, status: FlowStatus) -> (result: Self)
        ensures
            result@ == (QueryView { status: Some(status), ..self@ }),
    {
        FlowQuery { status: Some(status), ..self }
    }

    /// Filters continuations by their registered flow type.
    pub fn with_flow_type(self, flow_type: &str) -> (result: Self)
        ensures
            result@ == (QueryView { flow_type: Some(flow_type@), ..self@ }),
    {
        FlowQuery { flow_type: Some(flow_type.to_owned()), ..self }
    }

    /// Filters continuations by a half-open creation-time range `[start, end)`.
    pub fn created_between(self, start: Timestamp, end: Timestamp) -> (result: CatgaResult<Self>)
        ensures
            match result {
                Ok(query) => start@ < end@ && query@ == (QueryView {
                    created_at: Some((start@, end@)),
                    ..self@
                }),
                Err(failure) => start@ >= end@ && failure@ == error::validation(
                    "flow query creation range must have a start before its end"@,
                ),
            },
    {
        if !start.is_before(end) {
            return Err(
                CatgaError::new(
                    ErrorCode::Validation,
                    "flow query creation range must have a start before its end",
                ),
            );
        }
        Ok(FlowQuery { created_at: Some((start, end)), ..self })
    }

    fn accepts(&self, status: FlowStatus, flow_type: &str, created_at: Timestamp) -> (result: bool)
        ensures
            result == self@.matches(status, flow_type@, created_at@),
    {
        let status_matches: bool = match self.status {
            Some(wanted) => wanted == status,
            None => true,
        };
        let type_matches: bool = match &self.flow_type {
            Some(wanted) => same_text(wanted.as_str(), flow_type),
            None => true,
        };
        let time_matches: bool = match self.created_at {
            Some((start, end)) => !created_at.is_before(start) && created_at.is_before(end),
            None => true,
        };
        status_matches && type_matches && time_matches
    }

    /// Returns whether a continuation matches every configured filter.
    pub fn matches(&self, value: &FlowContinuation) -> (result: bool)
        ensures
            result == self@.matches(value@.state.status, value@.state.flow_type, value@.created_at),
    {
        self.accepts(value.state().status(), value.state().flow_type(), value.created_at())
    }

    /// Returns whether an already compacted summary matches every configured filter.
    pub fn matches_summary(&self, summary: &FlowSummary) -> (result: bool)
        ensures
            result == self@.matches(summary@.status, summary@.flow_type, summary@.created_at),
    {
        self.accepts(summary.status(), summary.flow_type(), summary.created_at())
    }

    /// Returns the maximum number of summaries to return.
    pub fn max_results(&self) -> (result: usize)
        ensures
            result == self@.max_results,
    {
        self.max_results
    }

    /// Returns the maximum number of continuations to inspect.
    pub fn max_scan(&self) -> (result: usize)
        ensures
            result == self@.max_scan,
    {
        self.max_scan
    }
}

/// A query accepts a continuation exactly where it accepts its summary.
pub proof fn lemma_summary_matches_continuation(
    query: QueryView,
    value: continuation::ContinuationView,
)
    ensures
        query.matches(value.state.status, value.state.flow_type, value.created_at)
            == query.matches(
            summary_of(value).status,
            summary_of(value).flow_type,
            summary_of(value).created_at,
        ),
{
}

/// A query finds a flow exactly where each of its conditions holds: the status and the type are those
/// that it asks for, where it asks, and the flow was created in its range, with the start and without
/// the end. Its limits are positive and ordered, at most 1000 flows out of 10000.
pub proof fn lemma_queries_ask_for_all_their_conditions(
    query: QueryView,
    status: FlowStatus,
    flow_type: Seq<char>,
    created_at: int,
    max_results: usize,
    max_scan: usize,
)
    ensures
        query.matches(status, flow_type, created_at) <==> {
            &&& query.status matches Some(wanted) ==> wanted == status
            &&& query.flow_type matches Some(wanted) ==> wanted == flow_type
            &&& query.created_at matches Some((first, last)) ==> first <= created_at && created_at
                < last
        },
        query_limits_valid(max_results, max_scan) <==> 1 <= max_results && max_results <= max_scan
            && max_results <= 1000 && max_scan <= 10000,
{
}

/// The summary of a flow holds its identity, its type, its status, its version and its times.
pub proof fn lemma_summaries_describe_their_flow(value: continuation::ContinuationView)
    ensures
        summary_of(value).id == value.state.id,
        summary_of(value).flow_type == value.state.flow_type,
        summary_of(value).status == value.state.status,
        summary_of(value).version == value.state.version,
        summary_of(value).created_at == value.created_at,
        summary_of(value).updated_at == value.updated_at,
{
}

} // verus!
