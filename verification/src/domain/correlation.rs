//! The result of correlating a trace: summary, request-to-action links,
//! flows per route, the timeline and the causal graph.
use vstd::prelude::*;

use crate::domain::event::{RequestClassification, UserActionType};
use crate::domain::graph::TraceGraph;
use crate::order::SortKey;
use crate::text::{views, chars_lt, lemma_chars_lt_asymmetric, lemma_chars_lt_total, lemma_chars_lt_transitive, lemma_chars_lt_irreflexive, str_less};

verus! {

#[derive(Debug, Clone, PartialEq)]
pub struct CorrelatedTrace {
    pub session_id: String,
    pub total_events: usize,
    pub summary: SessionSummary,
    pub correlations: Vec<RequestCorrelation>,
    pub route_flows: Vec<RouteFlow>,
    pub timeline: Vec<TimelineItem>,
    pub graph: TraceGraph,
}

#[derive(Debug, Clone, PartialEq)]
pub struct SessionSummary {
    pub initial_url: Option<String>,
    pub started_at_unix_ms: Option<i64>,
    pub ended_at_unix_ms: Option<i64>,
    pub duration_ms: i64,
    pub navigation_count: usize,
    pub action_count: usize,
    pub request_count: usize,
    pub endpoint_count: usize,
}

/// A request and the action it is attributed to, if any. `confidence_bits`
/// is the IEEE-754 single-precision bit pattern of the confidence in [0, 1]:
/// the library carries it and never computes with it.
#[derive(Debug, Clone, PartialEq)]
pub struct RequestCorrelation {
    pub request_id: String,
    pub method: String,
    pub request_url: String,
    pub route: Option<String>,
    pub endpoint: String,
    pub request_ts_unix_ms: i64,
    pub classification: RequestClassification,
    pub action_id: Option<String>,
    pub action_type: Option<UserActionType>,
    pub confidence_bits: u32,
    pub evidence: Vec<String>,
}

#[derive(Debug, Clone, PartialEq)]
pub struct RouteFlow {
    pub route: String,
    pub actions: Vec<ActionFlow>,
}

#[derive(Debug, Clone, PartialEq)]
pub struct ActionFlow {
    pub action_id: String,
    pub action_type: UserActionType,
    pub action_label: String,
    pub request_ids: Vec<String>,
}

/// One row of the session timeline. `raw_event`, when present, is the JSON
/// text of the event the row was made from.
#[derive(Debug, Clone, PartialEq)]
pub struct TimelineItem {
    pub ts_unix_ms: i64,
    pub event_type: String,
    pub route: Option<String>,
    pub action_id: Option<String>,
    pub request_id: Option<String>,
    pub description: String,
    pub raw_event: Option<String>,
}

/// An action flow as plain values.
pub struct ActionFlowView {
    pub action_id: Seq<char>,
    pub action_type: UserActionType,
    pub action_label: Seq<char>,
    pub request_ids: Seq<Seq<char>>,
}

impl View for ActionFlow {
    type V = ActionFlowView;

    open spec fn view(&self) -> ActionFlowView {
        ActionFlowView {
            action_id: self.action_id@,
            action_type: self.action_type,
            action_label: self.action_label@,
            request_ids: views(self.request_ids@),
        }
    }
}

pub open spec fn flow_view_fn() -> spec_fn(ActionFlow) -> ActionFlowView {
    |a: ActionFlow| a@
}

/// The views of a sequence of action flows.
pub open spec fn flow_views(s: Seq<ActionFlow>) -> Seq<ActionFlowView> {
    s.map_values(flow_view_fn())
}

/// Action flows ordered by action id, in the order of `str`.
pub open spec fn flow_order() -> spec_fn(ActionFlowView, ActionFlowView) -> bool {
    |a: ActionFlowView, b: ActionFlowView| chars_lt(a.action_id, b.action_id)
}

impl SortKey for ActionFlow {
    open spec fn key_before(&self, other: &Self) -> bool {
        chars_lt(self.action_id@, other.action_id@)
    }

    proof fn lemma_key_before_asymmetric(a: &Self, b: &Self) {
        lemma_chars_lt_asymmetric(a.action_id@, b.action_id@);
    }

    proof fn lemma_key_before_splits(a: &Self, b: &Self, c: &Self) {
        lemma_chars_lt_total(a.action_id@, b.action_id@);
        lemma_chars_lt_total(b.action_id@, c.action_id@);
        lemma_chars_lt_irreflexive(a.action_id@);
        if chars_lt(b.action_id@, a.action_id@) {
            if !chars_lt(b.action_id@, c.action_id@) {
                lemma_chars_lt_transitive(b.action_id@, a.action_id@, c.action_id@);
            }
        }
    }

    fn before(&self, other: &Self) -> (r: bool) {
        str_less(self.action_id.as_str(), other.action_id.as_str())
    }
}

impl SortKey for RouteFlow {
    open spec fn key_before(&self, other: &Self) -> bool {
        chars_lt(self.route@, other.route@)
    }

    proof fn lemma_key_before_asymmetric(a: &Self, b: &Self) {
        lemma_chars_lt_asymmetric(a.route@, b.route@);
    }

    proof fn lemma_key_before_splits(a: &Self, b: &Self, c: &Self) {
        lemma_chars_lt_total(a.route@, b.route@);
        lemma_chars_lt_total(b.route@, c.route@);
        lemma_chars_lt_irreflexive(a.route@);
        if chars_lt(b.route@, a.route@) {
            if !chars_lt(b.route@, c.route@) {
                lemma_chars_lt_transitive(b.route@, a.route@, c.route@);
            }
        }
    }

    fn before(&self, other: &Self) -> (r: bool) {
        str_less(self.route.as_str(), other.route.as_str())
    }
}

} // verus!
