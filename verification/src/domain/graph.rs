//! The causal graph of a session: routes, actions, requests and backend
//! endpoints, and the edges that relate them.
use vstd::prelude::*;

use crate::domain::event::{RequestClassification, UserActionType};
use crate::text::{opt_view, views};

verus! {

#[derive(Debug, Clone, PartialEq)]
pub struct TraceGraph {
    pub nodes: Vec<TraceNode>,
    pub edges: Vec<TraceEdge>,
}

impl Default for TraceGraph {
    /// The graph with no nodes and no edges.
    fn default() -> (g: Self)
        ensures
            g.nodes@.len() == 0,
            g.edges@.len() == 0,
    {
        TraceGraph { nodes: Vec::new(), edges: Vec::new() }
    }
}

#[derive(Debug, Clone, PartialEq)]
pub enum TraceNode {
    Route(RouteNode),
    Action(ActionNode),
    Request(RequestNode),
    BackendEndpoint(BackendEndpointNode),
}

#[derive(Debug, Clone, PartialEq)]
pub struct RouteNode {
    pub id: String,
    pub route: String,
}

#[derive(Debug, Clone, PartialEq)]
pub struct ActionNode {
    pub id: String,
    pub action_id: String,
    pub action_type: UserActionType,
    pub label: String,
    pub route: Option<String>,
    pub ts_unix_ms: i64,
}

#[derive(Debug, Clone, PartialEq)]
pub struct RequestNode {
    pub id: String,
    pub request_id: String,
    pub method: String,
    pub url: String,
    pub route: Option<String>,
    pub classification: RequestClassification,
    pub ts_unix_ms: i64,
}

#[derive(Debug, Clone, PartialEq)]
pub struct BackendEndpointNode {
    pub id: String,
    pub endpoint: String,
}

/// An edge between two node ids. `confidence_bits` is the IEEE-754
/// single-precision bit pattern of the edge's confidence.
#[derive(Debug, Clone, PartialEq)]
pub struct TraceEdge {
    pub from: String,
    pub to: String,
    pub relation: EdgeRelation,
    pub confidence_bits: u32,
    pub evidence: Vec<String>,
}

#[derive(Debug, Clone, Copy, PartialEq, Eq, Structural)]
pub enum EdgeRelation {
    OccurredOnRoute,
    Triggered,
    CorrelatesTo,
    ConsumesEndpoint,
    FollowedBy,
}

/// Bit pattern of the confidence 1.0.
pub const CONFIDENCE_ONE_BITS: u32 = 0x3F80_0000;

/// Bit pattern of the confidence 0.6.
pub const CONFIDENCE_ROUTE_REQUEST_BITS: u32 = 0x3F19_999A;

/// Bit pattern of the confidence 0.8.
pub const CONFIDENCE_FOLLOWED_BY_BITS: u32 = 0x3F4C_CCCD;

/// Bit pattern of the confidence 0.0.
pub const CONFIDENCE_ZERO_BITS: u32 = 0;

/// A node as plain values.
pub enum NodeView {
    Route { id: Seq<char>, route: Seq<char> },
    Action {
        id: Seq<char>,
        action_id: Seq<char>,
        action_type: UserActionType,
        label: Seq<char>,
        route: Option<Seq<char>>,
        ts_unix_ms: i64,
    },
    Request {
        id: Seq<char>,
        request_id: Seq<char>,
        method: Seq<char>,
        url: Seq<char>,
        route: Option<Seq<char>>,
        classification: RequestClassification,
        ts_unix_ms: i64,
    },
    BackendEndpoint { id: Seq<char>, endpoint: Seq<char> },
}

impl NodeView {
    pub open spec fn id(self) -> Seq<char> {
        match self {
            NodeView::Route { id, .. } => id,
            NodeView::Action { id, .. } => id,
            NodeView::Request { id, .. } => id,
            NodeView::BackendEndpoint { id, .. } => id,
        }
    }
}

impl View for TraceNode {
    type V = NodeView;

    open spec fn view(&self) -> NodeView {
        match *self {
            TraceNode::Route(n) => NodeView::Route { id: n.id@, route: n.route@ },
            TraceNode::Action(n) => NodeView::Action {
                id: n.id@,
                action_id: n.action_id@,
                action_type: n.action_type,
                label: n.label@,
                route: opt_view(n.route),
                ts_unix_ms: n.ts_unix_ms,
            },
            TraceNode::Request(n) => NodeView::Request {
                id: n.id@,
                request_id: n.request_id@,
                method: n.method@,
                url: n.url@,
                route: opt_view(n.route),
                classification: n.classification,
                ts_unix_ms: n.ts_unix_ms,
            },
            TraceNode::BackendEndpoint(n) => NodeView::BackendEndpoint {
                id: n.id@,
                endpoint: n.endpoint@,
            },
        }
    }
}

/// An edge as plain values.
pub struct EdgeView {
    pub from: Seq<char>,
    pub to: Seq<char>,
    pub relation: EdgeRelation,
    pub confidence_bits: u32,
    pub evidence: Seq<Seq<char>>,
}

impl View for TraceEdge {
    type V = EdgeView;

    open spec fn view(&self) -> EdgeView {
        EdgeView {
            from: self.from@,
            to: self.to@,
            relation: self.relation,
            confidence_bits: self.confidence_bits,
            evidence: views(self.evidence@),
        }
    }
}

/// The views of a sequence of nodes.
pub open spec fn node_views(s: Seq<TraceNode>) -> Seq<NodeView> {
    s.map_values(|n: TraceNode| n@)
}

/// The views of a sequence of edges.
pub open spec fn edge_views(s: Seq<TraceEdge>) -> Seq<EdgeView> {
    s.map_values(|e: TraceEdge| e@)
}

/// The ids of a sequence of node views.
pub open spec fn node_ids(s: Seq<NodeView>) -> Seq<Seq<char>> {
    s.map_values(|n: NodeView| n.id())
}

} // verus!
