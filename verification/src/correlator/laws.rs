//! Laws of the causal graph and of the route flows: the shape of node ids,
//! which nodes each kind of edge joins, and that the graph, the flows and the
//! assembled trace are determined by what they are built from.
use vstd::prelude::*;

use crate::correlator::collect::{describes, timeline_views, RequestRecord, SessionEvents};
use crate::correlator::engine::{
    action_candidates, action_edges, action_node_id, action_node_view, assembled_from,
    correlation_candidates, correlation_edge_list, correlation_edges, correlation_nodes,
    correlations_name_actions, dedup_nodes, endpoint_node_id, followed_by_edge, followed_edges,
    is_route_flow_grouping, is_trace_graph_of, lemma_action_edges_len, lemma_action_edges_origin,
    lemma_correlation_edges_origin, lemma_dedup_ids, lemma_graph_edges_join_nodes,
    occurred_on_route_edge, request_node_id, route_node_id, route_node_view,
};
use crate::correlator::engine::{correlation_matches, endpoint_views, CorrelationLink};
use crate::utils::urls::has_no_colon;
use crate::correlator::grouping::{
    action_flow_view, flows_on_route, request_ids_for, route_listed, route_of, route_present,
    ActionRecord,
};
use crate::domain::correlation::{flow_order, flow_views, CorrelatedTrace, RequestCorrelation, RouteFlow};
use crate::domain::event::{route_or_page, TraceEventEnvelope};
use crate::domain::graph::{edge_views, node_ids, node_views, EdgeRelation, EdgeView, NodeView, TraceGraph};
use crate::order::{is_stable_sort_by, is_stable_sort_of, lemma_stable_sort_by_unique, lemma_stable_sort_unique};
use crate::text::{chars_lt, lemma_chars_lt_asymmetric, lemma_chars_lt_irreflexive, opt_view, views};

verus! {

broadcast use vstd::seq_lib::group_seq_properties;

// ---------------------------------------------------------------------------
// Node ids
// ---------------------------------------------------------------------------

/// The four kinds of node of the causal graph.
pub enum NodeKind {
    Route,
    Action,
    Request,
    BackendEndpoint,
}

/// The kind of a node.
pub open spec fn kind_of(n: NodeView) -> NodeKind {
    match n {
        NodeView::Route { .. } => NodeKind::Route,
        NodeView::Action { .. } => NodeKind::Action,
        NodeView::Request { .. } => NodeKind::Request,
        NodeView::BackendEndpoint { .. } => NodeKind::BackendEndpoint,
    }
}

/// A node's id is its kind's prefix (`route:`, `action:`, `request:`,
/// `endpoint:`) followed by the route, action id, request id or endpoint it
/// stands for.
pub open spec fn id_fits_node(n: NodeView) -> bool {
    match n {
        NodeView::Route { id, route } => id == route_node_id(route),
        NodeView::Action { id, action_id, .. } => id == action_node_id(action_id),
        NodeView::Request { id, request_id, .. } => id == request_node_id(request_id),
        NodeView::BackendEndpoint { id, endpoint } => id == endpoint_node_id(endpoint),
    }
}

/// Element `i` of `s` is the first with its id.
pub open spec fn first_with_id(s: Seq<NodeView>, i: int) -> bool {
    forall|j: int| 0 <= j < i ==> (#[trigger] s[j]).id() != s[i].id()
}

/// Every node that `actions` and `correlations` propose, in the order
/// `build_graph` considers them.
pub open spec fn graph_candidates(
    actions: Seq<ActionRecord>,
    correlations: Seq<RequestCorrelation>,
) -> Seq<NodeView> {
    action_candidates(actions) + correlation_candidates(correlations)
}

proof fn lemma_action_candidates_fit(actions: Seq<ActionRecord>)
    ensures
        forall|i: int|
            0 <= i < action_candidates(actions).len() ==> id_fits_node(
                #[trigger] action_candidates(actions)[i],
            ),
    decreases actions.len(),
{
    if actions.len() > 0 {
        let prev = actions.drop_last();
        let a = actions.last();
        lemma_action_candidates_fit(prev);
        let tail = seq![
            action_node_view(a),
            route_node_view(route_or_page(a.event.route, a.event.page_url)),
        ];
        assert(action_candidates(actions) == action_candidates(prev) + tail);
        assert forall|i: int| 0 <= i < action_candidates(actions).len() implies id_fits_node(
            #[trigger] action_candidates(actions)[i],
        ) by {
            if i >= action_candidates(prev).len() {
                assert(action_candidates(actions)[i] == tail[i - action_candidates(prev).len()]);
            }
        }
    }
}

proof fn lemma_correlation_candidates_fit(cs: Seq<RequestCorrelation>)
    ensures
        forall|i: int|
            0 <= i < correlation_candidates(cs).len() ==> id_fits_node(
                #[trigger] correlation_candidates(cs)[i],
            ),
    decreases cs.len(),
{
    if cs.len() > 0 {
        let prev = cs.drop_last();
        lemma_correlation_candidates_fit(prev);
        let tail = correlation_nodes(cs.last());
        assert(correlation_candidates(cs) == correlation_candidates(prev) + tail);
        assert forall|i: int| 0 <= i < correlation_candidates(cs).len() implies id_fits_node(
            #[trigger] correlation_candidates(cs)[i],
        ) by {
            if i >= correlation_candidates(prev).len() {
                assert(correlation_candidates(cs)[i] == tail[i - correlation_candidates(prev).len()]);
            }
        }
    }
}

proof fn lemma_candidates_fit(actions: Seq<ActionRecord>, correlations: Seq<RequestCorrelation>)
    ensures
        forall|i: int|
            0 <= i < graph_candidates(actions, correlations).len() ==> id_fits_node(
                #[trigger] graph_candidates(actions, correlations)[i],
            ),
{
    lemma_action_candidates_fit(actions);
    lemma_correlation_candidates_fit(correlations);
    let ac = action_candidates(actions);
    assert forall|i: int| 0 <= i < graph_candidates(actions, correlations).len() implies id_fits_node(
        #[trigger] graph_candidates(actions, correlations)[i],
    ) by {
        if i >= ac.len() {
            assert(graph_candidates(actions, correlations)[i] == correlation_candidates(correlations)[i - ac.len()]);
        }
    }
}

#[verifier::rlimit(80)]
proof fn lemma_dedup_first(s: Seq<NodeView>)
    ensures
        forall|k: int|
            #![trigger dedup_nodes(s)[k]]
            0 <= k < dedup_nodes(s).len() ==> exists|i: int|
                #![trigger s[i]]
                0 <= i < s.len() && s[i] == dedup_nodes(s)[k] && first_with_id(s, i),
        forall|i: int|
            #![trigger s[i]]
            0 <= i < s.len() && first_with_id(s, i) ==> dedup_nodes(s).contains(s[i]),
    decreases s.len(),
{
    if s.len() > 0 {
        let t = s.drop_last();
        let x = s.last();
        let dt = dedup_nodes(t);
        let n = t.len() as int;
        lemma_dedup_first(t);
        lemma_dedup_ids(t);
        assert(node_ids(s) =~= node_ids(t).push(x.id()));
        assert forall|i: int| 0 <= i < n implies first_with_id(s, i) == first_with_id(t, i) by {
            assert forall|j: int| 0 <= j < i implies s[j] == t[j] by {}
            if first_with_id(t, i) {
                assert forall|j: int| 0 <= j < i implies (#[trigger] s[j]).id() != s[i].id() by {
                    assert(t[j].id() != t[i].id());
                }
            }
            if first_with_id(s, i) {
                assert forall|j: int| 0 <= j < i implies (#[trigger] t[j]).id() != t[i].id() by {
                    assert(s[j].id() != s[i].id());
                }
            }
        }
        if node_ids(dt).contains(x.id()) {
            assert(dedup_nodes(s) == dt);
            assert forall|k: int|
                #![trigger dedup_nodes(s)[k]]
                0 <= k < dedup_nodes(s).len() implies exists|i: int|
                    #![trigger s[i]]
                    0 <= i < s.len() && s[i] == dedup_nodes(s)[k] && first_with_id(s, i) by {
                assert(dt[k] == dedup_nodes(t)[k]);
                let i = choose|i: int|
                    #![trigger t[i]]
                    0 <= i < t.len() && t[i] == dedup_nodes(t)[k] && first_with_id(t, i);
                assert(s[i] == t[i]);
            }
            assert forall|i: int|
                #![trigger s[i]]
                0 <= i < s.len() && first_with_id(s, i) implies dedup_nodes(s).contains(s[i]) by {
                if i == n {
                    assert(node_ids(t).contains(x.id()));
                    let j = choose|j: int| 0 <= j < node_ids(t).len() && node_ids(t)[j] == x.id();
                    assert(s[j].id() == t[j].id());
                    assert(false);
                } else {
                    assert(s[i] == t[i]);
                }
            }
        } else {
            assert(dedup_nodes(s) == dt.push(x));
            assert forall|k: int|
                #![trigger dedup_nodes(s)[k]]
                0 <= k < dedup_nodes(s).len() implies exists|i: int|
                    #![trigger s[i]]
                    0 <= i < s.len() && s[i] == dedup_nodes(s)[k] && first_with_id(s, i) by {
                if k == dt.len() {
                    assert forall|j: int| 0 <= j < n implies (#[trigger] s[j]).id() != s[n].id() by {
                        assert(node_ids(t)[j] == t[j].id());
                    }
                    assert(s[n] == dedup_nodes(s)[k]);
                } else {
                    assert(dedup_nodes(s)[k] == dt[k]);
                    let i = choose|i: int|
                        #![trigger t[i]]
                        0 <= i < t.len() && t[i] == dedup_nodes(t)[k] && first_with_id(t, i);
                    assert(s[i] == t[i]);
                }
            }
            assert forall|i: int|
                #![trigger s[i]]
                0 <= i < s.len() && first_with_id(s, i) implies dedup_nodes(s).contains(s[i]) by {
                if i == n {
                    assert(dedup_nodes(s)[dt.len() as int] == x);
                } else {
                    assert(s[i] == t[i]);
                    assert(dt.contains(t[i]));
                    let w = choose|w: int| 0 <= w < dt.len() && dt[w] == t[i];
                    assert(dedup_nodes(s)[w] == t[i]);
                }
            }
        }
    }
}

/// The nodes of a session's causal graph are the nodes its actions and
/// correlations propose, each id kept once, at the first node proposed with
/// it: every node of the graph is the first proposed with its id, and every
/// node proposed first with its id is in the graph. Each node's id is its
/// kind's prefix followed by what it stands for.
pub proof fn lemma_graph_nodes_first_with_id(
    actions: Seq<ActionRecord>,
    correlations: Seq<RequestCorrelation>,
    g: TraceGraph,
)
    requires
        is_trace_graph_of(actions, correlations, g),
    ensures
        forall|k: int|
            #![trigger node_views(g.nodes@)[k]]
            0 <= k < g.nodes@.len() ==> exists|i: int|
                #![trigger graph_candidates(actions, correlations)[i]]
                0 <= i < graph_candidates(actions, correlations).len()
                    && graph_candidates(actions, correlations)[i] == node_views(g.nodes@)[k]
                    && first_with_id(graph_candidates(actions, correlations), i),
        forall|i: int|
            #![trigger graph_candidates(actions, correlations)[i]]
            0 <= i < graph_candidates(actions, correlations).len() && first_with_id(
                graph_candidates(actions, correlations),
                i,
            ) ==> node_views(g.nodes@).contains(graph_candidates(actions, correlations)[i]),
        forall|k: int| 0 <= k < g.nodes@.len() ==> id_fits_node(#[trigger] node_views(g.nodes@)[k]),
{
    let s = graph_candidates(actions, correlations);
    lemma_dedup_first(s);
    lemma_candidates_fit(actions, correlations);
    assert(node_views(g.nodes@) == dedup_nodes(s));
    assert forall|k: int| 0 <= k < g.nodes@.len() implies id_fits_node(#[trigger] node_views(g.nodes@)[k]) by {
        assert(dedup_nodes(s)[k] == node_views(g.nodes@)[k]);
        let i = choose|i: int| #![trigger s[i]] 0 <= i < s.len() && s[i] == dedup_nodes(s)[k] && first_with_id(s, i);
    }
}

// ---------------------------------------------------------------------------
// Edges
// ---------------------------------------------------------------------------

/// The kinds of node that an edge of `relation` leaves and enters: an action
/// occurred on a route; an action triggered a request; a route correlates to
/// a request; a request consumes an endpoint; an action is followed by an action.
pub open spec fn relation_kinds(relation: EdgeRelation) -> (NodeKind, NodeKind) {
    match relation {
        EdgeRelation::OccurredOnRoute => (NodeKind::Route, NodeKind::Action),
        EdgeRelation::Triggered => (NodeKind::Action, NodeKind::Request),
        EdgeRelation::CorrelatesTo => (NodeKind::Route, NodeKind::Request),
        EdgeRelation::ConsumesEndpoint => (NodeKind::Request, NodeKind::BackendEndpoint),
        EdgeRelation::FollowedBy => (NodeKind::Action, NodeKind::Action),
    }
}

/// The kind of node an id names, read from its prefix.
spec fn id_kind(id: Seq<char>) -> NodeKind {
    if id.len() > 0 && id[0] == 'a' {
        NodeKind::Action
    } else if id.len() > 0 && id[0] == 'e' {
        NodeKind::BackendEndpoint
    } else if id.len() > 1 && id[1] == 'o' {
        NodeKind::Route
    } else {
        NodeKind::Request
    }
}

proof fn lemma_id_kinds(x: Seq<char>)
    ensures
        id_kind(route_node_id(x)) == NodeKind::Route,
        id_kind(action_node_id(x)) == NodeKind::Action,
        id_kind(request_node_id(x)) == NodeKind::Request,
        id_kind(endpoint_node_id(x)) == NodeKind::BackendEndpoint,
{
    reveal_strlit("route:");
    reveal_strlit("action:");
    reveal_strlit("request:");
    reveal_strlit("endpoint:");
    assert(route_node_id(x)[0] == 'r' && route_node_id(x)[1] == 'o');
    assert(action_node_id(x)[0] == 'a');
    assert(request_node_id(x)[0] == 'r' && request_node_id(x)[1] == 'e');
    assert(endpoint_node_id(x)[0] == 'e');
}

proof fn lemma_fit_kind(n: NodeView)
    requires
        id_fits_node(n),
    ensures
        id_kind(n.id()) == kind_of(n),
{
    match n {
        NodeView::Route { id, route } => lemma_id_kinds(route),
        NodeView::Action { id, action_id, .. } => lemma_id_kinds(action_id),
        NodeView::Request { id, request_id, .. } => lemma_id_kinds(request_id),
        NodeView::BackendEndpoint { id, endpoint } => lemma_id_kinds(endpoint),
    }
}

/// The prefixes of an edge's ends name the kinds its relation joins.
spec fn edge_ids_fit(e: EdgeView) -> bool {
    id_kind(e.from) == relation_kinds(e.relation).0 && id_kind(e.to) == relation_kinds(e.relation).1
}

proof fn lemma_graph_edge_ids_fit(
    actions: Seq<ActionRecord>,
    correlations: Seq<RequestCorrelation>,
    g: TraceGraph,
)
    requires
        is_trace_graph_of(actions, correlations, g),
    ensures
        forall|k: int| 0 <= k < g.edges@.len() ==> edge_ids_fit(#[trigger] edge_views(g.edges@)[k]),
{
    let order = choose|order: Seq<ActionRecord>|
        #![trigger followed_edges(order)]
        is_stable_sort_of(actions, order) && edge_views(g.edges@) == action_edges(actions)
            + correlation_edges(correlations) + followed_edges(order);
    let ae = action_edges(actions);
    let ce = correlation_edges(correlations);
    let fe = followed_edges(order);
    lemma_action_edges_len(actions);
    assert forall|k: int| 0 <= k < g.edges@.len() implies edge_ids_fit(#[trigger] edge_views(g.edges@)[k]) by {
        let e = edge_views(g.edges@)[k];
        assert(edge_views(g.edges@).len() == g.edges@.len());
        assert(edge_views(g.edges@) == (ae + ce) + fe);
        if k < ae.len() {
            assert(e == ae[k]);
            lemma_action_edges_origin(actions, k);
            let i = choose|i: int|
                0 <= i < actions.len() && ae[k] == occurred_on_route_edge(#[trigger] actions[i]);
            let a = actions[i];
            lemma_id_kinds(route_or_page(a.event.route, a.event.page_url));
            lemma_id_kinds(a.event.action_id@);
        } else if k < ae.len() + ce.len() {
            assert(e == ce[k - ae.len()]);
            lemma_correlation_edges_origin(correlations, k - ae.len());
            let (j, m) = choose|j: int, m: int|
                #![trigger correlation_edge_list(correlations[j])[m]]
                0 <= j < correlations.len() && 0 <= m < correlation_edge_list(
                    correlations[j],
                ).len() && ce[k - ae.len()] == correlation_edge_list(correlations[j])[m];
            let c = correlations[j];
            lemma_id_kinds(c.request_id@);
            lemma_id_kinds(c.endpoint@);
            if c.route is Some {
                lemma_id_kinds(c.route->0@);
            }
            if c.action_id is Some {
                lemma_id_kinds(c.action_id->0@);
            }
        } else {
            let m = k - ae.len() - ce.len();
            assert(m < fe.len());
            assert(e == fe[m]);
            assert(order.len() > 0);
            assert(fe[m] == followed_by_edge(order[m], order[m + 1]));
            lemma_id_kinds(order[m].event.action_id@);
            lemma_id_kinds(order[m + 1].event.action_id@);
        }
    }
}

/// Every edge of a session's causal graph leaves a node and enters a node of
/// the graph, of the kinds its relation names (`relation_kinds`): a route to
/// an action it occurred on, an action to a request it triggered, a route to
/// a request on it, a request to the endpoint it consumes, an action to the
/// next action. This holds when every attributed request names one of the
/// session's actions, as the correlations that `correlate_requests` builds do.
pub proof fn lemma_graph_edge_directions(
    actions: Seq<ActionRecord>,
    correlations: Seq<RequestCorrelation>,
    g: TraceGraph,
)
    requires
        is_trace_graph_of(actions, correlations, g),
        correlations_name_actions(actions, correlations),
    ensures
        forall|k: int|
            #![trigger edge_views(g.edges@)[k]]
            0 <= k < g.edges@.len() ==> exists|i: int, j: int|
                0 <= i < g.nodes@.len() && 0 <= j < g.nodes@.len()
                    && (#[trigger] node_views(g.nodes@)[i]).id() == edge_views(g.edges@)[k].from
                    && (#[trigger] node_views(g.nodes@)[j]).id() == edge_views(g.edges@)[k].to
                    && kind_of(node_views(g.nodes@)[i]) == relation_kinds(edge_views(g.edges@)[k].relation).0
                    && kind_of(node_views(g.nodes@)[j]) == relation_kinds(edge_views(g.edges@)[k].relation).1,
{
    let nodes = node_views(g.nodes@);
    let ids = node_ids(nodes);
    lemma_graph_edges_join_nodes(actions, correlations, g);
    lemma_graph_edge_ids_fit(actions, correlations, g);
    lemma_graph_nodes_first_with_id(actions, correlations, g);
    assert forall|k: int|
        #![trigger edge_views(g.edges@)[k]]
        0 <= k < g.edges@.len() implies exists|i: int, j: int|
            0 <= i < g.nodes@.len() && 0 <= j < g.nodes@.len()
                && (#[trigger] node_views(g.nodes@)[i]).id() == edge_views(g.edges@)[k].from
                && (#[trigger] node_views(g.nodes@)[j]).id() == edge_views(g.edges@)[k].to
                && kind_of(node_views(g.nodes@)[i]) == relation_kinds(edge_views(g.edges@)[k].relation).0
                && kind_of(node_views(g.nodes@)[j]) == relation_kinds(edge_views(g.edges@)[k].relation).1 by {
        let e = edge_views(g.edges@)[k];
        assert(ids.contains(e.from) && ids.contains(e.to));
        let i = choose|i: int| 0 <= i < ids.len() && ids[i] == e.from;
        let j = choose|j: int| 0 <= j < ids.len() && ids[j] == e.to;
        assert(id_fits_node(nodes[i]));
        assert(id_fits_node(nodes[j]));
        lemma_fit_kind(nodes[i]);
        lemma_fit_kind(nodes[j]);
        assert(edge_ids_fit(e));
    }
}

// ---------------------------------------------------------------------------
// Determinism
// ---------------------------------------------------------------------------

/// The causal graph of a session is determined by its actions and
/// correlations: two graphs built from the same ones have the same nodes and
/// the same edges, in the same order.
pub proof fn lemma_trace_graph_deterministic(
    actions: Seq<ActionRecord>,
    correlations: Seq<RequestCorrelation>,
    g1: TraceGraph,
    g2: TraceGraph,
)
    requires
        is_trace_graph_of(actions, correlations, g1),
        is_trace_graph_of(actions, correlations, g2),
    ensures
        node_views(g1.nodes@) == node_views(g2.nodes@),
        edge_views(g1.edges@) == edge_views(g2.edges@),
{
    let o1 = choose|order: Seq<ActionRecord>|
        #![trigger followed_edges(order)]
        is_stable_sort_of(actions, order) && edge_views(g1.edges@) == action_edges(actions)
            + correlation_edges(correlations) + followed_edges(order);
    let o2 = choose|order: Seq<ActionRecord>|
        #![trigger followed_edges(order)]
        is_stable_sort_of(actions, order) && edge_views(g2.edges@) == action_edges(actions)
            + correlation_edges(correlations) + followed_edges(order);
    lemma_stable_sort_unique(actions, o1, o2);
}

/// Two sequences of route flows hold the same routes in the same order, each
/// with the same action flows in the same order.
pub open spec fn same_route_flows(r1: Seq<RouteFlow>, r2: Seq<RouteFlow>) -> bool {
    &&& r1.len() == r2.len()
    &&& forall|k: int|
        0 <= k < r1.len() ==> (#[trigger] r1[k]).route@ == r2[k].route@ && flow_views(r1[k].actions@)
            == flow_views(r2[k].actions@)
}

proof fn lemma_flow_routes_agree_upto(
    actions: Seq<ActionRecord>,
    correlations: Seq<RequestCorrelation>,
    r1: Seq<RouteFlow>,
    r2: Seq<RouteFlow>,
    k: int,
)
    requires
        is_route_flow_grouping(actions, correlations, r1),
        is_route_flow_grouping(actions, correlations, r2),
        0 <= k <= r1.len(),
        k <= r2.len(),
    ensures
        forall|i: int| 0 <= i < k ==> (#[trigger] r1[i]).route@ == r2[i].route@,
    decreases k,
{
    if k > 0 {
        lemma_flow_routes_agree_upto(actions, correlations, r1, r2, k - 1);
        let m = k - 1;
        let x = r1[m].route@;
        let y = r2[m].route@;
        if x != y {
            assert(route_present(actions, actions.len() as int, r1[m].route@));
            let a = choose|a: int| 0 <= a < actions.len() && route_of(#[trigger] actions[a]) == x;
            assert(route_listed(r2, route_of(actions[a])));
            let j = choose|j: int| 0 <= j < r2.len() && (#[trigger] r2[j]).route@ == x;
            assert(route_present(actions, actions.len() as int, r2[m].route@));
            let b = choose|b: int| 0 <= b < actions.len() && route_of(#[trigger] actions[b]) == y;
            assert(route_listed(r1, route_of(actions[b])));
            let i = choose|i: int| 0 <= i < r1.len() && (#[trigger] r1[i]).route@ == y;
            lemma_chars_lt_irreflexive(x);
            lemma_chars_lt_irreflexive(y);
            if j < m {
                assert(r1[j].route@ == r2[j].route@);
                assert(chars_lt(r1[j].route@, r1[m].route@));
            }
            if i < m {
                assert(r1[i].route@ == r2[i].route@);
                assert(chars_lt(r2[i].route@, r2[m].route@));
            }
            assert(m < i && m < j);
            assert(chars_lt(r1[m].route@, r1[i].route@));
            assert(chars_lt(r2[m].route@, r2[j].route@));
            lemma_chars_lt_asymmetric(x, y);
        }
    }
}

proof fn lemma_flow_lengths_agree(
    actions: Seq<ActionRecord>,
    correlations: Seq<RequestCorrelation>,
    r1: Seq<RouteFlow>,
    r2: Seq<RouteFlow>,
)
    requires
        is_route_flow_grouping(actions, correlations, r1),
        is_route_flow_grouping(actions, correlations, r2),
        r1.len() <= r2.len(),
    ensures
        r1.len() == r2.len(),
{
    if r1.len() < r2.len() {
        let n = r1.len() as int;
        lemma_flow_routes_agree_upto(actions, correlations, r1, r2, n);
        let z = r2[n].route@;
        assert(route_present(actions, actions.len() as int, r2[n].route@));
        let a = choose|a: int| 0 <= a < actions.len() && route_of(#[trigger] actions[a]) == z;
        assert(route_listed(r1, route_of(actions[a])));
        let j = choose|j: int| 0 <= j < r1.len() && (#[trigger] r1[j]).route@ == z;
        assert(r2[j].route@ == z);
        assert(chars_lt(r2[j].route@, r2[n].route@));
        lemma_chars_lt_irreflexive(z);
    }
}

/// The route flows of a session are determined by its actions and
/// correlations: two groupings of the same ones list the same routes in the
/// same order, each with the same action flows in the same order.
pub proof fn lemma_route_flows_deterministic(
    actions: Seq<ActionRecord>,
    correlations: Seq<RequestCorrelation>,
    r1: Seq<RouteFlow>,
    r2: Seq<RouteFlow>,
)
    requires
        is_route_flow_grouping(actions, correlations, r1),
        is_route_flow_grouping(actions, correlations, r2),
    ensures
        same_route_flows(r1, r2),
{
    if r1.len() <= r2.len() {
        lemma_flow_lengths_agree(actions, correlations, r1, r2);
    } else {
        lemma_flow_lengths_agree(actions, correlations, r2, r1);
    }
    lemma_flow_routes_agree_upto(actions, correlations, r1, r2, r1.len() as int);
    assert forall|k: int| 0 <= k < r1.len() implies (#[trigger] r1[k]).route@ == r2[k].route@
        && flow_views(r1[k].actions@) == flow_views(r2[k].actions@) by {
        assert(is_stable_sort_by(
            flows_on_route(actions, correlations, r1[k].route@),
            flow_views(r1[k].actions@),
            flow_order(),
        ));
        assert(is_stable_sort_by(
            flows_on_route(actions, correlations, r2[k].route@),
            flow_views(r2[k].actions@),
            flow_order(),
        ));
        lemma_stable_sort_by_unique(
            flows_on_route(actions, correlations, r1[k].route@),
            flow_views(r1[k].actions@),
            flow_views(r2[k].actions@),
            flow_order(),
        );
    }
}

/// Two sessions hold the same events in the same order and the same values
/// drawn from them.
pub open spec fn same_session(s1: SessionEvents, s2: SessionEvents) -> bool {
    &&& s1.ordered@ == s2.ordered@
    &&& s1.session_id@ == s2.session_id@
    &&& s1.total_events == s2.total_events
    &&& opt_view(s1.initial_url) == opt_view(s2.initial_url)
    &&& s1.started_at_unix_ms == s2.started_at_unix_ms
    &&& s1.ended_at_unix_ms == s2.ended_at_unix_ms
    &&& s1.navigation_count == s2.navigation_count
    &&& timeline_views(s1.timeline@) == timeline_views(s2.timeline@)
    &&& s1.actions@ == s2.actions@
    &&& s1.requests@ == s2.requests@
}

/// What `collect_session` draws from a trace is determined by its events:
/// two sessions collected from the same events are the same.
pub proof fn lemma_collected_session_deterministic(
    events: Seq<TraceEventEnvelope>,
    s1: SessionEvents,
    s2: SessionEvents,
)
    requires
        is_stable_sort_of(events, s1.ordered@),
        describes(s1, s1.ordered@),
        is_stable_sort_of(events, s2.ordered@),
        describes(s2, s2.ordered@),
    ensures
        same_session(s1, s2),
{
    lemma_stable_sort_unique(events, s1.ordered@, s2.ordered@);
}

/// Two correlations agree in every field, strings and lists taken by their text.
pub open spec fn same_correlation(a: RequestCorrelation, b: RequestCorrelation) -> bool {
    &&& a.request_id@ == b.request_id@
    &&& a.method@ == b.method@
    &&& a.request_url@ == b.request_url@
    &&& opt_view(a.route) == opt_view(b.route)
    &&& a.endpoint@ == b.endpoint@
    &&& a.request_ts_unix_ms == b.request_ts_unix_ms
    &&& a.classification == b.classification
    &&& opt_view(a.action_id) == opt_view(b.action_id)
    &&& a.action_type == b.action_type
    &&& a.confidence_bits == b.confidence_bits
    &&& views(a.evidence@) == views(b.evidence@)
}

/// Two sequences of correlations agree one by one.
pub open spec fn same_correlations(a: Seq<RequestCorrelation>, b: Seq<RequestCorrelation>) -> bool {
    &&& a.len() == b.len()
    &&& forall|i: int| 0 <= i < a.len() ==> same_correlation(#[trigger] a[i], b[i])
}

proof fn lemma_same_correlations_drop_last(a: Seq<RequestCorrelation>, b: Seq<RequestCorrelation>)
    requires
        same_correlations(a, b),
        a.len() > 0,
    ensures
        same_correlations(a.drop_last(), b.drop_last()),
        same_correlation(a.last(), b.last()),
{
    assert forall|i: int| 0 <= i < a.drop_last().len() implies same_correlation(
        #[trigger] a.drop_last()[i],
        b.drop_last()[i],
    ) by {
        assert(same_correlation(a[i], b[i]));
    }
    assert(same_correlation(a[a.len() - 1], b[b.len() - 1]));
}

proof fn lemma_same_correlation_parts(a: RequestCorrelation, b: RequestCorrelation)
    requires
        same_correlation(a, b),
    ensures
        correlation_nodes(a) == correlation_nodes(b),
        correlation_edge_list(a) == correlation_edge_list(b),
{
    match a.route {
        Some(r) => {
            assert(b.route is Some);
        },
        None => {
            assert(b.route is None);
        },
    }
    match a.action_id {
        Some(x) => {
            assert(b.action_id is Some);
        },
        None => {
            assert(b.action_id is None);
        },
    }
    assert(correlation_nodes(a) =~= correlation_nodes(b));
    assert(correlation_edge_list(a) =~= correlation_edge_list(b));
}

proof fn lemma_same_correlations_specs(a: Seq<RequestCorrelation>, b: Seq<RequestCorrelation>)
    requires
        same_correlations(a, b),
    ensures
        correlation_candidates(a) == correlation_candidates(b),
        correlation_edges(a) == correlation_edges(b),
        endpoint_views(a) == endpoint_views(b),
        forall|id: Seq<char>| #[trigger] request_ids_for(a, id) == request_ids_for(b, id),
    decreases a.len(),
{
    if a.len() == 0 {
        assert(endpoint_views(a) =~= endpoint_views(b));
    } else {
        lemma_same_correlations_drop_last(a, b);
        lemma_same_correlations_specs(a.drop_last(), b.drop_last());
        lemma_same_correlation_parts(a.last(), b.last());
        assert(endpoint_views(a) =~= endpoint_views(b)) by {
            assert forall|i: int| 0 <= i < a.len() implies endpoint_views(a)[i] == endpoint_views(b)[i] by {
                assert(same_correlation(a[i], b[i]));
            }
        }
        assert forall|id: Seq<char>| #[trigger] request_ids_for(a, id) == request_ids_for(b, id) by {
            assert(request_ids_for(a.drop_last(), id) == request_ids_for(b.drop_last(), id));
        }
    }
}

proof fn lemma_same_correlations_flows(
    actions: Seq<ActionRecord>,
    a: Seq<RequestCorrelation>,
    b: Seq<RequestCorrelation>,
    route: Seq<char>,
)
    requires
        same_correlations(a, b),
    ensures
        flows_on_route(actions, a, route) == flows_on_route(actions, b, route),
    decreases actions.len(),
{
    lemma_same_correlations_specs(a, b);
    if actions.len() > 0 {
        lemma_same_correlations_flows(actions.drop_last(), a, b, route);
        let x = actions.last();
        assert(request_ids_for(a, x.event.action_id@) == request_ids_for(b, x.event.action_id@));
        assert(action_flow_view(x, a) == action_flow_view(x, b));
    }
}

/// Route flows and causal graphs depend on the correlations only through
/// their fields' values.
proof fn lemma_same_correlations_build_alike(
    actions: Seq<ActionRecord>,
    a: Seq<RequestCorrelation>,
    b: Seq<RequestCorrelation>,
    r: Seq<RouteFlow>,
    g: TraceGraph,
)
    requires
        same_correlations(a, b),
    ensures
        is_route_flow_grouping(actions, a, r) == is_route_flow_grouping(actions, b, r),
        is_trace_graph_of(actions, a, g) == is_trace_graph_of(actions, b, g),
        endpoint_views(a) == endpoint_views(b),
{
    lemma_same_correlations_specs(a, b);
    assert forall|route: Seq<char>| #[trigger] flows_on_route(actions, a, route) == flows_on_route(actions, b, route) by {
        lemma_same_correlations_flows(actions, a, b, route);
    }
}

/// The correlations of a session's requests are determined by its actions,
/// its requests and the links chosen for them: two sequences that both meet
/// `correlation_matches` for each request agree one by one.
pub proof fn lemma_correlations_deterministic(
    actions: Seq<ActionRecord>,
    requests: Seq<RequestRecord>,
    links: Seq<Option<CorrelationLink>>,
    c1: Seq<RequestCorrelation>,
    c2: Seq<RequestCorrelation>,
)
    requires
        c1.len() == requests.len(),
        c2.len() == requests.len(),
        forall|i: int|
            0 <= i < c1.len() ==> correlation_matches(#[trigger] c1[i], requests[i], actions, links[i]),
        forall|i: int|
            0 <= i < c2.len() ==> correlation_matches(#[trigger] c2[i], requests[i], actions, links[i]),
    ensures
        same_correlations(c1, c2),
{
    assert forall|i: int| 0 <= i < c1.len() implies same_correlation(#[trigger] c1[i], c2[i]) by {
        assert(correlation_matches(c1[i], requests[i], actions, links[i]));
        assert(correlation_matches(c2[i], requests[i], actions, links[i]));
    }
}

/// Two correlated traces agree in every field: session, counters, summary,
/// correlations, timeline, route flows, and the graph's nodes and edges.
pub open spec fn same_trace(t1: CorrelatedTrace, t2: CorrelatedTrace) -> bool {
    &&& t1.session_id@ == t2.session_id@
    &&& t1.total_events == t2.total_events
    &&& opt_view(t1.summary.initial_url) == opt_view(t2.summary.initial_url)
    &&& t1.summary.started_at_unix_ms == t2.summary.started_at_unix_ms
    &&& t1.summary.ended_at_unix_ms == t2.summary.ended_at_unix_ms
    &&& t1.summary.duration_ms == t2.summary.duration_ms
    &&& t1.summary.navigation_count == t2.summary.navigation_count
    &&& t1.summary.action_count == t2.summary.action_count
    &&& t1.summary.request_count == t2.summary.request_count
    &&& t1.summary.endpoint_count == t2.summary.endpoint_count
    &&& same_correlations(t1.correlations@, t2.correlations@)
    &&& timeline_views(t1.timeline@) == timeline_views(t2.timeline@)
    &&& same_route_flows(t1.route_flows@, t2.route_flows@)
    &&& node_views(t1.graph.nodes@) == node_views(t2.graph.nodes@)
    &&& edge_views(t1.graph.edges@) == edge_views(t2.graph.edges@)
}

/// Correlating a session is deterministic: the traces assembled from two
/// sessions collected from the same events, with the same correlations, are
/// the same in every field, whatever order maps or sets would be walked in.
pub proof fn lemma_correlated_trace_deterministic(
    events: Seq<TraceEventEnvelope>,
    s1: SessionEvents,
    s2: SessionEvents,
    correlations: Seq<RequestCorrelation>,
    t1: CorrelatedTrace,
    t2: CorrelatedTrace,
)
    requires
        is_stable_sort_of(events, s1.ordered@),
        describes(s1, s1.ordered@),
        is_stable_sort_of(events, s2.ordered@),
        describes(s2, s2.ordered@),
        assembled_from(s1, correlations, t1),
        assembled_from(s2, correlations, t2),
    ensures
        same_trace(t1, t2),
{
    lemma_collected_session_deterministic(events, s1, s2);
    lemma_route_flows_deterministic(s1.actions@, correlations, t1.route_flows@, t2.route_flows@);
    lemma_trace_graph_deterministic(s1.actions@, correlations, t1.graph, t2.graph);
}

/// Correlating a trace is deterministic: from the same events, with the same
/// link chosen for each request, the collected sessions, the correlations
/// that `correlate_requests` builds and the traces that `assemble_trace`
/// assembles are the same in every field, whatever order maps or sets would
/// be walked in.
pub proof fn lemma_correlation_deterministic(
    events: Seq<TraceEventEnvelope>,
    links: Seq<Option<CorrelationLink>>,
    s1: SessionEvents,
    s2: SessionEvents,
    c1: Seq<RequestCorrelation>,
    c2: Seq<RequestCorrelation>,
    t1: CorrelatedTrace,
    t2: CorrelatedTrace,
)
    requires
        is_stable_sort_of(events, s1.ordered@),
        describes(s1, s1.ordered@),
        is_stable_sort_of(events, s2.ordered@),
        describes(s2, s2.ordered@),
        c1.len() == s1.requests@.len(),
        c2.len() == s2.requests@.len(),
        forall|i: int|
            0 <= i < c1.len() ==> correlation_matches(
                #[trigger] c1[i],
                s1.requests@[i],
                s1.actions@,
                links[i],
            ),
        forall|i: int|
            0 <= i < c2.len() ==> correlation_matches(
                #[trigger] c2[i],
                s2.requests@[i],
                s2.actions@,
                links[i],
            ),
        assembled_from(s1, c1, t1),
        assembled_from(s2, c2, t2),
    ensures
        same_session(s1, s2),
        same_correlations(c1, c2),
        same_trace(t1, t2),
{
    lemma_collected_session_deterministic(events, s1, s2);
    lemma_correlations_deterministic(s1.actions@, s1.requests@, links, c1, c2);
    let actions = s1.actions@;
    lemma_same_correlations_build_alike(actions, c1, c2, t2.route_flows@, t2.graph);
    lemma_route_flows_deterministic(actions, c1, t1.route_flows@, t2.route_flows@);
    lemma_trace_graph_deterministic(actions, c1, t1.graph, t2.graph);
}
// ---------------------------------------------------------------------------
// What each correlation and each edge carries
// ---------------------------------------------------------------------------

/// The correlation of request `i` copies the request: its id, method, URL,
/// time and class; its route is the request's route, else its page; a URL
/// with no colon is its own endpoint. An attributed request names the linked
/// action, that action's type, and the link's confidence and evidence; one
/// with no link names no action, has confidence zero, and says that no
/// action explains it.
pub proof fn lemma_correlation_of_request(
    actions: Seq<ActionRecord>,
    requests: Seq<RequestRecord>,
    links: Seq<Option<CorrelationLink>>,
    cs: Seq<RequestCorrelation>,
    i: int,
)
    requires
        cs.len() == requests.len(),
        forall|j: int|
            0 <= j < cs.len() ==> correlation_matches(#[trigger] cs[j], requests[j], actions, links[j]),
        0 <= i < cs.len(),
    ensures
        cs[i].request_id@ == requests[i].event.request_id@,
        cs[i].method@ == requests[i].event.method@,
        cs[i].request_url@ == requests[i].event.url@,
        cs[i].request_ts_unix_ms == requests[i].ts_unix_ms,
        cs[i].classification == requests[i].event.classification,
        opt_view(cs[i].route) == Some(
            match requests[i].event.route {
                Some(r) => r@,
                None => requests[i].event.page_url@,
            },
        ),
        has_no_colon(requests[i].event.url@) ==> cs[i].endpoint@ == requests[i].event.url@,
        links[i] is Some ==> {
            &&& opt_view(cs[i].action_id) == Some(
                actions[links[i]->0.action_index as int].event.action_id@,
            )
            &&& cs[i].action_type == Some(actions[links[i]->0.action_index as int].event.action_type)
            &&& cs[i].confidence_bits == links[i]->0.confidence_bits
            &&& views(cs[i].evidence@) == views(links[i]->0.evidence@)
        },
        links[i] is None ==> {
            &&& cs[i].action_id is None
            &&& cs[i].action_type is None
            &&& cs[i].confidence_bits == 0u32
            &&& views(cs[i].evidence@) == seq!["sem associação forte com ação explícita"@]
        },
{
    assert(correlation_matches(cs[i], requests[i], actions, links[i]));
}

proof fn lemma_correlation_edges_contain(cs: Seq<RequestCorrelation>, k: int, m: int)
    requires
        0 <= k < cs.len(),
        0 <= m < correlation_edge_list(cs[k]).len(),
    ensures
        correlation_edges(cs).contains(correlation_edge_list(cs[k])[m]),
    decreases cs.len(),
{
    let prev = cs.drop_last();
    let pe = correlation_edges(prev);
    let tail = correlation_edge_list(cs.last());
    assert(correlation_edges(cs) == pe + tail);
    if k == cs.len() - 1 {
        assert(correlation_edges(cs)[pe.len() + m] == tail[m]);
    } else {
        assert(prev[k] == cs[k]);
        lemma_correlation_edges_contain(prev, k, m);
        let w = choose|w: int| 0 <= w < pe.len() && pe[w] == correlation_edge_list(cs[k])[m];
        assert(correlation_edges(cs)[w] == pe[w]);
    }
}

proof fn lemma_action_edges_contain(actions: Seq<ActionRecord>, i: int)
    requires
        0 <= i < actions.len(),
    ensures
        action_edges(actions).contains(occurred_on_route_edge(actions[i])),
    decreases actions.len(),
{
    let prev = actions.drop_last();
    lemma_action_edges_len(prev);
    if i == actions.len() - 1 {
        assert(action_edges(actions)[i] == occurred_on_route_edge(actions[i]));
    } else {
        assert(prev[i] == actions[i]);
        lemma_action_edges_contain(prev, i);
        let w = choose|w: int|
            0 <= w < action_edges(prev).len() && action_edges(prev)[w] == occurred_on_route_edge(actions[i]);
        assert(action_edges(actions)[w] == action_edges(prev)[w]);
    }
}

/// The edges that each action and each correlation put in a session's causal
/// graph: an action's route (else its page) `OccurredOnRoute` to it, with
/// confidence 1.0; a request `ConsumesEndpoint` its endpoint, with confidence
/// 1.0; a request's route `CorrelatesTo` it, with confidence 0.6; and the
/// action a request is attributed to `Triggered` it, with the correlation's
/// own confidence and evidence. Confidences are IEEE-754 single-precision
/// bit patterns.
pub proof fn lemma_graph_edges_of_inputs(
    actions: Seq<ActionRecord>,
    correlations: Seq<RequestCorrelation>,
    g: TraceGraph,
)
    requires
        is_trace_graph_of(actions, correlations, g),
    ensures
        forall|i: int|
            0 <= i < actions.len() ==> edge_views(g.edges@).contains(
                (EdgeView {
                    from: "route:"@ + route_or_page(
                        (#[trigger] actions[i]).event.route,
                        actions[i].event.page_url,
                    ),
                    to: "action:"@ + actions[i].event.action_id@,
                    relation: EdgeRelation::OccurredOnRoute,
                    confidence_bits: 0x3F80_0000u32,
                    evidence: seq!["ação observada nesta rota"@],
                }),
            ),
        forall|k: int|
            0 <= k < correlations.len() ==> edge_views(g.edges@).contains(
                (EdgeView {
                    from: "request:"@ + (#[trigger] correlations[k]).request_id@,
                    to: "endpoint:"@ + correlations[k].endpoint@,
                    relation: EdgeRelation::ConsumesEndpoint,
                    confidence_bits: 0x3F80_0000u32,
                    evidence: seq!["request consumiu endpoint backend"@],
                }),
            ),
        forall|k: int|
            0 <= k < correlations.len() && (#[trigger] correlations[k]).route is Some
                ==> edge_views(g.edges@).contains(
                (EdgeView {
                    from: "route:"@ + correlations[k].route->0@,
                    to: "request:"@ + correlations[k].request_id@,
                    relation: EdgeRelation::CorrelatesTo,
                    confidence_bits: 0x3F19_999Au32,
                    evidence: seq!["request observada nesta rota"@],
                }),
            ),
        forall|k: int|
            0 <= k < correlations.len() && (#[trigger] correlations[k]).action_id is Some
                ==> edge_views(g.edges@).contains(
                (EdgeView {
                    from: "action:"@ + correlations[k].action_id->0@,
                    to: "request:"@ + correlations[k].request_id@,
                    relation: EdgeRelation::Triggered,
                    confidence_bits: correlations[k].confidence_bits,
                    evidence: views(correlations[k].evidence@),
                }),
            ),
{
    let order = choose|order: Seq<ActionRecord>|
        #![trigger followed_edges(order)]
        is_stable_sort_of(actions, order) && edge_views(g.edges@) == action_edges(actions)
            + correlation_edges(correlations) + followed_edges(order);
    let ae = action_edges(actions);
    let ce = correlation_edges(correlations);
    let fe = followed_edges(order);
    let all = edge_views(g.edges@);
    assert(all == (ae + ce) + fe);
    assert forall|e: EdgeView| ae.contains(e) implies all.contains(e) by {
        let w = choose|w: int| 0 <= w < ae.len() && ae[w] == e;
        assert(all[w] == e);
    }
    assert forall|e: EdgeView| ce.contains(e) implies all.contains(e) by {
        let w = choose|w: int| 0 <= w < ce.len() && ce[w] == e;
        assert(all[ae.len() + w] == e);
    }
    assert forall|i: int| 0 <= i < actions.len() implies edge_views(g.edges@).contains(
        (EdgeView {
            from: "route:"@ + route_or_page(
                (#[trigger] actions[i]).event.route,
                actions[i].event.page_url,
            ),
            to: "action:"@ + actions[i].event.action_id@,
            relation: EdgeRelation::OccurredOnRoute,
            confidence_bits: 0x3F80_0000u32,
            evidence: seq!["ação observada nesta rota"@],
        }),
    ) by {
        lemma_action_edges_contain(actions, i);
    }
    assert forall|k: int| 0 <= k < correlations.len() implies {
        &&& edge_views(g.edges@).contains(
            (EdgeView {
                from: "request:"@ + (#[trigger] correlations[k]).request_id@,
                to: "endpoint:"@ + correlations[k].endpoint@,
                relation: EdgeRelation::ConsumesEndpoint,
                confidence_bits: 0x3F80_0000u32,
                evidence: seq!["request consumiu endpoint backend"@],
            }),
        )
        &&& correlations[k].route is Some ==> edge_views(g.edges@).contains(
            (EdgeView {
                from: "route:"@ + correlations[k].route->0@,
                to: "request:"@ + correlations[k].request_id@,
                relation: EdgeRelation::CorrelatesTo,
                confidence_bits: 0x3F19_999Au32,
                evidence: seq!["request observada nesta rota"@],
            }),
        )
        &&& correlations[k].action_id is Some ==> edge_views(g.edges@).contains(
            (EdgeView {
                from: "action:"@ + correlations[k].action_id->0@,
                to: "request:"@ + correlations[k].request_id@,
                relation: EdgeRelation::Triggered,
                confidence_bits: correlations[k].confidence_bits,
                evidence: views(correlations[k].evidence@),
            }),
        )
    } by {
        let c = correlations[k];
        let l = correlation_edge_list(c);
        lemma_correlation_edges_contain(correlations, k, 0);
        if c.route is Some {
            lemma_correlation_edges_contain(correlations, k, 1);
            if c.action_id is Some {
                lemma_correlation_edges_contain(correlations, k, 2);
            }
        } else if c.action_id is Some {
            lemma_correlation_edges_contain(correlations, k, 1);
        }
    }
}

} // verus!
