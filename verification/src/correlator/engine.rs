//! The correlation engine: the timeline and records of a session, the
//! request-to-action links, the causal graph and the session summary.
use vstd::prelude::*;

use crate::correlator::collect::{timeline_views, RequestRecord, SessionEvents};
use crate::correlator::grouping::{
    action_label, action_label_spec, build_route_flows, flows_on_route, route_listed,
    route_present, ActionRecord,
};
use crate::correlator::heuristics::{canonical_endpoint, endpoint_from_parse};
use crate::domain::correlation::{
    flow_order, flow_views, CorrelatedTrace, RequestCorrelation, RouteFlow, SessionSummary,
};
use crate::domain::event::UserActionType;
use crate::utils::urls::{has_no_colon, url_parse_parts};
use crate::text::{chars_lt, decimal_nat, usize_decimal};
use crate::order::is_stable_sort_by;
use crate::domain::graph::CONFIDENCE_ZERO_BITS;
use crate::domain::event::{route_or_page, route_or_page_exec};
use crate::domain::graph::{
    edge_views, node_ids, node_views, ActionNode, BackendEndpointNode, EdgeRelation, EdgeView,
    NodeView, RequestNode, RouteNode, TraceEdge, TraceGraph, TraceNode, CONFIDENCE_FOLLOWED_BY_BITS,
    CONFIDENCE_ONE_BITS, CONFIDENCE_ROUTE_REQUEST_BITS,
};
use crate::order::{hits, is_stable_arrangement, is_stable_sort_of, stable_sort, SortKey, TimedIndex};
use crate::text::{copy_opt, copy_strings, opt_view, push_str, string_of, views};

verus! {

broadcast use vstd::seq_lib::group_seq_properties;

// ---------------------------------------------------------------------------
// The graph
// ---------------------------------------------------------------------------

pub open spec fn action_node_id(action_id: Seq<char>) -> Seq<char> {
    "action:"@ + action_id
}

pub open spec fn route_node_id(route: Seq<char>) -> Seq<char> {
    "route:"@ + route
}

pub open spec fn request_node_id(request_id: Seq<char>) -> Seq<char> {
    "request:"@ + request_id
}

pub open spec fn endpoint_node_id(endpoint: Seq<char>) -> Seq<char> {
    "endpoint:"@ + endpoint
}

pub open spec fn action_node_view(a: ActionRecord) -> NodeView {
    NodeView::Action {
        id: action_node_id(a.event.action_id@),
        action_id: a.event.action_id@,
        action_type: a.event.action_type,
        label: action_label_spec(a),
        route: opt_view(a.event.route),
        ts_unix_ms: a.ts_unix_ms,
    }
}

pub open spec fn route_node_view(route: Seq<char>) -> NodeView {
    NodeView::Route { id: route_node_id(route), route }
}

pub open spec fn request_node_view(c: RequestCorrelation) -> NodeView {
    NodeView::Request {
        id: request_node_id(c.request_id@),
        request_id: c.request_id@,
        method: c.method@,
        url: c.request_url@,
        route: opt_view(c.route),
        classification: c.classification,
        ts_unix_ms: c.request_ts_unix_ms,
    }
}

pub open spec fn endpoint_node_view(c: RequestCorrelation) -> NodeView {
    NodeView::BackendEndpoint { id: endpoint_node_id(c.endpoint@), endpoint: c.endpoint@ }
}

/// The nodes that each action proposes, in order: the action, then its route.
pub open spec fn action_candidates(actions: Seq<ActionRecord>) -> Seq<NodeView>
    decreases actions.len(),
{
    if actions.len() == 0 {
        seq![]
    } else {
        let a = actions.last();
        action_candidates(actions.drop_last()) + seq![
            action_node_view(a),
            route_node_view(route_or_page(a.event.route, a.event.page_url)),
        ]
    }
}

/// The nodes that one correlation proposes: its request, its endpoint, and its route if any.
pub open spec fn correlation_nodes(c: RequestCorrelation) -> Seq<NodeView> {
    seq![request_node_view(c), endpoint_node_view(c)] + match c.route {
        Some(r) => seq![route_node_view(r@)],
        None => seq![],
    }
}

pub open spec fn correlation_candidates(cs: Seq<RequestCorrelation>) -> Seq<NodeView>
    decreases cs.len(),
{
    if cs.len() == 0 {
        seq![]
    } else {
        correlation_candidates(cs.drop_last()) + correlation_nodes(cs.last())
    }
}

/// Each node id kept once, at its first occurrence.
pub open spec fn dedup_nodes(s: Seq<NodeView>) -> Seq<NodeView>
    decreases s.len(),
{
    if s.len() == 0 {
        seq![]
    } else {
        let prev = dedup_nodes(s.drop_last());
        if node_ids(prev).contains(s.last().id()) {
            prev
        } else {
            prev.push(s.last())
        }
    }
}

pub open spec fn occurred_on_route_edge(a: ActionRecord) -> EdgeView {
    EdgeView {
        from: route_node_id(route_or_page(a.event.route, a.event.page_url)),
        to: action_node_id(a.event.action_id@),
        relation: EdgeRelation::OccurredOnRoute,
        confidence_bits: CONFIDENCE_ONE_BITS,
        evidence: seq!["ação observada nesta rota"@],
    }
}

/// One `OccurredOnRoute` edge per action.
pub open spec fn action_edges(actions: Seq<ActionRecord>) -> Seq<EdgeView>
    decreases actions.len(),
{
    if actions.len() == 0 {
        seq![]
    } else {
        action_edges(actions.drop_last()).push(occurred_on_route_edge(actions.last()))
    }
}

/// The edges of one correlation: the request consumes its endpoint; the route
/// correlates to the request if there is a route; the action triggered the
/// request if there is an action, with the correlation's confidence and evidence.
pub open spec fn correlation_edge_list(c: RequestCorrelation) -> Seq<EdgeView> {
    seq![
        EdgeView {
            from: request_node_id(c.request_id@),
            to: endpoint_node_id(c.endpoint@),
            relation: EdgeRelation::ConsumesEndpoint,
            confidence_bits: CONFIDENCE_ONE_BITS,
            evidence: seq!["request consumiu endpoint backend"@],
        },
    ] + match c.route {
        Some(r) => seq![
            EdgeView {
                from: route_node_id(r@),
                to: request_node_id(c.request_id@),
                relation: EdgeRelation::CorrelatesTo,
                confidence_bits: CONFIDENCE_ROUTE_REQUEST_BITS,
                evidence: seq!["request observada nesta rota"@],
            },
        ],
        None => seq![],
    } + match c.action_id {
        Some(id) => seq![
            EdgeView {
                from: action_node_id(id@),
                to: request_node_id(c.request_id@),
                relation: EdgeRelation::Triggered,
                confidence_bits: c.confidence_bits,
                evidence: views(c.evidence@),
            },
        ],
        None => seq![],
    }
}

pub open spec fn correlation_edges(cs: Seq<RequestCorrelation>) -> Seq<EdgeView>
    decreases cs.len(),
{
    if cs.len() == 0 {
        seq![]
    } else {
        correlation_edges(cs.drop_last()) + correlation_edge_list(cs.last())
    }
}

pub open spec fn followed_by_edge(from: ActionRecord, to: ActionRecord) -> EdgeView {
    EdgeView {
        from: action_node_id(from.event.action_id@),
        to: action_node_id(to.event.action_id@),
        relation: EdgeRelation::FollowedBy,
        confidence_bits: CONFIDENCE_FOLLOWED_BY_BITS,
        evidence: seq!["sequência temporal de ações"@],
    }
}

/// A `FollowedBy` edge between each two consecutive actions of `order`.
pub open spec fn followed_edges(order: Seq<ActionRecord>) -> Seq<EdgeView> {
    if order.len() == 0 {
        seq![]
    } else {
        Seq::new((order.len() - 1) as nat, |k: int| followed_by_edge(order[k], order[k + 1]))
    }
}

proof fn lemma_dedup_push(s: Seq<NodeView>, x: NodeView)
    ensures
        dedup_nodes(s.push(x)) == if node_ids(dedup_nodes(s)).contains(x.id()) {
            dedup_nodes(s)
        } else {
            dedup_nodes(s).push(x)
        },
{
    assert(s.push(x).drop_last() =~= s);
}

/// Whether `id` is among the strings of `seen`.
fn contains_string(seen: &Vec<String>, id: &String) -> (r: bool)
    ensures
        r == views(seen@).contains(id@),
{
    let mut k: usize = 0;
    while k < seen.len()
        invariant
            k <= seen.len(),
            forall|j: int| 0 <= j < k ==> seen@[j]@ != id@,
        decreases seen.len() - k,
    {
        if seen[k] == *id {
            assert(views(seen@)[k as int] == id@);
            return true;
        }
        k = k + 1;
    }
    assert forall|j: int| 0 <= j < views(seen@).len() implies views(seen@)[j] != id@ by {
        assert(views(seen@)[j] == seen@[j]@);
    }
    false
}

/// Adds `node` unless a node with its id is already in the graph.
fn add_node(graph: &mut TraceGraph, seen: &mut Vec<String>, id: String, node: TraceNode)
    requires
        views(old(seen)@) == node_ids(node_views(old(graph).nodes@)),
        node@.id() == id@,
    ensures
        final(graph).edges == old(graph).edges,
        node_views(final(graph).nodes@) == if node_ids(node_views(old(graph).nodes@)).contains(
            id@,
        ) {
            node_views(old(graph).nodes@)
        } else {
            node_views(old(graph).nodes@).push(node@)
        },
        views(final(seen)@) == node_ids(node_views(final(graph).nodes@)),
{
    if !contains_string(seen, &id) {
        let ghost old_nodes = graph.nodes@;
        let ghost old_seen = seen@;
        seen.push(id);
        graph.nodes.push(node);
        assert(node_views(graph.nodes@) =~= node_views(old_nodes).push(node@));
        assert(views(seen@) =~= views(old_seen).push(node@.id()));
        assert(node_ids(node_views(graph.nodes@)) =~= node_ids(node_views(old_nodes)).push(
            node@.id(),
        ));
    }
}

/// The text `prefix` followed by the text of `rest`.
fn prefixed(prefix: &str, rest: &String) -> (r: String)
    ensures
        r@ == prefix@ + rest@,
{
    let mut s = string_of(prefix);
    push_str(&mut s, rest.as_str());
    s
}

fn one_evidence(text: &str) -> (r: Vec<String>)
    ensures
        views(r@) == seq![text@],
{
    let v = vec![string_of(text)];
    assert(views(v@) =~= seq![text@]);
    v
}

proof fn lemma_order_from_indices(
    actions: Seq<ActionRecord>,
    keyed: Seq<TimedIndex>,
    sorted: Seq<TimedIndex>,
) -> (order: Seq<ActionRecord>)
    requires
        keyed.len() == actions.len(),
        actions.len() <= usize::MAX,
        forall|j: int|
            0 <= j < keyed.len() ==> #[trigger] keyed[j] == (TimedIndex {
                ts_unix_ms: actions[j].ts_unix_ms,
                index: j as usize,
            }),
        is_stable_sort_of(keyed, sorted),
    ensures
        sorted.len() == actions.len(),
        forall|k: int| 0 <= k < sorted.len() ==> (#[trigger] sorted[k]).index < actions.len(),
        order == Seq::new(sorted.len(), |k: int| actions[sorted[k].index as int]),
        is_stable_sort_of(actions, order),
{
    let p = choose|p: Seq<int>| is_stable_arrangement(keyed, sorted, p);
    let order = Seq::new(sorted.len(), |k: int| actions[sorted[k].index as int]);
    assert forall|k: int| 0 <= k < sorted.len() implies (#[trigger] sorted[k]).index < actions.len()
        && sorted[k].index == p[k] by {
        assert(sorted[k] == keyed[p[k]]);
    }
    assert forall|k: int| 0 <= k < p.len() implies #[trigger] order[k] == actions[p[k]] by {
        assert(sorted[k] == keyed[p[k]]);
    }
    assert forall|v: int| 0 <= v < actions.len() implies #[trigger] hits(p, v) by {
        assert(keyed.len() == actions.len());
    }
    assert forall|a: int, b: int|
        #![trigger order[a], order[b]]
        0 <= a < b < order.len() implies !order[b].key_before(&order[a]) by {
        assert(sorted[a] == keyed[p[a]]);
        assert(sorted[b] == keyed[p[b]]);
        assert(!sorted[b].key_before(&sorted[a]));
    }
    assert forall|a: int, b: int|
        #![trigger order[a], order[b]]
        0 <= a < b < order.len() && !order[a].key_before(&order[b]) implies p[a] < p[b] by {
        assert(sorted[a] == keyed[p[a]]);
        assert(sorted[b] == keyed[p[b]]);
        assert(!sorted[a].key_before(&sorted[b]));
    }
    assert(is_stable_arrangement(actions, order, p));
    order
}

/// The causal graph of the session. Nodes, each id once at its first
/// proposal: for each action its node and its route's node, then for each
/// correlation its request, its endpoint and its route. Edges: each action
/// occurred on its route; for each correlation the request consumes its
/// endpoint, its route correlates to it, its action triggered it; then each
/// action is followed by the next in time order (ties in their given order).
pub fn build_graph(actions: &Vec<ActionRecord>, correlations: &Vec<RequestCorrelation>) -> (g:
    TraceGraph)
    ensures
        node_views(g.nodes@) == dedup_nodes(
            action_candidates(actions@) + correlation_candidates(correlations@),
        ),
        exists|order: Seq<ActionRecord>|
            #![trigger followed_edges(order)]
            is_stable_sort_of(actions@, order) && edge_views(g.edges@) == action_edges(actions@)
                + correlation_edges(correlations@) + followed_edges(order),
{
    let mut graph = TraceGraph { nodes: Vec::new(), edges: Vec::new() };
    let mut seen: Vec<String> = Vec::new();
    assert(node_views(graph.nodes@) =~= dedup_nodes(action_candidates(actions@.take(0))));
    assert(views(seen@) =~= node_ids(node_views(graph.nodes@)));
    assert(edge_views(graph.edges@) =~= action_edges(actions@.take(0)));

    for i in 0..actions.len()
        invariant
            node_views(graph.nodes@) == dedup_nodes(action_candidates(actions@.take(i as int))),
            views(seen@) == node_ids(node_views(graph.nodes@)),
            edge_views(graph.edges@) == action_edges(actions@.take(i as int)),
    {
        let a = &actions[i];
        let ghost cands = action_candidates(actions@.take(i as int));
        let ghost av = action_node_view(*a);
        let action_node_id = prefixed("action:", &a.event.action_id);
        let node = TraceNode::Action(
            ActionNode {
                id: action_node_id.clone(),
                action_id: a.event.action_id.clone(),
                action_type: a.event.action_type,
                label: action_label(a),
                route: copy_opt(&a.event.route),
                ts_unix_ms: a.ts_unix_ms,
            },
        );
        assert(node@ == av);
        add_node(&mut graph, &mut seen, action_node_id.clone(), node);
        proof {
            lemma_dedup_push(cands, av);
        }
        let route = route_or_page_exec(&a.event.route, &a.event.page_url);
        let ghost rv = route_node_view(route@);
        let route_node_id = prefixed("route:", &route);
        let rnode = TraceNode::Route(RouteNode { id: route_node_id.clone(), route });
        assert(rnode@ == rv);
        add_node(&mut graph, &mut seen, route_node_id.clone(), rnode);
        proof {
            lemma_dedup_push(cands.push(av), rv);
        }
        let ghost old_edges = graph.edges@;
        graph.edges.push(
            TraceEdge {
                from: route_node_id,
                to: action_node_id,
                relation: EdgeRelation::OccurredOnRoute,
                confidence_bits: CONFIDENCE_ONE_BITS,
                evidence: one_evidence("ação observada nesta rota"),
            },
        );
        proof {
            let t = actions@.take(i + 1);
            assert(t.drop_last() =~= actions@.take(i as int));
            assert(t.last() == *a);
            assert(action_candidates(t) =~= cands.push(av).push(rv));
            assert(edge_views(graph.edges@) =~= edge_views(old_edges).push(
                occurred_on_route_edge(*a),
            ));
        }
    }
    assert(actions@.take(actions.len() as int) =~= actions@);
    let ghost acands = action_candidates(actions@);
    let ghost aedges = action_edges(actions@);
    assert(acands + correlation_candidates(correlations@.take(0)) =~= acands);
    assert(aedges + correlation_edges(correlations@.take(0)) =~= aedges);

    for i in 0..correlations.len()
        invariant
            acands == action_candidates(actions@),
            aedges == action_edges(actions@),
            node_views(graph.nodes@) == dedup_nodes(
                acands + correlation_candidates(correlations@.take(i as int)),
            ),
            views(seen@) == node_ids(node_views(graph.nodes@)),
            edge_views(graph.edges@) == aedges + correlation_edges(correlations@.take(i as int)),
    {
        let c = &correlations[i];
        let ghost prefix = acands + correlation_candidates(correlations@.take(i as int));
        let ghost eprefix = edge_views(graph.edges@);
        let request_node_id = prefixed("request:", &c.request_id);
        let ghost qv = request_node_view(*c);
        let qnode = TraceNode::Request(
            RequestNode {
                id: request_node_id.clone(),
                request_id: c.request_id.clone(),
                method: c.method.clone(),
                url: c.request_url.clone(),
                route: copy_opt(&c.route),
                classification: c.classification,
                ts_unix_ms: c.request_ts_unix_ms,
            },
        );
        assert(qnode@ == qv);
        add_node(&mut graph, &mut seen, request_node_id.clone(), qnode);
        proof {
            lemma_dedup_push(prefix, qv);
        }
        let endpoint_node_id = prefixed("endpoint:", &c.endpoint);
        let ghost ev = endpoint_node_view(*c);
        let enode = TraceNode::BackendEndpoint(
            BackendEndpointNode { id: endpoint_node_id.clone(), endpoint: c.endpoint.clone() },
        );
        assert(enode@ == ev);
        add_node(&mut graph, &mut seen, endpoint_node_id.clone(), enode);
        proof {
            lemma_dedup_push(prefix.push(qv), ev);
        }
        graph.edges.push(
            TraceEdge {
                from: request_node_id.clone(),
                to: endpoint_node_id,
                relation: EdgeRelation::ConsumesEndpoint,
                confidence_bits: CONFIDENCE_ONE_BITS,
                evidence: one_evidence("request consumiu endpoint backend"),
            },
        );
        let ghost after_consumes = edge_views(graph.edges@);
        match &c.route {
            Some(route) => {
                let route_node_id = prefixed("route:", route);
                let ghost rv = route_node_view(route@);
                let rnode = TraceNode::Route(
                    RouteNode { id: route_node_id.clone(), route: route.clone() },
                );
                assert(rnode@ == rv);
                add_node(&mut graph, &mut seen, route_node_id.clone(), rnode);
                proof {
                    lemma_dedup_push(prefix.push(qv).push(ev), rv);
                }
                graph.edges.push(
                    TraceEdge {
                        from: route_node_id,
                        to: request_node_id.clone(),
                        relation: EdgeRelation::CorrelatesTo,
                        confidence_bits: CONFIDENCE_ROUTE_REQUEST_BITS,
                        evidence: one_evidence("request observada nesta rota"),
                    },
                );
            },
            None => {},
        }
        let ghost after_route = edge_views(graph.edges@);
        match &c.action_id {
            Some(action_id) => {
                let action_node_id = prefixed("action:", action_id);
                graph.edges.push(
                    TraceEdge {
                        from: action_node_id,
                        to: request_node_id,
                        relation: EdgeRelation::Triggered,
                        confidence_bits: c.confidence_bits,
                        evidence: copy_strings(&c.evidence),
                    },
                );
            },
            None => {},
        }
        proof {
            let t = correlations@.take(i + 1);
            assert(t.drop_last() =~= correlations@.take(i as int));
            assert(t.last() == *c);
            let cn = correlation_nodes(*c);
            assert(correlation_candidates(t) == correlation_candidates(correlations@.take(i as int))
                + cn);
            assert(acands + correlation_candidates(t) =~= prefix + cn);
            if c.route is Some {
                assert(prefix + cn =~= prefix.push(qv).push(ev).push(
                    route_node_view(c.route->0@),
                ));
            } else {
                assert(prefix + cn =~= prefix.push(qv).push(ev));
            }
            assert(correlation_edges(t) == correlation_edges(correlations@.take(i as int))
                + correlation_edge_list(*c));
            assert(edge_views(graph.edges@) =~= eprefix + correlation_edge_list(*c));
            assert(aedges + correlation_edges(t) =~= eprefix + correlation_edge_list(*c));
        }
    }
    assert(correlations@.take(correlations.len() as int) =~= correlations@);

    let n = actions.len();
    let mut keyed: Vec<TimedIndex> = Vec::new();
    for j in 0..n
        invariant
            n == actions.len(),
            keyed@.len() == j,
            forall|k: int|
                0 <= k < j ==> #[trigger] keyed@[k] == (TimedIndex {
                    ts_unix_ms: actions@[k].ts_unix_ms,
                    index: k as usize,
                }),
    {
        keyed.push(TimedIndex { ts_unix_ms: actions[j].ts_unix_ms, index: j });
    }
    let ghost keyed_all = keyed@;
    assert(actions@.len() <= usize::MAX);
    let sorted = stable_sort(keyed);
    let ghost order = lemma_order_from_indices(actions@, keyed_all, sorted@);
    let ghost base = edge_views(graph.edges@);
    let ghost final_nodes = node_views(graph.nodes@);
    if n > 0 {
        for k in 0..n - 1
            invariant
                n == actions.len(),
                n > 0,
                sorted@.len() == n,
                forall|m: int| 0 <= m < sorted@.len() ==> (#[trigger] sorted@[m]).index < n,
                order == Seq::new(sorted@.len(), |m: int| actions@[sorted@[m].index as int]),
                edge_views(graph.edges@) == base + followed_edges(order).take(k as int),
                node_views(graph.nodes@) == final_nodes,
        {
            let from = &actions[sorted[k].index];
            let to = &actions[sorted[k + 1].index];
            let ghost before = edge_views(graph.edges@);
            graph.edges.push(
                TraceEdge {
                    from: prefixed("action:", &from.event.action_id),
                    to: prefixed("action:", &to.event.action_id),
                    relation: EdgeRelation::FollowedBy,
                    confidence_bits: CONFIDENCE_FOLLOWED_BY_BITS,
                    evidence: one_evidence("sequência temporal de ações"),
                },
            );
            proof {
                assert(order[k as int] == *from);
                assert(order[k + 1] == *to);
                assert(followed_edges(order).take(k + 1) =~= followed_edges(order).take(
                    k as int,
                ).push(followed_by_edge(*from, *to)));
                assert(edge_views(graph.edges@) =~= before.push(followed_by_edge(*from, *to)));
            }
        }
        assert(followed_edges(order).take((n - 1) as int) =~= followed_edges(order));
    } else {
        assert(followed_edges(order) =~= seq![]);
        assert(edge_views(graph.edges@) =~= base + followed_edges(order));
    }
    assert(is_stable_sort_of(actions@, order));
    graph
}


/// `g` is the causal graph of `actions` and `correlations` (see `build_graph`).
pub open spec fn is_trace_graph_of(
    actions: Seq<ActionRecord>,
    correlations: Seq<RequestCorrelation>,
    g: TraceGraph,
) -> bool {
    &&& node_views(g.nodes@) == dedup_nodes(
        action_candidates(actions) + correlation_candidates(correlations),
    )
    &&& exists|order: Seq<ActionRecord>|
        #![trigger followed_edges(order)]
        is_stable_sort_of(actions, order) && edge_views(g.edges@) == action_edges(actions)
            + correlation_edges(correlations) + followed_edges(order)
}

/// `r` groups `actions` by route (see `build_route_flows`).
pub open spec fn is_route_flow_grouping(
    actions: Seq<ActionRecord>,
    correlations: Seq<RequestCorrelation>,
    r: Seq<RouteFlow>,
) -> bool {
    &&& forall|i: int, j: int|
        #![trigger r[i], r[j]]
        0 <= i < j < r.len() ==> chars_lt(r[i].route@, r[j].route@)
    &&& forall|k: int|
        0 <= k < r.len() ==> is_stable_sort_by(
            flows_on_route(actions, correlations, (#[trigger] r[k]).route@),
            flow_views(r[k].actions@),
            flow_order(),
        )
    &&& forall|k: int|
        0 <= k < r.len() ==> route_present(actions, actions.len() as int, (#[trigger] r[k]).route@)
    &&& forall|i: int|
        0 <= i < actions.len() ==> route_listed(r, crate::correlator::grouping::route_of(#[trigger] actions[i]))
}

// ---------------------------------------------------------------------------
// Candidate actions of a request
// ---------------------------------------------------------------------------

/// An action at `action_ts` may have caused a request at `request_ts`: it
/// came no later than the request and at most `window` milliseconds before.
pub open spec fn in_window(action_ts: i64, request_ts: i64, window: i64) -> bool {
    action_ts <= request_ts && request_ts - action_ts <= window
}

/// The indices below `n` of the actions in the window of a request at `request_ts`.
pub open spec fn candidates_upto(
    actions: Seq<ActionRecord>,
    request_ts: i64,
    window: i64,
    n: int,
) -> Seq<usize>
    decreases n,
{
    if n <= 0 {
        seq![]
    } else {
        let prev = candidates_upto(actions, request_ts, window, n - 1);
        if in_window(actions[n - 1].ts_unix_ms, request_ts, window) {
            prev.push((n - 1) as usize)
        } else {
            prev
        }
    }
}

/// The indices, in order, of the actions that may have caused a request sent
/// at `request_ts_unix_ms`.
pub fn candidate_actions(actions: &Vec<ActionRecord>, request_ts_unix_ms: i64, temporal_window_ms: i64) -> (r:
    Vec<usize>)
    ensures
        r@ == candidates_upto(actions@, request_ts_unix_ms, temporal_window_ms, actions@.len() as int),
{
    let mut r: Vec<usize> = Vec::new();
    for i in 0..actions.len()
        invariant
            r@ == candidates_upto(actions@, request_ts_unix_ms, temporal_window_ms, i as int),
    {
        let a_ts = actions[i].ts_unix_ms;
        if a_ts <= request_ts_unix_ms && (request_ts_unix_ms as i128) - (a_ts as i128)
            <= temporal_window_ms as i128 {
            r.push(i);
        }
    }
    r
}

// ---------------------------------------------------------------------------
// Correlations
// ---------------------------------------------------------------------------

/// The action a request is attributed to, with the confidence (IEEE-754
/// single-precision bits) and the evidence of the attribution.
#[derive(Debug, Clone, PartialEq)]
pub struct CorrelationLink {
    pub action_index: usize,
    pub confidence_bits: u32,
    pub evidence: Vec<String>,
}

/// `c` is the correlation of the request `req`: its id, method, URL, route
/// (its route, else its page), endpoint, time and class; with the action of
/// `link` and the link's confidence and evidence, or with no action, zero
/// confidence and the note that no action explains it.
pub open spec fn correlation_matches(
    c: RequestCorrelation,
    req: RequestRecord,
    actions: Seq<ActionRecord>,
    link: Option<CorrelationLink>,
) -> bool {
    &&& c.request_id@ == req.event.request_id@
    &&& c.method@ == req.event.method@
    &&& c.request_url@ == req.event.url@
    &&& opt_view(c.route) == Some(route_or_page(req.event.route, req.event.page_url))
    &&& c.endpoint@ == endpoint_from_parse(req.event.url@, url_parse_parts(req.event.url@))
    &&& has_no_colon(req.event.url@) ==> c.endpoint@ == req.event.url@
    &&& c.request_ts_unix_ms == req.ts_unix_ms
    &&& c.classification == req.event.classification
    &&& match link {
        Some(l) => {
            &&& opt_view(c.action_id) == Some(actions[l.action_index as int].event.action_id@)
            &&& c.action_type == Some(actions[l.action_index as int].event.action_type)
            &&& c.confidence_bits == l.confidence_bits
            &&& views(c.evidence@) == views(l.evidence@)
        },
        None => {
            &&& c.action_id is None
            &&& c.action_type is None
            &&& c.confidence_bits == CONFIDENCE_ZERO_BITS
            &&& views(c.evidence@) == seq!["sem associação forte com ação explícita"@]
        },
    }
}

/// Every link names an action in the window of its request.
pub open spec fn links_in_window(
    actions: Seq<ActionRecord>,
    requests: Seq<RequestRecord>,
    links: Seq<Option<CorrelationLink>>,
    window: i64,
) -> bool {
    &&& links.len() == requests.len()
    &&& forall|i: int|
        0 <= i < links.len() && (#[trigger] links[i]) is Some ==> {
            &&& links[i]->0.action_index < actions.len()
            &&& in_window(
                actions[links[i]->0.action_index as int].ts_unix_ms,
                requests[i].ts_unix_ms,
                window,
            )
        }
}

/// One correlation per request, attributed as `links` says.
pub fn correlate_requests(
    actions: &Vec<ActionRecord>,
    requests: &Vec<RequestRecord>,
    links: &Vec<Option<CorrelationLink>>,
    temporal_window_ms: i64,
) -> (r: Vec<RequestCorrelation>)
    requires
        links_in_window(actions@, requests@, links@, temporal_window_ms),
    ensures
        r@.len() == requests@.len(),
        forall|i: int|
            0 <= i < r@.len() ==> correlation_matches(
                #[trigger] r@[i],
                requests@[i],
                actions@,
                links@[i],
            ),
{
    let mut r: Vec<RequestCorrelation> = Vec::new();
    for i in 0..requests.len()
        invariant
            links_in_window(actions@, requests@, links@, temporal_window_ms),
            r@.len() == i,
            forall|k: int|
                0 <= k < i ==> correlation_matches(#[trigger] r@[k], requests@[k], actions@, links@[k]),
    {
        let req = &requests[i];
        let endpoint = canonical_endpoint(req.event.url.as_str());
        let route = route_or_page_exec(&req.event.route, &req.event.page_url);
        let correlation = match &links[i] {
            Some(link) => {
                let action = &actions[link.action_index];
                RequestCorrelation {
                    request_id: req.event.request_id.clone(),
                    method: req.event.method.clone(),
                    request_url: req.event.url.clone(),
                    route: Some(route),
                    endpoint,
                    request_ts_unix_ms: req.ts_unix_ms,
                    classification: req.event.classification,
                    action_id: Some(action.event.action_id.clone()),
                    action_type: Some(action.event.action_type),
                    confidence_bits: link.confidence_bits,
                    evidence: copy_strings(&link.evidence),
                }
            },
            None => RequestCorrelation {
                request_id: req.event.request_id.clone(),
                method: req.event.method.clone(),
                request_url: req.event.url.clone(),
                route: Some(route),
                endpoint,
                request_ts_unix_ms: req.ts_unix_ms,
                classification: req.event.classification,
                action_id: None,
                action_type: None,
                confidence_bits: CONFIDENCE_ZERO_BITS,
                evidence: one_evidence("sem associação forte com ação explícita"),
            },
        };
        r.push(correlation);
    }
    r
}

/// How many correlations are attributed to the action `id`.
pub open spec fn count_action(cs: Seq<RequestCorrelation>, id: Seq<char>) -> nat
    decreases cs.len(),
{
    if cs.len() == 0 {
        0
    } else {
        count_action(cs.drop_last(), id) + if cs.last().action_id is Some && cs.last().action_id->0@
            == id {
            1nat
        } else {
            0nat
        }
    }
}

proof fn lemma_count_action_le(cs: Seq<RequestCorrelation>, id: Seq<char>)
    ensures
        count_action(cs, id) <= cs.len(),
    decreases cs.len(),
{
    if cs.len() > 0 {
        lemma_count_action_le(cs.drop_last(), id);
    }
}

/// For each correlation, the size of its burst: how many correlations share
/// its action (zero when it has none).
pub fn burst_sizes(correlations: &Vec<RequestCorrelation>) -> (r: Vec<usize>)
    ensures
        r@.len() == correlations@.len(),
        forall|k: int|
            0 <= k < r@.len() ==> #[trigger] r@[k] as nat == match correlations@[k].action_id {
                Some(id) => count_action(correlations@, id@),
                None => 0,
            },
{
    let mut r: Vec<usize> = Vec::new();
    for k in 0..correlations.len()
        invariant
            r@.len() == k,
            forall|m: int|
                0 <= m < k ==> #[trigger] r@[m] as nat == match correlations@[m].action_id {
                    Some(id) => count_action(correlations@, id@),
                    None => 0,
                },
    {
        match &correlations[k].action_id {
            Some(id) => {
                let mut n: usize = 0;
                for j in 0..correlations.len()
                    invariant
                        n == count_action(correlations@.take(j as int), id@),
                        n <= j,
                {
                    proof {
                        assert(correlations@.take(j + 1).drop_last() =~= correlations@.take(
                            j as int,
                        ));
                    }
                    match &correlations[j].action_id {
                        Some(other) => {
                            if *other == *id {
                                n = n + 1;
                            }
                        },
                        None => {},
                    }
                }
                assert(correlations@.take(correlations.len() as int) =~= correlations@);
                r.push(n);
            },
            None => {
                r.push(0);
            },
        }
    }
    r
}

/// The evidence line of a burst of `size` requests.
pub fn burst_evidence(size: usize) -> (r: String)
    ensures
        r@ == "burst de "@ + decimal_nat(size as nat) + " requests para mesma ação"@,
{
    let mut s = string_of("burst de ");
    let digits = usize_decimal(size);
    push_str(&mut s, digits.as_str());
    push_str(&mut s, " requests para mesma ação");
    s
}

// ---------------------------------------------------------------------------
// Summary and assembly
// ---------------------------------------------------------------------------

/// The endpoints of the correlations.
pub open spec fn endpoint_views(cs: Seq<RequestCorrelation>) -> Seq<Seq<char>> {
    cs.map_values(|c: RequestCorrelation| c.endpoint@)
}

/// How many distinct endpoints the correlations consume.
pub fn count_distinct_endpoints(correlations: &Vec<RequestCorrelation>) -> (n: usize)
    ensures
        n == endpoint_views(correlations@).to_set().len(),
{
    let mut seen: Vec<String> = Vec::new();
    for i in 0..correlations.len()
        invariant
            views(seen@).no_duplicates(),
            views(seen@).to_set() == endpoint_views(correlations@.take(i as int)).to_set(),
    {
        let ghost before = seen@;
        let ghost x = correlations@[i as int].endpoint@;
        assert(endpoint_views(correlations@.take(i + 1)) =~= endpoint_views(
            correlations@.take(i as int),
        ).push(x));
        assert(endpoint_views(correlations@.take(i + 1)).to_set() =~= endpoint_views(
            correlations@.take(i as int),
        ).to_set().insert(x));
        if !contains_string(&seen, &correlations[i].endpoint) {
            seen.push(correlations[i].endpoint.clone());
            assert(views(seen@) =~= views(before).push(x));
            assert(views(seen@).to_set() =~= views(before).to_set().insert(x));
        } else {
            assert(views(before).to_set().contains(x));
        }
    }
    assert(correlations@.take(correlations.len() as int) =~= correlations@);
    proof {
        views(seen@).unique_seq_to_set();
    }
    seen.len()
}

/// `i64::saturating_sub`.
pub open spec fn saturating_sub_spec(a: i64, b: i64) -> i64 {
    if a - b > i64::MAX {
        i64::MAX
    } else if a - b < i64::MIN {
        i64::MIN
    } else {
        (a - b) as i64
    }
}

pub fn saturating_sub_i64(a: i64, b: i64) -> (r: i64)
    ensures
        r == saturating_sub_spec(a, b),
{
    let d: i128 = (a as i128) - (b as i128);
    if d > i64::MAX as i128 {
        i64::MAX
    } else if d < i64::MIN as i128 {
        i64::MIN
    } else {
        d as i64
    }
}

/// The session's span: last minus first timestamp (saturating), zero when
/// either is missing.
pub open spec fn duration_spec(started: Option<i64>, ended: Option<i64>) -> i64 {
    match (started, ended) {
        (Some(s), Some(e)) => saturating_sub_spec(e, s),
        _ => 0,
    }
}

/// `t` is the correlated trace of `session` with `correlations`: its counters
/// and timeline, the given correlations, the route flows and the causal graph
/// built from them, and the number of distinct endpoints.
pub open spec fn assembled_from(
    session: SessionEvents,
    correlations: Seq<RequestCorrelation>,
    t: CorrelatedTrace,
) -> bool {
    &&& t.session_id@ == session.session_id@
    &&& t.total_events == session.total_events
    &&& opt_view(t.summary.initial_url) == opt_view(session.initial_url)
    &&& t.summary.started_at_unix_ms == session.started_at_unix_ms
    &&& t.summary.ended_at_unix_ms == session.ended_at_unix_ms
    &&& t.summary.duration_ms == duration_spec(session.started_at_unix_ms, session.ended_at_unix_ms)
    &&& t.summary.navigation_count == session.navigation_count
    &&& t.summary.action_count == session.actions@.len()
    &&& t.summary.request_count == session.requests@.len()
    &&& t.summary.endpoint_count == endpoint_views(correlations).to_set().len()
    &&& t.correlations@ == correlations
    &&& timeline_views(t.timeline@) == timeline_views(session.timeline@)
    &&& is_route_flow_grouping(session.actions@, correlations, t.route_flows@)
    &&& is_trace_graph_of(session.actions@, correlations, t.graph)
}

/// The correlated trace of a session: its counters and timeline, the given
/// correlations, the route flows and the causal graph built from them, and
/// the number of distinct endpoints.
pub fn assemble_trace(session: SessionEvents, correlations: Vec<RequestCorrelation>) -> (t:
    CorrelatedTrace)
    ensures
        assembled_from(session, correlations@, t),
{
    let route_flows = build_route_flows(&session.actions, &correlations);
    let graph = build_graph(&session.actions, &correlations);
    let endpoint_count = count_distinct_endpoints(&correlations);
    let duration_ms = match (session.started_at_unix_ms, session.ended_at_unix_ms) {
        (Some(start), Some(end)) => saturating_sub_i64(end, start),
        _ => 0,
    };
    let summary = SessionSummary {
        initial_url: session.initial_url,
        started_at_unix_ms: session.started_at_unix_ms,
        ended_at_unix_ms: session.ended_at_unix_ms,
        duration_ms,
        navigation_count: session.navigation_count,
        action_count: session.actions.len(),
        request_count: session.requests.len(),
        endpoint_count,
    };
    CorrelatedTrace {
        session_id: session.session_id,
        total_events: session.total_events,
        summary,
        correlations,
        route_flows,
        timeline: session.timeline,
        graph,
    }
}


// ---------------------------------------------------------------------------
// Laws
// ---------------------------------------------------------------------------

pub(crate) proof fn lemma_dedup_ids(s: Seq<NodeView>)
    ensures
        node_ids(dedup_nodes(s)).no_duplicates(),
        forall|x: Seq<char>| #[trigger] node_ids(dedup_nodes(s)).contains(x) <==> node_ids(s).contains(x),
    decreases s.len(),
{
    if s.len() > 0 {
        let prev = dedup_nodes(s.drop_last());
        lemma_dedup_ids(s.drop_last());
        assert(node_ids(s) =~= node_ids(s.drop_last()).push(s.last().id()));
        if !node_ids(prev).contains(s.last().id()) {
            assert(node_ids(prev.push(s.last())) =~= node_ids(prev).push(s.last().id()));
        }
        assert forall|x: Seq<char>| node_ids(s).contains(x) implies #[trigger] node_ids(
            dedup_nodes(s),
        ).contains(x) by {
            let w = choose|w: int| 0 <= w < node_ids(s).len() && node_ids(s)[w] == x;
            if w < s.len() - 1 {
                assert(node_ids(s.drop_last())[w] == x);
                assert(node_ids(s.drop_last()).contains(x));
                assert(node_ids(prev).contains(x));
                if !node_ids(prev).contains(s.last().id()) {
                    let v = choose|v: int| 0 <= v < node_ids(prev).len() && node_ids(prev)[v] == x;
                    assert(node_ids(prev.push(s.last()))[v] == x);
                }
            } else if !node_ids(prev).contains(s.last().id()) {
                assert(node_ids(prev.push(s.last()))[prev.len() as int] == x);
            }
        }
        assert forall|x: Seq<char>| #[trigger] node_ids(dedup_nodes(s)).contains(x) implies node_ids(
            s,
        ).contains(x) by {
            if node_ids(prev).contains(x) {
                assert(node_ids(s.drop_last()).contains(x));
                let v = choose|v: int|
                    0 <= v < node_ids(s.drop_last()).len() && node_ids(s.drop_last())[v] == x;
                assert(node_ids(s)[v] == x);
            } else {
                assert(x == s.last().id());
                assert(node_ids(s)[s.len() - 1] == x);
            }
        }
    }
}

/// No two nodes of a session's causal graph have the same id.
pub proof fn lemma_graph_node_ids_unique(
    actions: Seq<ActionRecord>,
    correlations: Seq<RequestCorrelation>,
    g: TraceGraph,
)
    requires
        is_trace_graph_of(actions, correlations, g),
    ensures
        node_ids(node_views(g.nodes@)).no_duplicates(),
{
    lemma_dedup_ids(action_candidates(actions) + correlation_candidates(correlations));
}


/// Both ends of the edge are among `ids`.
pub open spec fn edge_connects(ids: Seq<Seq<char>>, e: EdgeView) -> bool {
    ids.contains(e.from) && ids.contains(e.to)
}

/// Every attributed correlation names one of the actions.
pub open spec fn correlations_name_actions(
    actions: Seq<ActionRecord>,
    correlations: Seq<RequestCorrelation>,
) -> bool {
    forall|k: int|
        0 <= k < correlations.len() && (#[trigger] correlations[k]).action_id is Some ==> exists|j: int|
            0 <= j < actions.len() && (#[trigger] actions[j]).event.action_id@
                == correlations[k].action_id->0@
}

pub(crate) proof fn lemma_ids_concat(a: Seq<NodeView>, b: Seq<NodeView>)
    ensures
        node_ids(a + b) == node_ids(a) + node_ids(b),
{
    assert(node_ids(a + b) =~= node_ids(a) + node_ids(b));
}

pub(crate) proof fn lemma_contains_concat(a: Seq<Seq<char>>, b: Seq<Seq<char>>, x: Seq<char>)
    ensures
        (a.contains(x) || b.contains(x)) ==> (a + b).contains(x),
{
    if a.contains(x) {
        let w = choose|w: int| 0 <= w < a.len() && a[w] == x;
        assert((a + b)[w] == x);
    } else if b.contains(x) {
        let w = choose|w: int| 0 <= w < b.len() && b[w] == x;
        assert((a + b)[a.len() + w] == x);
    }
}

proof fn lemma_action_candidate_ids(actions: Seq<ActionRecord>, i: int)
    requires
        0 <= i < actions.len(),
    ensures
        node_ids(action_candidates(actions)).contains(action_node_id(actions[i].event.action_id@)),
        node_ids(action_candidates(actions)).contains(
            route_node_id(route_or_page(actions[i].event.route, actions[i].event.page_url)),
        ),
    decreases actions.len(),
{
    let prev = actions.drop_last();
    let a = actions.last();
    let tail = seq![
        action_node_view(a),
        route_node_view(route_or_page(a.event.route, a.event.page_url)),
    ];
    lemma_ids_concat(action_candidates(prev), tail);
    if i == actions.len() - 1 {
        assert(node_ids(tail)[0] == action_node_id(actions[i].event.action_id@));
        assert(node_ids(tail)[1] == route_node_id(
            route_or_page(actions[i].event.route, actions[i].event.page_url),
        ));
        lemma_contains_concat(
            node_ids(action_candidates(prev)),
            node_ids(tail),
            action_node_id(actions[i].event.action_id@),
        );
        lemma_contains_concat(
            node_ids(action_candidates(prev)),
            node_ids(tail),
            route_node_id(route_or_page(actions[i].event.route, actions[i].event.page_url)),
        );
    } else {
        lemma_action_candidate_ids(prev, i);
        assert(prev[i] == actions[i]);
        lemma_contains_concat(
            node_ids(action_candidates(prev)),
            node_ids(tail),
            action_node_id(actions[i].event.action_id@),
        );
        lemma_contains_concat(
            node_ids(action_candidates(prev)),
            node_ids(tail),
            route_node_id(route_or_page(actions[i].event.route, actions[i].event.page_url)),
        );
    }
}

proof fn lemma_correlation_candidate_ids(cs: Seq<RequestCorrelation>, i: int)
    requires
        0 <= i < cs.len(),
    ensures
        node_ids(correlation_candidates(cs)).contains(request_node_id(cs[i].request_id@)),
        node_ids(correlation_candidates(cs)).contains(endpoint_node_id(cs[i].endpoint@)),
        cs[i].route is Some ==> node_ids(correlation_candidates(cs)).contains(
            route_node_id(cs[i].route->0@),
        ),
    decreases cs.len(),
{
    let prev = cs.drop_last();
    let tail = correlation_nodes(cs.last());
    lemma_ids_concat(correlation_candidates(prev), tail);
    let c = cs[i];
    if i == cs.len() - 1 {
        assert(node_ids(tail)[0] == request_node_id(c.request_id@));
        assert(node_ids(tail)[1] == endpoint_node_id(c.endpoint@));
        if c.route is Some {
            assert(node_ids(tail)[2] == route_node_id(c.route->0@));
        }
    } else {
        lemma_correlation_candidate_ids(prev, i);
        assert(prev[i] == c);
    }
    lemma_contains_concat(
        node_ids(correlation_candidates(prev)),
        node_ids(tail),
        request_node_id(c.request_id@),
    );
    lemma_contains_concat(
        node_ids(correlation_candidates(prev)),
        node_ids(tail),
        endpoint_node_id(c.endpoint@),
    );
    if c.route is Some {
        lemma_contains_concat(
            node_ids(correlation_candidates(prev)),
            node_ids(tail),
            route_node_id(c.route->0@),
        );
    }
}

pub(crate) proof fn lemma_action_edges_origin(actions: Seq<ActionRecord>, k: int)
    requires
        0 <= k < action_edges(actions).len(),
    ensures
        action_edges(actions).len() == actions.len(),
        exists|i: int|
            0 <= i < actions.len() && action_edges(actions)[k] == occurred_on_route_edge(
                #[trigger] actions[i],
            ),
    decreases actions.len(),
{
    lemma_action_edges_len(actions);
    let prev = actions.drop_last();
    lemma_action_edges_len(prev);
    if k == actions.len() - 1 {
        assert(action_edges(actions)[k] == occurred_on_route_edge(actions[k]));
    } else {
        lemma_action_edges_origin(prev, k);
        let i = choose|i: int|
            0 <= i < prev.len() && action_edges(prev)[k] == occurred_on_route_edge(#[trigger] prev[i]);
        assert(actions[i] == prev[i]);
    }
}

pub(crate) proof fn lemma_action_edges_len(actions: Seq<ActionRecord>)
    ensures
        action_edges(actions).len() == actions.len(),
    decreases actions.len(),
{
    if actions.len() > 0 {
        lemma_action_edges_len(actions.drop_last());
    }
}

pub(crate) proof fn lemma_correlation_edges_origin(cs: Seq<RequestCorrelation>, k: int)
    requires
        0 <= k < correlation_edges(cs).len(),
    ensures
        exists|j: int, m: int|
            #![trigger correlation_edge_list(cs[j])[m]]
            0 <= j < cs.len() && 0 <= m < correlation_edge_list(cs[j]).len()
                && correlation_edges(cs)[k] == correlation_edge_list(cs[j])[m],
    decreases cs.len(),
{
    let prev = cs.drop_last();
    let pe = correlation_edges(prev);
    assert(correlation_edges(cs) == pe + correlation_edge_list(cs.last()));
    if k < pe.len() {
        lemma_correlation_edges_origin(prev, k);
        let (j, m) = choose|j: int, m: int|
            #![trigger correlation_edge_list(prev[j])[m]]
            0 <= j < prev.len() && 0 <= m < correlation_edge_list(prev[j]).len()
                && pe[k] == correlation_edge_list(prev[j])[m];
        assert(cs[j] == prev[j]);
    } else {
        let j = cs.len() - 1;
        let m = k - pe.len();
        assert(correlation_edges(cs)[k] == correlation_edge_list(cs[j])[m]);
    }
}

/// Every edge of a session's causal graph joins two of its nodes, provided
/// that every attributed request names one of the session's actions (as the
/// correlations that `correlate_requests` builds do).
pub proof fn lemma_graph_edges_join_nodes(
    actions: Seq<ActionRecord>,
    correlations: Seq<RequestCorrelation>,
    g: TraceGraph,
)
    requires
        is_trace_graph_of(actions, correlations, g),
        correlations_name_actions(actions, correlations),
    ensures
        forall|k: int|
            0 <= k < g.edges@.len() ==> edge_connects(
                node_ids(node_views(g.nodes@)),
                #[trigger] edge_views(g.edges@)[k],
            ),
{
    let ac = action_candidates(actions);
    let cc = correlation_candidates(correlations);
    let ids = node_ids(node_views(g.nodes@));
    lemma_dedup_ids(ac + cc);
    lemma_ids_concat(ac, cc);
    let order = choose|order: Seq<ActionRecord>|
        #![trigger followed_edges(order)]
        is_stable_sort_of(actions, order) && edge_views(g.edges@) == action_edges(actions)
            + correlation_edges(correlations) + followed_edges(order);
    let ae = action_edges(actions);
    let ce = correlation_edges(correlations);
    let fe = followed_edges(order);
    lemma_action_edges_len(actions);
    assert forall|x: Seq<char>| node_ids(ac).contains(x) || node_ids(cc).contains(x) implies #[trigger] ids.contains(
        x,
    ) by {
        lemma_contains_concat(node_ids(ac), node_ids(cc), x);
    }
    assert forall|k: int| 0 <= k < g.edges@.len() implies edge_connects(
        ids,
        #[trigger] edge_views(g.edges@)[k],
    ) by {
        let e = edge_views(g.edges@)[k];
        if k < ae.len() {
            assert(e == ae[k]);
            lemma_action_edges_origin(actions, k);
            let i = choose|i: int|
                0 <= i < actions.len() && ae[k] == occurred_on_route_edge(#[trigger] actions[i]);
            lemma_action_candidate_ids(actions, i);
        } else if k < ae.len() + ce.len() {
            assert(e == ce[k - ae.len()]);
            lemma_correlation_edges_origin(correlations, k - ae.len());
            let (j, m) = choose|j: int, m: int|
                #![trigger correlation_edge_list(correlations[j])[m]]
                0 <= j < correlations.len() && 0 <= m < correlation_edge_list(
                    correlations[j],
                ).len() && ce[k - ae.len()] == correlation_edge_list(correlations[j])[m];
            let c = correlations[j];
            lemma_correlation_candidate_ids(correlations, j);
            if c.action_id is Some {
                let a = choose|a: int|
                    0 <= a < actions.len() && (#[trigger] actions[a]).event.action_id@
                        == c.action_id->0@;
                lemma_action_candidate_ids(actions, a);
            }
        } else {
            let m = k - ae.len() - ce.len();
            assert(edge_views(g.edges@).len() == g.edges@.len());
            assert(edge_views(g.edges@) == (ae + ce) + fe);
            assert(m < fe.len());
            assert(e == fe[m]);
            let p = choose|p: Seq<int>| is_stable_arrangement(actions, order, p);
            assert(order.len() == actions.len());
            assert(order.len() > 0);
            assert(fe.len() == order.len() - 1);
            assert(fe[m] == followed_by_edge(order[m], order[m + 1]));
            assert(order[m] == actions[p[m]]);
            assert(order[m + 1] == actions[p[m + 1]]);
            lemma_action_candidate_ids(actions, p[m]);
            lemma_action_candidate_ids(actions, p[m + 1]);
        }
    }
}


/// Every attributed request is attributed to one of the session's actions,
/// one that happened no later than the request and at most the temporal
/// window before it; and the correlations name only the session's actions.
pub proof fn lemma_attributions_in_window(
    actions: Seq<ActionRecord>,
    requests: Seq<RequestRecord>,
    links: Seq<Option<CorrelationLink>>,
    temporal_window_ms: i64,
    correlations: Seq<RequestCorrelation>,
)
    requires
        links_in_window(actions, requests, links, temporal_window_ms),
        correlations.len() == requests.len(),
        forall|i: int|
            0 <= i < correlations.len() ==> correlation_matches(
                #[trigger] correlations[i],
                requests[i],
                actions,
                links[i],
            ),
    ensures
        correlations_name_actions(actions, correlations),
        forall|i: int|
            0 <= i < correlations.len() && (#[trigger] correlations[i]).action_id is Some ==> exists|
                j: int,
            |
                0 <= j < actions.len() && (#[trigger] actions[j]).event.action_id@
                    == correlations[i].action_id->0@ && in_window(
                    actions[j].ts_unix_ms,
                    correlations[i].request_ts_unix_ms,
                    temporal_window_ms,
                ),
{
    assert forall|i: int|
        0 <= i < correlations.len() && (#[trigger] correlations[i]).action_id is Some implies exists|
            j: int,
        |
            0 <= j < actions.len() && (#[trigger] actions[j]).event.action_id@
                == correlations[i].action_id->0@ && in_window(
                actions[j].ts_unix_ms,
                correlations[i].request_ts_unix_ms,
                temporal_window_ms,
            ) by {
        assert(correlation_matches(correlations[i], requests[i], actions, links[i]));
        assert(links[i] is Some);
        let j = links[i]->0.action_index as int;
        assert(actions[j].event.action_id@ == correlations[i].action_id->0@);
    }
}

/// A session consumes no more distinct endpoints than it sent requests.
pub proof fn lemma_endpoint_count_bounded(correlations: Seq<RequestCorrelation>)
    ensures
        endpoint_views(correlations).to_set().len() <= correlations.len(),
{
    endpoint_views(correlations).lemma_cardinality_of_set();
}

proof fn lemma_count_action_positive(cs: Seq<RequestCorrelation>, k: int)
    requires
        0 <= k < cs.len(),
        cs[k].action_id is Some,
    ensures
        count_action(cs, cs[k].action_id->0@) >= 1,
    decreases cs.len(),
{
    if k < cs.len() - 1 {
        lemma_count_action_positive(cs.drop_last(), k);
        assert(cs.drop_last()[k] == cs[k]);
    }
}

/// The burst of an attributed request holds at least that request and at
/// most all requests.
pub proof fn lemma_burst_size_bounds(cs: Seq<RequestCorrelation>, k: int)
    requires
        0 <= k < cs.len(),
        cs[k].action_id is Some,
    ensures
        1 <= count_action(cs, cs[k].action_id->0@) <= cs.len(),
{
    lemma_count_action_positive(cs, k);
    lemma_count_action_le(cs, cs[k].action_id->0@);
}

/// A session's duration is never negative when it started no later than it ended.
pub proof fn lemma_duration_nonnegative(started: Option<i64>, ended: Option<i64>)
    requires
        started is Some && ended is Some ==> started->0 <= ended->0,
    ensures
        duration_spec(started, ended) >= 0,
{
}

/// Each action belongs to exactly one route flow: the one of its route.
pub proof fn lemma_each_action_in_one_route_flow(
    actions: Seq<ActionRecord>,
    correlations: Seq<RequestCorrelation>,
    r: Seq<RouteFlow>,
    i: int,
)
    requires
        is_route_flow_grouping(actions, correlations, r),
        0 <= i < actions.len(),
    ensures
        exists|k: int| 0 <= k < r.len() && (#[trigger] r[k]).route@ == crate::correlator::grouping::route_of(actions[i]),
        forall|k1: int, k2: int|
            #![trigger r[k1], r[k2]]
            0 <= k1 < r.len() && 0 <= k2 < r.len() && r[k1].route@ == crate::correlator::grouping::route_of(
                actions[i],
            ) && r[k2].route@ == crate::correlator::grouping::route_of(actions[i]) ==> k1 == k2,
{
    assert(route_listed(r, crate::correlator::grouping::route_of(actions[i])));
    assert forall|k1: int, k2: int|
        #![trigger r[k1], r[k2]]
        0 <= k1 < r.len() && 0 <= k2 < r.len() && r[k1].route@ == crate::correlator::grouping::route_of(
            actions[i],
        ) && r[k2].route@ == crate::correlator::grouping::route_of(actions[i]) implies k1 == k2 by {
        crate::text::lemma_chars_lt_irreflexive(r[k1].route@);
        if k1 < k2 {
            assert(chars_lt(r[k1].route@, r[k2].route@));
        } else if k2 < k1 {
            assert(chars_lt(r[k2].route@, r[k1].route@));
        }
    }
}

} // verus!
