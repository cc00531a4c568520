//! The graph of a session as HTML list items.
use vstd::prelude::*;

use crate::domain::event::{action_type_name, action_type_name_spec};
use crate::domain::graph::{node_views, EdgeRelation, NodeView, TraceEdge, TraceNode};
use crate::text::{escape_html, escape_html_spec, lemma_escape_concat, lemma_escape_plain, push_str, string_of};

verus! {

broadcast use vstd::seq_lib::group_seq_properties;

/// The label of a node.
pub open spec fn node_label(n: NodeView) -> Seq<char> {
    match n {
        NodeView::Route { route, .. } => "Route: "@ + route,
        NodeView::Action { action_type, action_id, .. } => "Action: "@ + action_type_name_spec(
            action_type,
        ) + " ("@ + action_id + ")"@,
        NodeView::Request { method, url, .. } => "Request: "@ + method + " "@ + url,
        NodeView::BackendEndpoint { endpoint, .. } => "Endpoint: "@ + endpoint,
    }
}

/// An HTML list item holding the escaped text.
pub open spec fn list_item(text: Seq<char>) -> Seq<char> {
    "<li>"@ + escape_html_spec(text) + "</li>"@
}

/// One list item per node, with the node's label.
pub open spec fn render_nodes_spec(nodes: Seq<NodeView>) -> Seq<char>
    decreases nodes.len(),
{
    if nodes.len() == 0 {
        seq![]
    } else {
        render_nodes_spec(nodes.drop_last()) + list_item(node_label(nodes.last()))
    }
}

fn node_label_exec(node: &TraceNode) -> (r: String)
    ensures
        r@ == node_label(node@),
{
    match node {
        TraceNode::Route(route) => {
            let mut s = string_of("Route: ");
            push_str(&mut s, route.route.as_str());
            s
        },
        TraceNode::Action(action) => {
            let mut s = string_of("Action: ");
            push_str(&mut s, action_type_name(action.action_type));
            push_str(&mut s, " (");
            push_str(&mut s, action.action_id.as_str());
            push_str(&mut s, ")");
            s
        },
        TraceNode::Request(request) => {
            let mut s = string_of("Request: ");
            push_str(&mut s, request.method.as_str());
            push_str(&mut s, " ");
            push_str(&mut s, request.url.as_str());
            s
        },
        TraceNode::BackendEndpoint(endpoint) => {
            let mut s = string_of("Endpoint: ");
            push_str(&mut s, endpoint.endpoint.as_str());
            s
        },
    }
}

/// Appends an HTML list item holding the escaped `text`.
pub fn push_list_item(html: &mut String, text: &str)
    ensures
        final(html)@ == old(html)@ + list_item(text@),
{
    push_str(html, "<li>");
    let escaped = escape_html(text);
    push_str(html, escaped.as_str());
    push_str(html, "</li>");
}

/// One HTML list item per node, labelled by its kind and content.
pub fn render_nodes(nodes: &[TraceNode]) -> (html: String)
    ensures
        html@ == render_nodes_spec(node_views(nodes@)),
{
    let mut html = String::new();
    for i in 0..nodes.len()
        invariant
            html@ == render_nodes_spec(node_views(nodes@.take(i as int))),
    {
        let label = node_label_exec(&nodes[i]);
        push_list_item(&mut html, label.as_str());
        proof {
            assert(node_views(nodes@.take(i + 1)).drop_last() =~= node_views(nodes@.take(i as int)));
        }
    }
    assert(nodes@.take(nodes@.len() as int) =~= nodes@);
    html
}

/// Rendering one more node appends one list item, which reads by the node's
/// kind: `Route: ` and its route; `Action: `, its type, and its id in
/// parentheses; `Request: `, its method, a space and its URL; `Endpoint: `
/// and its endpoint; each given text HTML-escaped.
pub proof fn lemma_rendered_node_item(nodes: Seq<NodeView>, n: NodeView)
    ensures
        render_nodes_spec(nodes.push(n)) == render_nodes_spec(nodes) + match n {
            NodeView::Route { route, .. } => "<li>Route: "@ + escape_html_spec(route) + "</li>"@,
            NodeView::Action { action_type, action_id, .. } => "<li>Action: "@ + escape_html_spec(
                action_type_name_spec(action_type),
            ) + " ("@ + escape_html_spec(action_id) + ")</li>"@,
            NodeView::Request { method, url, .. } => "<li>Request: "@ + escape_html_spec(method)
                + " "@ + escape_html_spec(url) + "</li>"@,
            NodeView::BackendEndpoint { endpoint, .. } => "<li>Endpoint: "@ + escape_html_spec(
                endpoint,
            ) + "</li>"@,
        },
{
    assert(nodes.push(n).drop_last() =~= nodes);
    reveal_strlit("<li>");
    reveal_strlit("</li>");
    reveal_strlit("Route: ");
    reveal_strlit("Action: ");
    reveal_strlit("Request: ");
    reveal_strlit("Endpoint: ");
    reveal_strlit(" (");
    reveal_strlit(")");
    reveal_strlit(" ");
    reveal_strlit("<li>Route: ");
    reveal_strlit("<li>Action: ");
    reveal_strlit("<li>Request: ");
    reveal_strlit("<li>Endpoint: ");
    reveal_strlit(")</li>");
    match n {
        NodeView::Route { route, .. } => {
            lemma_escape_plain("Route: "@);
            lemma_escape_concat("Route: "@, route);
            assert("<li>"@ + ("Route: "@ + escape_html_spec(route)) + "</li>"@ =~= "<li>Route: "@
                + escape_html_spec(route) + "</li>"@);
        },
        NodeView::Action { action_type, action_id, .. } => {
            let name = action_type_name_spec(action_type);
            lemma_escape_plain("Action: "@);
            lemma_escape_plain(" ("@);
            lemma_escape_plain(")"@);
            lemma_escape_concat("Action: "@, name);
            lemma_escape_concat("Action: "@ + name, " ("@);
            lemma_escape_concat("Action: "@ + name + " ("@, action_id);
            lemma_escape_concat("Action: "@ + name + " ("@ + action_id, ")"@);
            assert("<li>"@ + ("Action: "@ + escape_html_spec(name) + " ("@ + escape_html_spec(
                action_id,
            ) + ")"@) + "</li>"@ =~= "<li>Action: "@ + escape_html_spec(name) + " ("@
                + escape_html_spec(action_id) + ")</li>"@);
        },
        NodeView::Request { method, url, .. } => {
            lemma_escape_plain("Request: "@);
            lemma_escape_plain(" "@);
            lemma_escape_concat("Request: "@, method);
            lemma_escape_concat("Request: "@ + method, " "@);
            lemma_escape_concat("Request: "@ + method + " "@, url);
            assert("<li>"@ + ("Request: "@ + escape_html_spec(method) + " "@ + escape_html_spec(url))
                + "</li>"@ =~= "<li>Request: "@ + escape_html_spec(method) + " "@ + escape_html_spec(
                url,
            ) + "</li>"@);
        },
        NodeView::BackendEndpoint { endpoint, .. } => {
            lemma_escape_plain("Endpoint: "@);
            lemma_escape_concat("Endpoint: "@, endpoint);
            assert("<li>"@ + ("Endpoint: "@ + escape_html_spec(endpoint)) + "</li>"@
                =~= "<li>Endpoint: "@ + escape_html_spec(endpoint) + "</li>"@);
        },
    }
}

/// The name that `Debug` gives an edge relation.
pub open spec fn relation_name_spec(r: EdgeRelation) -> Seq<char> {
    match r {
        EdgeRelation::OccurredOnRoute => "OccurredOnRoute"@,
        EdgeRelation::Triggered => "Triggered"@,
        EdgeRelation::CorrelatesTo => "CorrelatesTo"@,
        EdgeRelation::ConsumesEndpoint => "ConsumesEndpoint"@,
        EdgeRelation::FollowedBy => "FollowedBy"@,
    }
}

pub fn relation_name(r: EdgeRelation) -> (s: &'static str)
    ensures
        s@ == relation_name_spec(r),
{
    match r {
        EdgeRelation::OccurredOnRoute => "OccurredOnRoute",
        EdgeRelation::Triggered => "Triggered",
        EdgeRelation::CorrelatesTo => "CorrelatesTo",
        EdgeRelation::ConsumesEndpoint => "ConsumesEndpoint",
        EdgeRelation::FollowedBy => "FollowedBy",
    }
}

/// The line of an edge, given the text of its confidence.
pub open spec fn edge_line(e: TraceEdge, confidence_text: Seq<char>) -> Seq<char> {
    e.from@ + " -> "@ + e.to@ + " ("@ + relation_name_spec(e.relation) + ", conf "@
        + confidence_text + ")"@
}

/// One list item per edge, given the text of each edge's confidence.
pub open spec fn render_edges_spec(edges: Seq<TraceEdge>, confidence_texts: Seq<String>) -> Seq<char>
    decreases edges.len(),
{
    if edges.len() == 0 || confidence_texts.len() == 0 {
        seq![]
    } else {
        render_edges_spec(edges.drop_last(), confidence_texts.drop_last()) + list_item(
            edge_line(edges.last(), confidence_texts.last()@),
        )
    }
}

/// One HTML list item per edge: `from -> to (Relation, conf c)`, where `c`
/// is the given text of the edge's confidence.
pub fn render_edges_with(edges: &[TraceEdge], confidence_texts: &[String]) -> (html: String)
    requires
        confidence_texts@.len() == edges@.len(),
    ensures
        html@ == render_edges_spec(edges@, confidence_texts@),
{
    let mut html = String::new();
    for i in 0..edges.len()
        invariant
            confidence_texts@.len() == edges@.len(),
            html@ == render_edges_spec(edges@.take(i as int), confidence_texts@.take(i as int)),
    {
        let e = &edges[i];
        let mut line = e.from.clone();
        push_str(&mut line, " -> ");
        push_str(&mut line, e.to.as_str());
        push_str(&mut line, " (");
        push_str(&mut line, relation_name(e.relation));
        push_str(&mut line, ", conf ");
        push_str(&mut line, confidence_texts[i].as_str());
        push_str(&mut line, ")");
        push_list_item(&mut html, line.as_str());
        proof {
            assert(edges@.take(i + 1).drop_last() =~= edges@.take(i as int));
            assert(confidence_texts@.take(i + 1).drop_last() =~= confidence_texts@.take(i as int));
            assert(line@ =~= edge_line(*e, confidence_texts@[i as int]@));
        }
    }
    assert(edges@.take(edges@.len() as int) =~= edges@);
    assert(confidence_texts@.take(confidence_texts@.len() as int) =~= confidence_texts@);
    html
}

/// Rendering one more edge appends one list item: `from -> to (Relation,
/// conf c)`, HTML-escaped, where `Relation` is the relation's name and `c`
/// the given text of the edge's confidence.
pub proof fn lemma_rendered_edge_item(
    edges: Seq<TraceEdge>,
    texts: Seq<String>,
    e: TraceEdge,
    t: String,
)
    requires
        edges.len() == texts.len(),
    ensures
        render_edges_spec(edges.push(e), texts.push(t)) == render_edges_spec(edges, texts) + "<li>"@
            + escape_html_spec(
            e.from@ + " -> "@ + e.to@ + " ("@ + match e.relation {
                EdgeRelation::OccurredOnRoute => "OccurredOnRoute"@,
                EdgeRelation::Triggered => "Triggered"@,
                EdgeRelation::CorrelatesTo => "CorrelatesTo"@,
                EdgeRelation::ConsumesEndpoint => "ConsumesEndpoint"@,
                EdgeRelation::FollowedBy => "FollowedBy"@,
            } + ", conf "@ + t@ + ")"@,
        ) + "</li>"@,
{
    assert(edges.push(e).drop_last() =~= edges);
    assert(texts.push(t).drop_last() =~= texts);
}
} // verus!
