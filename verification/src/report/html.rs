//! The HTML report of a correlated session.
use vstd::prelude::*;

use crate::domain::correlation::{ActionFlow, CorrelatedTrace, RouteFlow};
use crate::domain::event::{action_type_name, action_type_name_spec};
use crate::domain::graph::node_views;
use crate::report::graph_view::{render_edges_spec, render_edges_with, render_nodes, render_nodes_spec};
use crate::report::timeline::{raw_events_cuttable, render_timeline_rows, timeline_rows_spec};
use crate::text::{
    decimal_int, decimal_nat, escape_html, escape_html_spec, i64_decimal, push_str, usize_decimal,
    views,
};

verus! {

broadcast use vstd::seq_lib::group_seq_properties;

/// Template text before the session slot.
pub const HTML_PART_0: &'static str = "<!doctype html>\n<html lang=\"pt-BR\">\n<head>\n  <meta charset=\"utf-8\" />\n  <meta name=\"viewport\" content=\"width=device-width, initial-scale=1\" />\n  <title>Flowtrace Report ";

/// Template text before the session slot.
pub const HTML_PART_1: &'static str = "</title>\n  <style>\n    body { font-family: 'Segoe UI', Tahoma, sans-serif; margin: 24px; background: #f6f8fb; color: #1f2937; }\n    .grid { display: grid; grid-template-columns: repeat(auto-fit, minmax(220px, 1fr)); gap: 12px; }\n    .card { background: #fff; border-radius: 10px; padding: 12px 14px; box-shadow: 0 2px 8px rgba(0,0,0,0.06); }\n    table { width: 100%; border-collapse: collapse; background: #fff; border-radius: 10px; overflow: hidden; }\n    th, td { border-bottom: 1px solid #e5e7eb; text-align: left; padding: 8px; font-size: 13px; }\n    th { background: #eef2ff; }\n    td code { display: inline-block; max-width: 520px; white-space: pre-wrap; word-break: break-word; }\n    ul { padding-left: 20px; }\n    .section { margin-top: 24px; }\n    .muted { color: #6b7280; }\n    code { background: #eef2ff; padding: 2px 4px; border-radius: 4px; }\n  </style>\n</head>\n<body>\n  <h1>Flowtrace Session <code>";

/// Template text before the generated_at slot.
pub const HTML_PART_2: &'static str = "</code></h1>\n  <p class=\"muted\">Gerado em ";

/// Template text before the initial_url slot.
pub const HTML_PART_3: &'static str = "</p>\n\n  <div class=\"section\">\n    <h2>Resumo</h2>\n    <div class=\"grid\">\n      <div class=\"card\"><strong>URL inicial</strong><br />";

/// Template text before the duration_ms slot.
pub const HTML_PART_4: &'static str = "</div>\n      <div class=\"card\"><strong>Duração</strong><br />";

/// Template text before the navigation_count slot.
pub const HTML_PART_5: &'static str = " ms</div>\n      <div class=\"card\"><strong>Navegações</strong><br />";

/// Template text before the action_count slot.
pub const HTML_PART_6: &'static str = "</div>\n      <div class=\"card\"><strong>Ações</strong><br />";

/// Template text before the request_count slot.
pub const HTML_PART_7: &'static str = "</div>\n      <div class=\"card\"><strong>Requests</strong><br />";

/// Template text before the endpoint_count slot.
pub const HTML_PART_8: &'static str = "</div>\n      <div class=\"card\"><strong>Endpoints</strong><br />";

/// Template text before the timeline_rows slot.
pub const HTML_PART_9: &'static str = "</div>\n    </div>\n  </div>\n\n  <div class=\"section\">\n    <h2>Timeline</h2>\n    <table>\n      <thead>\n        <tr>\n          <th>Timestamp</th><th>Evento</th><th>Rota</th><th>Ação</th><th>Request</th><th>Descrição</th><th>Modelo raw_trace</th>\n        </tr>\n      </thead>\n      <tbody>";

/// Template text before the flows_html slot.
pub const HTML_PART_10: &'static str = "</tbody>\n    </table>\n  </div>\n\n  <div class=\"section\">\n    <h2>Flows por Rota</h2>\n    ";

/// Template text before the graph_nodes slot.
pub const HTML_PART_11: &'static str = "\n  </div>\n\n  <div class=\"section\">\n    <h2>Grafo (Lista)</h2>\n    <h3>Nós</h3>\n    <ul>";

/// Template text before the graph_edges slot.
pub const HTML_PART_12: &'static str = "</ul>\n    <h3>Arestas</h3>\n    <ul>";

/// Template text before the end slot.
pub const HTML_PART_13: &'static str = "</ul>\n  </div>\n</body>\n</html>\n";

/// The texts joined with `sep` between each two.
pub open spec fn join_spec(items: Seq<Seq<char>>, sep: Seq<char>) -> Seq<char>
    decreases items.len(),
{
    if items.len() == 0 {
        seq![]
    } else if items.len() == 1 {
        items[0]
    } else {
        join_spec(items.drop_last(), sep) + sep + items.last()
    }
}

/// `[String]::join`.
pub fn join_strings(items: &Vec<String>, sep: &str) -> (r: String)
    ensures
        r@ == join_spec(views(items@), sep@),
{
    let mut r = String::new();
    for i in 0..items.len()
        invariant
            r@ == join_spec(views(items@.take(i as int)), sep@),
    {
        if i > 0 {
            push_str(&mut r, sep);
        }
        push_str(&mut r, items[i].as_str());
        proof {
            assert(views(items@.take(i + 1)).drop_last() =~= views(items@.take(i as int)));
            if i == 0 {
                assert(views(items@.take(1)) =~= seq![items@[0]@]);
            }
        }
    }
    assert(items@.take(items@.len() as int) =~= items@);
    r
}

/// The list item of one action flow: its type, its label and its requests.
pub open spec fn flow_item(a: ActionFlow) -> Seq<char> {
    "<li><strong>"@ + action_type_name_spec(a.action_type) + "</strong> "@ + escape_html_spec(
        a.action_label@,
    ) + " -> "@ + escape_html_spec(join_spec(views(a.request_ids@), ", "@)) + "</li>"@
}

pub open spec fn flow_items(actions: Seq<ActionFlow>) -> Seq<char>
    decreases actions.len(),
{
    if actions.len() == 0 {
        seq![]
    } else {
        flow_items(actions.drop_last()) + flow_item(actions.last())
    }
}

/// The section of one route: a heading and the list of its action flows.
pub open spec fn route_flow_html(r: RouteFlow) -> Seq<char> {
    "<h4>"@ + escape_html_spec(r.route@) + "</h4>"@ + "<ul>"@ + flow_items(r.actions@) + "</ul>"@
}

pub open spec fn flows_html_spec(flows: Seq<RouteFlow>) -> Seq<char>
    decreases flows.len(),
{
    if flows.len() == 0 {
        seq![]
    } else {
        flows_html_spec(flows.drop_last()) + route_flow_html(flows.last())
    }
}

fn push_flow_item(html: &mut String, a: &ActionFlow)
    ensures
        final(html)@ == old(html)@ + flow_item(*a),
{
    let ghost start = html@;
    push_str(html, "<li><strong>");
    push_str(html, action_type_name(a.action_type));
    push_str(html, "</strong> ");
    let label = escape_html(a.action_label.as_str());
    push_str(html, label.as_str());
    push_str(html, " -> ");
    let joined = join_strings(&a.request_ids, ", ");
    let ids = escape_html(joined.as_str());
    push_str(html, ids.as_str());
    push_str(html, "</li>");
    assert(html@ =~= start + flow_item(*a));
}

fn push_route_flow(html: &mut String, r: &RouteFlow)
    ensures
        final(html)@ == old(html)@ + route_flow_html(*r),
{
    let ghost start = html@;
    push_str(html, "<h4>");
    let route = escape_html(r.route.as_str());
    push_str(html, route.as_str());
    push_str(html, "</h4>");
    push_str(html, "<ul>");
    let ghost head = html@;
    for i in 0..r.actions.len()
        invariant
            html@ == head + flow_items(r.actions@.take(i as int)),
    {
        push_flow_item(html, &r.actions[i]);
        proof {
            assert(r.actions@.take(i + 1).drop_last() =~= r.actions@.take(i as int));
        }
    }
    assert(r.actions@.take(r.actions@.len() as int) =~= r.actions@);
    push_str(html, "</ul>");
    assert(html@ =~= start + route_flow_html(*r));
}

/// The sections of the route flows, one per route.
pub fn render_flows(flows: &Vec<RouteFlow>) -> (html: String)
    ensures
        html@ == flows_html_spec(flows@),
{
    let mut html = String::new();
    for i in 0..flows.len()
        invariant
            html@ == flows_html_spec(flows@.take(i as int)),
    {
        push_route_flow(&mut html, &flows[i]);
        proof {
            assert(flows@.take(i + 1).drop_last() =~= flows@.take(i as int));
        }
    }
    assert(flows@.take(flows@.len() as int) =~= flows@);
    html
}

/// The initial URL shown in the report, escaped; `desconhecida` when unknown.
pub open spec fn initial_url_text(c: CorrelatedTrace) -> Seq<char> {
    escape_html_spec(
        match c.summary.initial_url {
            Some(u) => u@,
            None => "desconhecida"@,
        },
    )
}

/// The head of the report, up to the summary cards.
pub open spec fn report_head(c: CorrelatedTrace, generated_at: Seq<char>) -> Seq<char> {
    HTML_PART_0@ + c.session_id@ + HTML_PART_1@ + c.session_id@ + HTML_PART_2@ + generated_at
        + HTML_PART_3@ + initial_url_text(c) + HTML_PART_4@ + decimal_int(c.summary.duration_ms as int)
        + HTML_PART_5@ + decimal_nat(c.summary.navigation_count as nat) + HTML_PART_6@ + decimal_nat(
        c.summary.action_count as nat,
    ) + HTML_PART_7@ + decimal_nat(c.summary.request_count as nat) + HTML_PART_8@ + decimal_nat(
        c.summary.endpoint_count as nat,
    )
}

/// The whole report: the head with the session and its summary, the
/// timeline rows, the flows per route, and the graph's nodes and edges (the
/// edges with the given texts of their confidences).
pub open spec fn html_report_spec(
    c: CorrelatedTrace,
    generated_at: Seq<char>,
    edge_confidence_texts: Seq<String>,
) -> Seq<char> {
    report_head(c, generated_at) + HTML_PART_9@ + timeline_rows_spec(c.timeline@) + HTML_PART_10@
        + flows_html_spec(c.route_flows@) + HTML_PART_11@ + render_nodes_spec(
        node_views(c.graph.nodes@),
    ) + HTML_PART_12@ + render_edges_spec(c.graph.edges@, edge_confidence_texts)
        + HTML_PART_13@
}

fn render_head(correlated: &CorrelatedTrace, generated_at: &str) -> (html: String)
    ensures
        html@ == report_head(*correlated, generated_at@),
{
    let mut html = String::new();
    push_str(&mut html, HTML_PART_0);
    push_str(&mut html, correlated.session_id.as_str());
    push_str(&mut html, HTML_PART_1);
    push_str(&mut html, correlated.session_id.as_str());
    push_str(&mut html, HTML_PART_2);
    push_str(&mut html, generated_at);
    push_str(&mut html, HTML_PART_3);
    let initial = match &correlated.summary.initial_url {
        Some(u) => escape_html(u.as_str()),
        None => escape_html("desconhecida"),
    };
    push_str(&mut html, initial.as_str());
    push_str(&mut html, HTML_PART_4);
    let ghost a = html@;
    let duration = i64_decimal(correlated.summary.duration_ms);
    push_str(&mut html, duration.as_str());
    push_str(&mut html, HTML_PART_5);
    let navigations = usize_decimal(correlated.summary.navigation_count);
    push_str(&mut html, navigations.as_str());
    push_str(&mut html, HTML_PART_6);
    let actions = usize_decimal(correlated.summary.action_count);
    push_str(&mut html, actions.as_str());
    push_str(&mut html, HTML_PART_7);
    let requests = usize_decimal(correlated.summary.request_count);
    push_str(&mut html, requests.as_str());
    push_str(&mut html, HTML_PART_8);
    let endpoints = usize_decimal(correlated.summary.endpoint_count);
    push_str(&mut html, endpoints.as_str());
    assert(html@ =~= report_head(*correlated, generated_at@));
    html
}

/// The HTML report of `correlated`, generated at the time text `generated_at`.
pub fn render_html_report(
    correlated: &CorrelatedTrace,
    generated_at: &str,
    edge_confidence_texts: &[String],
) -> (html: String)
    requires
        raw_events_cuttable(correlated.timeline@),
        edge_confidence_texts@.len() == correlated.graph.edges@.len(),
    ensures
        html@ == html_report_spec(*correlated, generated_at@, edge_confidence_texts@),
{
    let timeline_rows = render_timeline_rows(correlated.timeline.as_slice());
    let graph_nodes = render_nodes(correlated.graph.nodes.as_slice());
    let graph_edges = render_edges_with(correlated.graph.edges.as_slice(), edge_confidence_texts);
    let flows_html = render_flows(&correlated.route_flows);
    let mut html = render_head(correlated, generated_at);
    let ghost head = html@;
    push_str(&mut html, HTML_PART_9);
    push_str(&mut html, timeline_rows.as_str());
    push_str(&mut html, HTML_PART_10);
    push_str(&mut html, flows_html.as_str());
    push_str(&mut html, HTML_PART_11);
    push_str(&mut html, graph_nodes.as_str());
    push_str(&mut html, HTML_PART_12);
    push_str(&mut html, graph_edges.as_str());
    push_str(&mut html, HTML_PART_13);
    assert(html@ =~= html_report_spec(*correlated, generated_at@, edge_confidence_texts@));
    html
}

} // verus!
