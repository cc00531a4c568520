use flowtrace::app::run_session::select_recorded_events;
use flowtrace::cli::commands::TraceEventType;
use flowtrace::correlator::collect::{collect_session, format_event_type};
use flowtrace::correlator::engine::{
    assemble_trace, build_graph, burst_evidence, burst_sizes, candidate_actions,
    correlate_requests, count_distinct_endpoints, saturating_sub_i64, CorrelationLink,
};
use flowtrace::correlator::grouping::{build_route_flows, ActionRecord};
use flowtrace::correlator::heuristics::{canonical_endpoint, classify_request, endpoint_from_parts};
use flowtrace::correlator::scoring::score_signals;
use flowtrace::domain::correlation::RequestCorrelation;
use flowtrace::domain::event::{
    ActionTarget, BrowserClosedEvent, BrowserOpenedEvent, ConsoleLogEvent, InitiatorHint,
    InitiatorSourceType, NavigationType, NetworkRequestEvent, PageNavigatedEvent,
    RequestClassification, RouteChangedEvent, TraceEvent, TraceEventEnvelope, UserActionEvent,
    UserActionType,
};
use flowtrace::domain::graph::{EdgeRelation, TraceNode};
use flowtrace::domain::trace::{route_for_event, sort_events};
use flowtrace::utils::urls::UrlParts;

fn target(text: Option<&str>) -> ActionTarget {
    ActionTarget {
        tag_name: Some("button".to_string()),
        id: None,
        classes: vec![],
        text: text.map(|t| t.to_string()),
        test_id: None,
        name: None,
        role: None,
        css_selector: None,
        xpath: None,
    }
}

fn action(id: &str, kind: UserActionType, route: Option<&str>, text: Option<&str>) -> UserActionEvent {
    UserActionEvent {
        action_id: id.to_string(),
        action_type: kind,
        page_url: "http://localhost:3000/page".to_string(),
        route: route.map(|r| r.to_string()),
        target: target(text),
        metadata: "{}".to_string(),
    }
}

fn request(id: &str, url: &str, route: Option<&str>, resource: Option<&str>) -> NetworkRequestEvent {
    NetworkRequestEvent {
        request_id: id.to_string(),
        page_url: "http://localhost:3000/page".to_string(),
        route: route.map(|r| r.to_string()),
        method: "GET".to_string(),
        url: url.to_string(),
        resource_type: resource.map(|r| r.to_string()),
        headers: vec![],
        post_data: None,
        initiator_hint: None,
        classification: RequestClassification::Unknown,
    }
}

fn env(id: &str, ts: i64, event: TraceEvent) -> TraceEventEnvelope {
    TraceEventEnvelope { id: id.to_string(), ts_unix_ms: ts, session_id: "s1".to_string(), event }
}

fn sample_events() -> Vec<TraceEventEnvelope> {
    vec![
        env("e4", 1_300, TraceEvent::NetworkRequest(request("r1", "http://localhost:3000/api/users?page=1", Some("/users"), Some("fetch")))),
        env("e1", 1_000, TraceEvent::BrowserOpened(BrowserOpenedEvent { browser: "chromium".to_string(), url: "http://localhost:3000".to_string() })),
        env("e2", 1_100, TraceEvent::PageNavigated(PageNavigatedEvent { from_url: None, to_url: "http://localhost:3000/users".to_string() })),
        env("e3", 1_200, TraceEvent::UserAction(action("a1", UserActionType::Click, Some("/users"), Some("Load users")))),
        env("e5", 1_400, TraceEvent::NetworkRequest(request("r2", "https://www.google-analytics.com/collect", Some("/users"), None))),
        env("e6", 9_000, TraceEvent::RouteChanged(RouteChangedEvent { from_url: None, to_url: "/settings".to_string(), navigation_type: NavigationType::PushState })),
        env("e7", 9_100, TraceEvent::ConsoleLog(ConsoleLogEvent { level: "info".to_string(), text: "hi".to_string() })),
        env("e8", 9_200, TraceEvent::BrowserClosed(BrowserClosedEvent { reason: None })),
    ]
}

#[test]
fn sort_events_orders_by_time_and_keeps_ties_in_order() {
    let events = vec![
        env("b", 5, TraceEvent::BrowserClosed(BrowserClosedEvent { reason: None })),
        env("a1", 1, TraceEvent::BrowserClosed(BrowserClosedEvent { reason: None })),
        env("c", 5, TraceEvent::BrowserClosed(BrowserClosedEvent { reason: Some("x".to_string()) })),
        env("a2", 1, TraceEvent::BrowserClosed(BrowserClosedEvent { reason: None })),
    ];
    let sorted = sort_events(events);
    let ids: Vec<&str> = sorted.iter().map(|e| e.id.as_str()).collect();
    assert_eq!(ids, vec!["a1", "a2", "b", "c"]);
}

#[test]
fn route_for_event_prefers_route_then_page() {
    let with_route = TraceEvent::UserAction(action("a", UserActionType::Click, Some("/r"), None));
    let without = TraceEvent::UserAction(action("a", UserActionType::Click, None, None));
    assert_eq!(route_for_event(&with_route), Some("/r".to_string()));
    assert_eq!(route_for_event(&without), Some("http://localhost:3000/page".to_string()));
    let console = TraceEvent::ConsoleLog(ConsoleLogEvent { level: "x".to_string(), text: "y".to_string() });
    assert_eq!(route_for_event(&console), None);
    let nav = TraceEvent::RouteChanged(RouteChangedEvent { from_url: None, to_url: "/to".to_string(), navigation_type: NavigationType::PopState });
    assert_eq!(route_for_event(&nav), Some("/to".to_string()));
}

#[test]
fn classify_request_rules() {
    assert_eq!(classify_request(&request("r", "https://x.com/a", None, Some("Beacon"))), RequestClassification::Analytics);
    assert_eq!(classify_request(&request("r", "https://SENTRY.io/x", None, Some("fetch"))), RequestClassification::Analytics);
    assert_eq!(classify_request(&request("r", "https://x.com/logo.png", None, Some("image"))), RequestClassification::StaticAsset);
    assert_eq!(classify_request(&request("r", "https://x.com/favicon.ico", None, None)), RequestClassification::StaticAsset);
    assert_eq!(classify_request(&request("r", "https://x.com/", None, Some("Document"))), RequestClassification::NavigationDocument);
    assert_eq!(classify_request(&request("r", "https://x.com/data", None, Some("xhr"))), RequestClassification::AppData);
    assert_eq!(classify_request(&request("r", "https://x.com/API/items", None, None)), RequestClassification::AppData);
    assert_eq!(classify_request(&request("r", "https://x.com/graphql", None, Some("websocket"))), RequestClassification::AppData);
    assert_eq!(classify_request(&request("r", "https://x.com/other", None, Some("websocket"))), RequestClassification::Unknown);
    assert_eq!(RequestClassification::default(), RequestClassification::Unknown);
}

#[test]
fn canonical_endpoint_takes_the_url_path() {
    assert_eq!(canonical_endpoint("https://example.com/api/items?x=1#f"), "/api/items");
    assert_eq!(canonical_endpoint("https://example.com"), "/");
    assert_eq!(canonical_endpoint("not a url"), "not a url");
    assert_eq!(
        endpoint_from_parts("mailto:", Some(UrlParts { path: String::new(), query: None })),
        "/"
    );
    assert_eq!(endpoint_from_parts("raw", None), "raw");
    assert_eq!(canonical_endpoint("https://api.example.com/v1/users?id=3#x"), "/v1/users");
    assert_eq!(canonical_endpoint("/v1/users?id=3"), "/v1/users?id=3");
}

#[test]
fn collect_session_builds_timeline_and_records() {
    let s = collect_session(sample_events());
    assert_eq!(s.session_id, "s1");
    assert_eq!(s.total_events, 8);
    assert_eq!(s.initial_url, Some("http://localhost:3000".to_string()));
    assert_eq!(s.started_at_unix_ms, Some(1_000));
    assert_eq!(s.ended_at_unix_ms, Some(9_200));
    assert_eq!(s.navigation_count, 2);
    assert_eq!(s.actions.len(), 1);
    assert_eq!(s.requests.len(), 2);
    assert_eq!(s.requests[0].event.classification, RequestClassification::AppData);
    assert_eq!(s.requests[1].event.classification, RequestClassification::Analytics);
    let kinds: Vec<&str> = s.timeline.iter().map(|t| t.event_type.as_str()).collect();
    assert_eq!(
        kinds,
        vec!["BrowserOpened", "PageNavigated", "UserAction", "NetworkRequest", "NetworkRequest", "RouteChanged", "ConsoleLog", "BrowserClosed"]
    );
    assert_eq!(s.timeline[0].description, "Browser chromium aberto");
    assert_eq!(s.timeline[1].description, "Navegação para http://localhost:3000/users");
    assert_eq!(s.timeline[2].description, "Ação Click");
    assert_eq!(s.timeline[2].action_id, Some("a1".to_string()));
    assert_eq!(s.timeline[3].description, "GET http://localhost:3000/api/users?page=1");
    assert_eq!(s.timeline[3].request_id, Some("r1".to_string()));
    assert_eq!(s.timeline[5].description, "Rota alterada para /settings");
    assert_eq!(s.timeline[6].description, "ConsoleLog");
    assert_eq!(s.timeline[6].route, None);
    assert_eq!(s.timeline[7].event_type, "BrowserClosed");
    // Law on concrete values: the timeline is in time order, one row per event.
    assert!(s.timeline.windows(2).all(|w| w[0].ts_unix_ms <= w[1].ts_unix_ms));
}

#[test]
fn collect_session_of_no_events() {
    let s = collect_session(vec![]);
    assert_eq!(s.session_id, "unknown");
    assert_eq!(s.total_events, 0);
    assert_eq!(s.started_at_unix_ms, None);
    assert_eq!(s.ended_at_unix_ms, None);
    assert!(s.timeline.is_empty());
}

#[test]
fn format_event_type_names() {
    let e = TraceEvent::DomSnapshotMarker(flowtrace::domain::event::DomSnapshotMarkerEvent { marker: "m".to_string(), route: None });
    assert_eq!(format_event_type(&e), "DomSnapshotMarker");
}

#[test]
fn candidate_actions_within_window() {
    let actions = vec![
        ActionRecord { ts_unix_ms: 100, event: action("a", UserActionType::Click, None, None) },
        ActionRecord { ts_unix_ms: 1_000, event: action("b", UserActionType::Click, None, None) },
        ActionRecord { ts_unix_ms: 2_500, event: action("c", UserActionType::Click, None, None) },
        ActionRecord { ts_unix_ms: 3_500, event: action("d", UserActionType::Click, None, None) },
    ];
    assert_eq!(candidate_actions(&actions, 3_000, 2_000), vec![1, 2]);
    assert_eq!(candidate_actions(&actions, 0, 2_000), Vec::<usize>::new());
    assert_eq!(candidate_actions(&actions, i64::MAX, i64::MAX), vec![0, 1, 2, 3]);
}

#[test]
fn score_signals_evidence() {
    let mut req = request("r", "http://localhost:3000/api/users", Some("/users"), None);
    req.initiator_hint = Some(InitiatorHint {
        source_type: InitiatorSourceType::Fetch,
        related_action_id: Some("a1".to_string()),
        js_stack: vec![],
        trigger_ts_unix_ms: None,
    });
    let act = action("a1", UserActionType::Click, Some("/users"), None);
    let s = score_signals(&act, 1_000, &req, 1_250);
    assert_eq!(s.delta_ms, 250);
    assert!(s.explicit_context);
    assert!(s.same_route);
    assert_eq!(s.semantic_counts, Some((1, 1)));
    assert_eq!(
        s.evidence,
        vec![
            "related_action_id explícito no initiator_hint".to_string(),
            "proximidade temporal de 250ms".to_string(),
            "ação e request na mesma rota".to_string(),
        ]
    );
    let other = action("zz", UserActionType::Input, None, None);
    let s2 = score_signals(&other, 2_000, &req, 1_000);
    assert_eq!(s2.delta_ms, 0);
    assert!(!s2.explicit_context);
    assert!(!s2.same_route);
    assert_eq!(s2.semantic_counts, None);
    assert_eq!(s2.evidence, vec!["proximidade temporal de 0ms".to_string()]);
}

fn sample_trace_parts() -> (flowtrace::correlator::collect::SessionEvents, Vec<RequestCorrelation>) {
    let s = collect_session(sample_events());
    let links = vec![
        Some(CorrelationLink { action_index: 0, confidence_bits: 0.75f32.to_bits(), evidence: vec!["e".to_string()] }),
        None,
    ];
    let cs = correlate_requests(&s.actions, &s.requests, &links, 2_000);
    (s, cs)
}

#[test]
fn correlate_requests_follows_links() {
    let (_s, cs) = sample_trace_parts();
    assert_eq!(cs.len(), 2);
    assert_eq!(cs[0].request_id, "r1");
    assert_eq!(cs[0].endpoint, "/api/users");
    assert_eq!(cs[0].route, Some("/users".to_string()));
    assert_eq!(cs[0].action_id, Some("a1".to_string()));
    assert_eq!(cs[0].action_type, Some(UserActionType::Click));
    assert_eq!(f32::from_bits(cs[0].confidence_bits), 0.75);
    assert_eq!(cs[0].evidence, vec!["e".to_string()]);
    assert_eq!(cs[1].action_id, None);
    assert_eq!(f32::from_bits(cs[1].confidence_bits), 0.0);
    assert_eq!(cs[1].evidence, vec!["sem associação forte com ação explícita".to_string()]);
    assert_eq!(cs[1].endpoint, "/collect");
}

#[test]
fn burst_sizes_count_shared_actions() {
    let (_s, mut cs) = sample_trace_parts();
    let mut third = cs[0].clone();
    third.request_id = "r3".to_string();
    cs.push(third);
    assert_eq!(burst_sizes(&cs), vec![2, 0, 2]);
    assert_eq!(burst_evidence(2), "burst de 2 requests para mesma ação");
    assert_eq!(count_distinct_endpoints(&cs), 2);
}

#[test]
fn saturating_sub_bounds() {
    assert_eq!(saturating_sub_i64(10, 3), 7);
    assert_eq!(saturating_sub_i64(i64::MAX, -1), i64::MAX);
    assert_eq!(saturating_sub_i64(i64::MIN, 1), i64::MIN);
}

#[test]
fn build_graph_nodes_and_edges() {
    let (s, cs) = sample_trace_parts();
    let g = build_graph(&s.actions, &cs);
    let ids: Vec<String> = g
        .nodes
        .iter()
        .map(|n| match n {
            TraceNode::Route(r) => r.id.clone(),
            TraceNode::Action(a) => a.id.clone(),
            TraceNode::Request(r) => r.id.clone(),
            TraceNode::BackendEndpoint(e) => e.id.clone(),
        })
        .collect();
    assert_eq!(
        ids,
        vec!["action:a1", "route:/users", "request:r1", "endpoint:/api/users", "request:r2", "endpoint:/collect"]
    );
    let rel: Vec<EdgeRelation> = g.edges.iter().map(|e| e.relation).collect();
    assert_eq!(
        rel,
        vec![
            EdgeRelation::OccurredOnRoute,
            EdgeRelation::ConsumesEndpoint,
            EdgeRelation::CorrelatesTo,
            EdgeRelation::Triggered,
            EdgeRelation::ConsumesEndpoint,
            EdgeRelation::CorrelatesTo,
        ]
    );
    assert_eq!(f32::from_bits(g.edges[2].confidence_bits), 0.6);
    assert_eq!(f32::from_bits(g.edges[0].confidence_bits), 1.0);
    // Laws on concrete values: ids are unique and every edge joins two nodes.
    let mut sorted = ids.clone();
    sorted.sort();
    sorted.dedup();
    assert_eq!(sorted.len(), ids.len());
    for e in &g.edges {
        assert!(ids.contains(&e.from) && ids.contains(&e.to));
    }
    match &g.nodes[0] {
        TraceNode::Action(a) => assert_eq!(a.label, "Load users"),
        _ => panic!("first node is the action"),
    }
}

#[test]
fn build_graph_followed_by_in_time_order() {
    let actions = vec![
        ActionRecord { ts_unix_ms: 30, event: action("late", UserActionType::Click, Some("/a"), Some("  ")) },
        ActionRecord { ts_unix_ms: 10, event: action("early", UserActionType::Submit, Some("/b"), None) },
        ActionRecord { ts_unix_ms: 10, event: action("early2", UserActionType::Input, Some("/a"), None) },
    ];
    let g = build_graph(&actions, &vec![]);
    let follows: Vec<(String, String)> = g
        .edges
        .iter()
        .filter(|e| e.relation == EdgeRelation::FollowedBy)
        .map(|e| (e.from.clone(), e.to.clone()))
        .collect();
    assert_eq!(
        follows,
        vec![
            ("action:early".to_string(), "action:early2".to_string()),
            ("action:early2".to_string(), "action:late".to_string()),
        ]
    );
    assert_eq!(f32::from_bits(g.edges.last().unwrap().confidence_bits), 0.8);
    match &g.nodes[0] {
        TraceNode::Action(a) => assert_eq!(a.label, "Click"),
        _ => panic!("first node is the action"),
    }
    // "/a" is proposed twice but kept once.
    assert_eq!(g.nodes.len(), 5);
}

#[test]
fn build_route_flows_groups_and_sorts() {
    let actions = vec![
        ActionRecord { ts_unix_ms: 1, event: action("b2", UserActionType::Click, Some("/b"), Some("B2")) },
        ActionRecord { ts_unix_ms: 2, event: action("a1", UserActionType::Submit, Some("/a"), None) },
        ActionRecord { ts_unix_ms: 3, event: action("b1", UserActionType::Click, Some("/b"), Some("")) },
    ];
    let mut c1 = sample_trace_parts().1[0].clone();
    c1.action_id = Some("b1".to_string());
    c1.request_id = "q1".to_string();
    let mut c2 = c1.clone();
    c2.request_id = "q2".to_string();
    let flows = build_route_flows(&actions, &vec![c1, c2]);
    assert_eq!(flows.len(), 2);
    assert_eq!(flows[0].route, "/a");
    assert_eq!(flows[0].actions[0].action_label, "Submit");
    assert_eq!(flows[1].route, "/b");
    let ids: Vec<&str> = flows[1].actions.iter().map(|a| a.action_id.as_str()).collect();
    assert_eq!(ids, vec!["b1", "b2"]);
    assert_eq!(flows[1].actions[0].request_ids, vec!["q1".to_string(), "q2".to_string()]);
    assert_eq!(flows[1].actions[0].action_label, "Click");
    assert_eq!(flows[1].actions[1].action_label, "B2");
}

#[test]
fn assemble_trace_summary() {
    let (s, cs) = sample_trace_parts();
    let t = assemble_trace(s, cs);
    assert_eq!(t.session_id, "s1");
    assert_eq!(t.total_events, 8);
    assert_eq!(t.summary.duration_ms, 8_200);
    assert_eq!(t.summary.navigation_count, 2);
    assert_eq!(t.summary.action_count, 1);
    assert_eq!(t.summary.request_count, 2);
    assert_eq!(t.summary.endpoint_count, 2);
    assert_eq!(t.route_flows.len(), 1);
    assert_eq!(t.route_flows[0].actions[0].request_ids, vec!["r1".to_string()]);
    assert_eq!(t.timeline.len(), 8);
    // Law on concrete values: counters stay within the number of events.
    assert!(t.summary.action_count + t.summary.request_count + t.summary.navigation_count <= t.total_events);
    assert!(t.summary.endpoint_count <= t.summary.request_count);
}

fn node_id(n: &TraceNode) -> String {
    match n {
        TraceNode::Route(r) => r.id.clone(),
        TraceNode::Action(a) => a.id.clone(),
        TraceNode::Request(r) => r.id.clone(),
        TraceNode::BackendEndpoint(e) => e.id.clone(),
    }
}

fn node_kind(n: &TraceNode) -> &'static str {
    match n {
        TraceNode::Route(_) => "route",
        TraceNode::Action(_) => "action",
        TraceNode::Request(_) => "request",
        TraceNode::BackendEndpoint(_) => "endpoint",
    }
}

#[test]
fn correlating_twice_gives_the_same_trace() {
    let (s1, cs1) = sample_trace_parts();
    let (s2, cs2) = sample_trace_parts();
    let t1 = assemble_trace(s1, cs1);
    let t2 = assemble_trace(s2, cs2);
    assert_eq!(t1, t2);
}

#[test]
fn graph_node_ids_carry_their_kind_and_first_node_is_kept() {
    let actions = vec![
        ActionRecord { ts_unix_ms: 5, event: action("x", UserActionType::Click, Some("/a"), Some("first")) },
    ];
    let (_s, cs) = sample_trace_parts();
    let mut c = cs[0].clone();
    c.route = Some("/a".to_string());
    let g = build_graph(&actions, &vec![c]);
    for n in &g.nodes {
        let id = node_id(n);
        match n {
            TraceNode::Route(r) => assert_eq!(id, format!("route:{}", r.route)),
            TraceNode::Action(a) => assert_eq!(id, format!("action:{}", a.action_id)),
            TraceNode::Request(r) => assert_eq!(id, format!("request:{}", r.request_id)),
            TraceNode::BackendEndpoint(e) => assert_eq!(id, format!("endpoint:{}", e.endpoint)),
        }
    }
    // "route:/a" is proposed by the action and by the correlation; one is kept.
    let routes = g.nodes.iter().filter(|n| node_id(n) == "route:/a").count();
    assert_eq!(routes, 1);
}

#[test]
fn graph_edges_join_nodes_of_their_relation_kinds() {
    let (s, cs) = sample_trace_parts();
    let mut actions = s.actions.clone();
    actions.push(ActionRecord { ts_unix_ms: 1_250, event: action("a2", UserActionType::Input, Some("/users"), None) });
    let g = build_graph(&actions, &cs);
    for e in &g.edges {
        let from = g.nodes.iter().find(|n| node_id(n) == e.from).expect("from node");
        let to = g.nodes.iter().find(|n| node_id(n) == e.to).expect("to node");
        let expected = match e.relation {
            EdgeRelation::OccurredOnRoute => ("route", "action"),
            EdgeRelation::Triggered => ("action", "request"),
            EdgeRelation::CorrelatesTo => ("route", "request"),
            EdgeRelation::ConsumesEndpoint => ("request", "endpoint"),
            EdgeRelation::FollowedBy => ("action", "action"),
        };
        assert_eq!((node_kind(from), node_kind(to)), expected);
    }
    assert!(g.edges.iter().any(|e| e.relation == EdgeRelation::FollowedBy));
}

#[test]
fn recorded_events_keep_the_chosen_kinds() {
    let all = sample_events();
    assert_eq!(select_recorded_events(all.clone(), &vec![]), all);
    let kept = select_recorded_events(
        all.clone(),
        &vec![TraceEventType::NetworkRequest, TraceEventType::BrowserClosed],
    );
    let ids: Vec<&str> = kept.iter().map(|e| e.id.as_str()).collect();
    assert_eq!(ids, vec!["e4", "e5", "e8"]);
    assert!(select_recorded_events(all, &vec![TraceEventType::NetworkResponse]).is_empty());
}
