use flowtrace::app::run_session::{collector_config, next_record_step, RecordStep};
use flowtrace::cli::commands::{RecordArgs, TraceEventType};
use flowtrace::cli::open::{open_command, HostOs};
use flowtrace::collector::playwright_process::{collector_command_args, CollectorConfig};
use flowtrace::collector::protocol::{collector_line_display, CollectorStdoutMessage};
use flowtrace::domain::correlation::{
    ActionFlow, CorrelatedTrace, RouteFlow, SessionSummary, TimelineItem,
};
use flowtrace::domain::event::UserActionType;
use flowtrace::domain::graph::{
    ActionNode, BackendEndpointNode, EdgeRelation, RouteNode, TraceEdge, TraceGraph, TraceNode,
};
use flowtrace::report::graph_view::{render_edges_with, render_nodes};
use flowtrace::report::html::{join_strings, render_flows, render_html_report};
use flowtrace::report::timeline::{format_raw_event, render_timeline_rows};
use flowtrace::storage::raw_trace_store::jsonl_entries;
use flowtrace::storage::session_store::{path_join, session_layout};
use flowtrace::text::{
    chars_of, escape_html, i64_decimal, is_blank, str_less, trim_chars, u64_decimal,
};
use flowtrace::utils::similarity::{similarity_counts, singularize_simple, tokenize_path};
use flowtrace::utils::time::{format_unix_ms, format_unix_ms_from};

#[test]
fn escape_html_replaces_markup() {
    assert_eq!(escape_html("<a href=\"x\">&</a>"), "&lt;a href=\"x\"&gt;&amp;&lt;/a&gt;");
    assert_eq!(escape_html("plain"), "plain");
    assert!(!escape_html("<<>>").contains('<'));
}

#[test]
fn decimal_rendering() {
    assert_eq!(u64_decimal(0), "0");
    assert_eq!(u64_decimal(1234567890), "1234567890");
    assert_eq!(i64_decimal(-42), "-42");
    assert_eq!(i64_decimal(i64::MIN), i64::MIN.to_string());
    assert_eq!(i64_decimal(i64::MAX), i64::MAX.to_string());
}

#[test]
fn trimming_and_blank_text() {
    let v = chars_of("\u{3000} x y \t\n");
    let t: String = trim_chars(&v).into_iter().collect();
    assert_eq!(t, "x y");
    assert!(is_blank(" \u{2003}\n"));
    assert!(!is_blank(" a "));
}

#[test]
fn string_order_matches_str() {
    assert!(str_less("abc", "abd"));
    assert!(str_less("ab", "abc"));
    assert!(!str_less("abc", "abc"));
    assert!(str_less("Z", "a"));
    assert_eq!(str_less("é", "z"), "é" < "z");
}

#[test]
fn tokenize_path_of_url_and_route() {
    assert_eq!(
        tokenize_path("https://example.com/api/v1/Users/123?page=2&sort_by=Categories"),
        vec!["user", "page=2", "sort", "by=category"]
    );
    assert_eq!(tokenize_path("/orders/42/items"), vec!["order", "item"]);
    assert_eq!(tokenize_path("  /  "), Vec::<String>::new());
    assert_eq!(tokenize_path("/graphql/v2/internal"), Vec::<String>::new());
}

#[test]
fn singularize_rules() {
    let s = |t: &str| -> String { singularize_simple(t.chars().collect()).into_iter().collect() };
    assert_eq!(s("categories"), "category");
    assert_eq!(s("ies"), "ies");
    assert_eq!(s("users"), "user");
    assert_eq!(s("bus"), "bus");
    assert_eq!(s("çus"), "çu");
    assert_eq!(s("item"), "item");
}

#[test]
fn similarity_counts_of_tokens() {
    assert_eq!(similarity_counts("/users/list", "https://x.com/api/users"), Some((1, 2)));
    assert_eq!(similarity_counts("/api", "/users"), None);
    // Laws on concrete values: symmetry and a text against itself.
    assert_eq!(
        similarity_counts("/a/b/c", "/c/d"),
        similarity_counts("/c/d", "/a/b/c")
    );
    assert_eq!(similarity_counts("/a/b/b", "/a/b/b"), Some((2, 2)));
}

#[test]
fn format_unix_ms_texts() {
    assert_eq!(format_unix_ms(947638923004), "2000-01-12 01:02:03.004 UTC");
    assert_eq!(format_unix_ms(0), "1970-01-01 00:00:00.000 UTC");
    assert_eq!(format_unix_ms(i64::MAX), i64::MAX.to_string());
    assert_eq!(format_unix_ms_from(5, None), "5");
    assert_eq!(format_unix_ms_from(5, Some("x".to_string())), "x");
}

#[test]
fn format_raw_event_truncates_at_the_byte_limit() {
    assert_eq!(format_raw_event(None), "-");
    let short = "{\"a\":1}".to_string();
    assert_eq!(format_raw_event(Some(&short)), short);
    let long = "a".repeat(1300);
    let out = format_raw_event(Some(&long));
    assert_eq!(out, format!("{}…", "a".repeat(1200)));
    let exact = "b".repeat(1200);
    assert_eq!(format_raw_event(Some(&exact)), exact);
}

fn item(ts: i64, kind: &str, route: Option<&str>, raw: Option<&str>) -> TimelineItem {
    TimelineItem {
        ts_unix_ms: ts,
        event_type: kind.to_string(),
        route: route.map(|r| r.to_string()),
        action_id: None,
        request_id: Some("r<1>".to_string()),
        description: "GET /x?a=1&b=2".to_string(),
        raw_event: raw.map(|r| r.to_string()),
    }
}

#[test]
fn render_timeline_rows_cells() {
    let rows = render_timeline_rows(&[item(0, "NetworkRequest", Some("/users"), Some("{\"k\":\"<v>\"}"))]);
    assert_eq!(
        rows,
        "<tr><td>1970-01-01 00:00:00.000 UTC</td><td>NetworkRequest</td><td>/users</td><td>-</td><td>r&lt;1&gt;</td><td>GET /x?a=1&amp;b=2</td><td><code>{\"k\":\"&lt;v&gt;\"}</code></td></tr>"
    );
    assert_eq!(render_timeline_rows(&[]), "");
}

fn sample_graph() -> TraceGraph {
    TraceGraph {
        nodes: vec![
            TraceNode::Route(RouteNode { id: "route:/a".to_string(), route: "/a".to_string() }),
            TraceNode::Action(ActionNode {
                id: "action:x".to_string(),
                action_id: "x".to_string(),
                action_type: UserActionType::KeyPress,
                label: "l".to_string(),
                route: None,
                ts_unix_ms: 1,
            }),
            TraceNode::BackendEndpoint(BackendEndpointNode {
                id: "endpoint:/e".to_string(),
                endpoint: "/e<>".to_string(),
            }),
        ],
        edges: vec![TraceEdge {
            from: "route:/a".to_string(),
            to: "action:x".to_string(),
            relation: EdgeRelation::OccurredOnRoute,
            confidence_bits: 1.0f32.to_bits(),
            evidence: vec![],
        }],
    }
}

#[test]
fn render_nodes_and_edges() {
    let g = sample_graph();
    assert_eq!(
        render_nodes(&g.nodes),
        "<li>Route: /a</li><li>Action: KeyPress (x)</li><li>Endpoint: /e&lt;&gt;</li>"
    );
    assert_eq!(
        render_edges_with(&g.edges, &["1.00".to_string()]),
        "<li>route:/a -&gt; action:x (OccurredOnRoute, conf 1.00)</li>"
    );
}

#[test]
fn render_flows_lists_actions() {
    let flows = vec![RouteFlow {
        route: "/a&b".to_string(),
        actions: vec![ActionFlow {
            action_id: "x".to_string(),
            action_type: UserActionType::Submit,
            action_label: "Send".to_string(),
            request_ids: vec!["r1".to_string(), "r2".to_string()],
        }],
    }];
    assert_eq!(
        render_flows(&flows),
        "<h4>/a&amp;b</h4><ul><li><strong>Submit</strong> Send -> r1, r2</li></ul>"
    );
    assert_eq!(join_strings(&vec![], ", "), "");
    assert_eq!(join_strings(&vec!["a".to_string()], ", "), "a");
}

fn sample_trace() -> CorrelatedTrace {
    CorrelatedTrace {
        session_id: "sess".to_string(),
        total_events: 1,
        summary: SessionSummary {
            initial_url: None,
            started_at_unix_ms: Some(0),
            ended_at_unix_ms: Some(0),
            duration_ms: 1500,
            navigation_count: 2,
            action_count: 3,
            request_count: 4,
            endpoint_count: 5,
        },
        correlations: vec![],
        route_flows: vec![],
        timeline: vec![item(0, "ConsoleLog", None, None)],
        graph: sample_graph(),
    }
}

#[test]
fn render_html_report_fills_the_template() {
    let t = sample_trace();
    let html = render_html_report(&t, "agora", &["1.00".to_string()]);
    assert!(html.starts_with("<!doctype html>\n<html lang=\"pt-BR\">"));
    assert!(html.contains("<title>Flowtrace Report sess</title>"));
    assert!(html.contains("<p class=\"muted\">Gerado em agora</p>"));
    assert!(html.contains("<strong>URL inicial</strong><br />desconhecida</div>"));
    assert!(html.contains("<strong>Duração</strong><br />1500 ms</div>"));
    assert!(html.contains("<strong>Endpoints</strong><br />5</div>"));
    assert!(html.contains("<tbody><tr><td>1970-01-01 00:00:00.000 UTC</td><td>ConsoleLog</td><td>-</td>"));
    assert!(html.contains("<ul><li>Route: /a</li>"));
    assert!(html.ends_with("</ul>\n  </div>\n</body>\n</html>\n"));
}

#[test]
fn event_type_names() {
    assert_eq!(TraceEventType::DomSnapshotMarker.as_event_name(), "DomSnapshotMarker");
    assert_eq!(TraceEventType::BrowserOpened.as_event_name(), "BrowserOpened");
}

#[test]
fn open_command_per_platform() {
    assert_eq!(open_command(HostOs::MacOs, "/r/i.html"), ("open".to_string(), vec!["/r/i.html".to_string()]));
    assert_eq!(
        open_command(HostOs::Windows, "C:\\r"),
        ("cmd".to_string(), vec!["/C".to_string(), "start".to_string(), "C:\\r".to_string()])
    );
    assert_eq!(open_command(HostOs::Other, "x"), ("xdg-open".to_string(), vec!["x".to_string()]));
}

fn record_args(headless: bool) -> RecordArgs {
    RecordArgs {
        url: "http://localhost:3000".to_string(),
        reports_dir: "reports".to_string(),
        collector_script: "collector/src/index.js".to_string(),
        node_bin: "node".to_string(),
        browser: "chromium".to_string(),
        headless,
        shutdown_timeout_secs: 30,
        event_types: vec![TraceEventType::UserAction, TraceEventType::NetworkRequest],
    }
}

#[test]
fn collector_configuration_and_arguments() {
    let c = collector_config(&record_args(true), "sid", "reports/sid/raw_trace.jsonl");
    assert_eq!(c.event_types, vec!["UserAction".to_string(), "NetworkRequest".to_string()]);
    assert_eq!(c.output_path, "reports/sid/raw_trace.jsonl");
    assert_eq!(
        collector_command_args(&c),
        vec![
            "collector/src/index.js", "--session-id", "sid", "--output", "reports/sid/raw_trace.jsonl",
            "--url", "http://localhost:3000", "--browser", "chromium", "--headless",
        ]
    );
    let plain = CollectorConfig { headless: false, ..c };
    assert_eq!(collector_command_args(&plain).len(), 9);
}

#[test]
fn collector_lines() {
    let with = Some(CollectorStdoutMessage::Status { message: "ready".to_string(), detail: Some("{\"a\":1}".to_string()) });
    assert_eq!(collector_line_display(&with, "ignored"), "[collector] ready {\"a\":1}");
    let without = Some(CollectorStdoutMessage::Status { message: "ready".to_string(), detail: None });
    assert_eq!(collector_line_display(&without, "ignored"), "[collector] ready");
    assert_eq!(collector_line_display(&None, "raw text"), "[collector] raw text");
}

#[test]
fn record_steps() {
    assert_eq!(next_record_step(true, true), RecordStep::Shutdown);
    assert_eq!(next_record_step(false, true), RecordStep::CollectorExited);
    assert_eq!(next_record_step(false, false), RecordStep::Wait);
}

#[test]
fn jsonl_entries_skip_blank_lines() {
    let lines = vec!["  {\"a\":1} ".to_string(), "".to_string(), "\t".to_string(), "{}".to_string()];
    let entries = jsonl_entries(&lines);
    assert_eq!(entries.len(), 2);
    assert_eq!((entries[0].line, entries[0].text.as_str()), (1, "{\"a\":1}"));
    assert_eq!((entries[1].line, entries[1].text.as_str()), (4, "{}"));
}

#[test]
fn session_layout_under_reports_dir() {
    let p = session_layout("reports", "abc");
    assert_eq!(p.session_id, "abc");
    assert_eq!(p.session_dir, "reports/abc");
    assert_eq!(p.raw_trace_path, "reports/abc/raw_trace.jsonl");
    assert_eq!(p.correlated_trace_path, "reports/abc/correlated_trace.json");
    assert_eq!(p.index_html_path, "reports/abc/index.html");
    let q = session_layout("out/", "s1");
    assert_eq!(q.index_html_path, "out/s1/index.html");
}

#[test]
fn path_join_cases() {
    assert_eq!(path_join("a", "b"), "a/b");
    assert_eq!(path_join("a/", "b"), "a/b");
    assert_eq!(path_join("", "b"), "b");
    assert_eq!(path_join("a", "/b"), "/b");
    assert_eq!(path_join("a", ""), "a/");
}

#[test]
fn tokenizing_a_joined_path_concatenates_tokens() {
    let a = "Api/V1/Users-123";
    let b = "orders_items?Page=2";
    let mut both = tokenize_path(a);
    both.extend(tokenize_path(b));
    assert_eq!(tokenize_path(&format!("{a}/{b}")), both);
    assert_eq!(both, vec!["user", "order", "item", "page=2"]);
}

#[test]
fn format_unix_ms_calendar_edges() {
    assert_eq!(format_unix_ms(-1), "1969-12-31 23:59:59.999 UTC");
    assert_eq!(format_unix_ms(947638923004), "2000-01-12 01:02:03.004 UTC");
    assert_eq!(format_unix_ms(253402300800000), "+10000-01-01 00:00:00.000 UTC");
    assert_eq!(format_unix_ms(-62167219200000), "0000-01-01 00:00:00.000 UTC");
    assert_eq!(format_unix_ms(-62184499200000 + 3_723_045), "-0001-06-15 01:02:03.045 UTC");
    // The last instant of year 262142 and the first of year -262143 have a text;
    // the instants just outside are written in decimal.
    assert_eq!(format_unix_ms(8210266876800000 - 1), "+262142-12-31 23:59:59.999 UTC");
    assert_eq!(format_unix_ms(8210266876800000), "8210266876800000");
    assert_eq!(format_unix_ms(-8334601228800000), "-262143-01-01 00:00:00.000 UTC");
    assert_eq!(format_unix_ms(-8334601228800000 - 1), "-8334601228800001");
}
