//! One pass over a session's events in time order: the timeline, the user
//! actions, the (classified) network requests and the session's counters.
use vstd::prelude::*;

use crate::correlator::grouping::ActionRecord;
use crate::correlator::heuristics::{classify_request, classify_spec};
use crate::domain::correlation::TimelineItem;
use crate::domain::event::{
    action_type_name, action_type_name_spec, route_or_page, route_or_page_exec,
    NetworkRequestEvent, RequestClassification, TraceEvent, TraceEventEnvelope,
};
use crate::domain::trace::{route_for_event, route_for_event_spec, sort_events};
use crate::order::{is_stable_sort_of, lemma_stable_sort_sorted, sorted_by_key, SortKey};
use crate::text::{opt_view, push_str, string_of};

verus! {

broadcast use vstd::seq_lib::group_seq_properties;

/// A network request and when it was sent.
#[derive(Debug, Clone, PartialEq)]
pub struct RequestRecord {
    pub ts_unix_ms: i64,
    pub event: NetworkRequestEvent,
}

/// A timeline row as plain values.
pub struct TimelineView {
    pub ts_unix_ms: i64,
    pub event_type: Seq<char>,
    pub route: Option<Seq<char>>,
    pub action_id: Option<Seq<char>>,
    pub request_id: Option<Seq<char>>,
    pub description: Seq<char>,
    pub raw_event: Option<Seq<char>>,
}

impl View for TimelineItem {
    type V = TimelineView;

    open spec fn view(&self) -> TimelineView {
        TimelineView {
            ts_unix_ms: self.ts_unix_ms,
            event_type: self.event_type@,
            route: opt_view(self.route),
            action_id: opt_view(self.action_id),
            request_id: opt_view(self.request_id),
            description: self.description@,
            raw_event: opt_view(self.raw_event),
        }
    }
}

pub open spec fn timeline_view_fn() -> spec_fn(TimelineItem) -> TimelineView {
    |t: TimelineItem| t@
}

pub open spec fn timeline_views(s: Seq<TimelineItem>) -> Seq<TimelineView> {
    s.map_values(timeline_view_fn())
}

/// The name of an event's kind.
pub open spec fn event_type_name(e: TraceEvent) -> Seq<char> {
    match e {
        TraceEvent::BrowserOpened(_) => "BrowserOpened"@,
        TraceEvent::PageNavigated(_) => "PageNavigated"@,
        TraceEvent::RouteChanged(_) => "RouteChanged"@,
        TraceEvent::UserAction(_) => "UserAction"@,
        TraceEvent::NetworkRequest(_) => "NetworkRequest"@,
        TraceEvent::NetworkResponse(_) => "NetworkResponse"@,
        TraceEvent::ConsoleLog(_) => "ConsoleLog"@,
        TraceEvent::DomSnapshotMarker(_) => "DomSnapshotMarker"@,
        TraceEvent::BrowserClosed(_) => "BrowserClosed"@,
    }
}

/// The name of an event's kind.
pub fn format_event_type(event: &TraceEvent) -> (r: String)
    ensures
        r@ == event_type_name(*event),
{
    let name = match event {
        TraceEvent::BrowserOpened(_) => "BrowserOpened",
        TraceEvent::PageNavigated(_) => "PageNavigated",
        TraceEvent::RouteChanged(_) => "RouteChanged",
        TraceEvent::UserAction(_) => "UserAction",
        TraceEvent::NetworkRequest(_) => "NetworkRequest",
        TraceEvent::NetworkResponse(_) => "NetworkResponse",
        TraceEvent::ConsoleLog(_) => "ConsoleLog",
        TraceEvent::DomSnapshotMarker(_) => "DomSnapshotMarker",
        TraceEvent::BrowserClosed(_) => "BrowserClosed",
    };
    string_of(name)
}

/// The timeline row of one event.
pub open spec fn timeline_entry(env: TraceEventEnvelope) -> TimelineView {
    match env.event {
        TraceEvent::BrowserOpened(e) => TimelineView {
            ts_unix_ms: env.ts_unix_ms,
            event_type: "BrowserOpened"@,
            route: Some(e.url@),
            action_id: None,
            request_id: None,
            description: "Browser "@ + e.browser@ + " aberto"@,
            raw_event: None,
        },
        TraceEvent::PageNavigated(e) => TimelineView {
            ts_unix_ms: env.ts_unix_ms,
            event_type: "PageNavigated"@,
            route: Some(e.to_url@),
            action_id: None,
            request_id: None,
            description: "Navegação para "@ + e.to_url@,
            raw_event: None,
        },
        TraceEvent::RouteChanged(e) => TimelineView {
            ts_unix_ms: env.ts_unix_ms,
            event_type: "RouteChanged"@,
            route: Some(e.to_url@),
            action_id: None,
            request_id: None,
            description: "Rota alterada para "@ + e.to_url@,
            raw_event: None,
        },
        TraceEvent::UserAction(e) => TimelineView {
            ts_unix_ms: env.ts_unix_ms,
            event_type: "UserAction"@,
            route: Some(route_or_page(e.route, e.page_url)),
            action_id: Some(e.action_id@),
            request_id: None,
            description: "Ação "@ + action_type_name_spec(e.action_type),
            raw_event: None,
        },
        TraceEvent::NetworkRequest(e) => TimelineView {
            ts_unix_ms: env.ts_unix_ms,
            event_type: "NetworkRequest"@,
            route: Some(route_or_page(e.route, e.page_url)),
            action_id: None,
            request_id: Some(e.request_id@),
            description: e.method@ + " "@ + e.url@,
            raw_event: None,
        },
        _ => TimelineView {
            ts_unix_ms: env.ts_unix_ms,
            event_type: event_type_name(env.event),
            route: route_for_event_spec(env.event),
            action_id: None,
            request_id: None,
            description: event_type_name(env.event),
            raw_event: None,
        },
    }
}

pub open spec fn timeline_entry_fn() -> spec_fn(TraceEventEnvelope) -> TimelineView {
    |e: TraceEventEnvelope| timeline_entry(e)
}

/// The user actions of the events, in order.
pub open spec fn action_records(events: Seq<TraceEventEnvelope>) -> Seq<ActionRecord>
    decreases events.len(),
{
    if events.len() == 0 {
        seq![]
    } else {
        let prev = action_records(events.drop_last());
        let env = events.last();
        match env.event {
            TraceEvent::UserAction(e) => prev.push(ActionRecord { ts_unix_ms: env.ts_unix_ms, event: e }),
            _ => prev,
        }
    }
}

/// A request with its class: the collector's class, or the class that
/// `classify_spec` gives when the collector left it `Unknown`.
pub open spec fn classified(e: NetworkRequestEvent) -> NetworkRequestEvent {
    if e.classification == RequestClassification::Unknown {
        NetworkRequestEvent {
            classification: classify_spec(opt_view(e.resource_type), e.url@),
            ..e
        }
    } else {
        e
    }
}

/// The network requests of the events, classified, in order.
pub open spec fn request_records(events: Seq<TraceEventEnvelope>) -> Seq<RequestRecord>
    decreases events.len(),
{
    if events.len() == 0 {
        seq![]
    } else {
        let prev = request_records(events.drop_last());
        let env = events.last();
        match env.event {
            TraceEvent::NetworkRequest(e) => prev.push(
                RequestRecord { ts_unix_ms: env.ts_unix_ms, event: classified(e) },
            ),
            _ => prev,
        }
    }
}

/// How many page navigations and route changes the events hold.
pub open spec fn navigation_count_spec(events: Seq<TraceEventEnvelope>) -> nat
    decreases events.len(),
{
    if events.len() == 0 {
        0
    } else {
        navigation_count_spec(events.drop_last()) + match events.last().event {
            TraceEvent::PageNavigated(_) => 1nat,
            TraceEvent::RouteChanged(_) => 1nat,
            _ => 0nat,
        }
    }
}

/// The URL of the last `BrowserOpened` event, if any.
pub open spec fn last_opened_url(events: Seq<TraceEventEnvelope>) -> Option<Seq<char>>
    decreases events.len(),
{
    if events.len() == 0 {
        None
    } else {
        match events.last().event {
            TraceEvent::BrowserOpened(e) => Some(e.url@),
            _ => last_opened_url(events.drop_last()),
        }
    }
}

/// What one pass over a session's events in time order finds.
pub struct SessionEvents {
    /// The events in time order.
    pub ordered: Ghost<Seq<TraceEventEnvelope>>,
    pub session_id: String,
    pub total_events: usize,
    pub initial_url: Option<String>,
    pub started_at_unix_ms: Option<i64>,
    pub ended_at_unix_ms: Option<i64>,
    pub navigation_count: usize,
    pub timeline: Vec<TimelineItem>,
    pub actions: Vec<ActionRecord>,
    pub requests: Vec<RequestRecord>,
}

/// `s` holds what the events `ordered` (already in time order) give: the
/// session of the first event (`unknown` when there is none), the number of
/// events, the URL the browser was last opened on, the first and last
/// timestamps, the number of navigations, one timeline row per event, and the
/// actions and classified requests in order.
pub open spec fn describes(s: SessionEvents, ordered: Seq<TraceEventEnvelope>) -> bool {
    &&& s.session_id@ == if ordered.len() > 0 {
        ordered[0].session_id@
    } else {
        "unknown"@
    }
    &&& s.total_events == ordered.len()
    &&& opt_view(s.initial_url) == last_opened_url(ordered)
    &&& s.started_at_unix_ms == if ordered.len() > 0 {
        Some(ordered[0].ts_unix_ms)
    } else {
        None
    }
    &&& s.ended_at_unix_ms == if ordered.len() > 0 {
        Some(ordered.last().ts_unix_ms)
    } else {
        None
    }
    &&& s.navigation_count == navigation_count_spec(ordered)
    &&& timeline_views(s.timeline@) == ordered.map_values(timeline_entry_fn())
    &&& s.actions@ == action_records(ordered)
    &&& s.requests@ == request_records(ordered)
}

fn concat3(a: &str, b: &String, c: &str) -> (r: String)
    ensures
        r@ == a@ + b@ + c@,
{
    let mut s = string_of(a);
    push_str(&mut s, b.as_str());
    push_str(&mut s, c);
    s
}

proof fn lemma_navigation_count_le(events: Seq<TraceEventEnvelope>)
    ensures
        navigation_count_spec(events) <= events.len(),
    decreases events.len(),
{
    if events.len() > 0 {
        lemma_navigation_count_le(events.drop_last());
    }
}

/// Sorts the events by time (stably) and makes one pass over them.
pub fn collect_session(events: Vec<TraceEventEnvelope>) -> (s: SessionEvents)
    ensures
        is_stable_sort_of(events@, s.ordered@),
        describes(s, s.ordered@),
{
    let ordered = sort_events(events);
    let ghost all = ordered@;
    let total_events = ordered.len();
    let session_id = if ordered.len() > 0 {
        ordered[0].session_id.clone()
    } else {
        string_of("unknown")
    };
    let started_at_unix_ms = if ordered.len() > 0 {
        Some(ordered[0].ts_unix_ms)
    } else {
        None
    };
    let ended_at_unix_ms = if ordered.len() > 0 {
        Some(ordered[ordered.len() - 1].ts_unix_ms)
    } else {
        None
    };
    let mut initial_url: Option<String> = None;
    let mut navigation_count: usize = 0;
    let mut timeline: Vec<TimelineItem> = Vec::new();
    let mut actions: Vec<ActionRecord> = Vec::new();
    let mut requests: Vec<RequestRecord> = Vec::new();
    assert(all.take(0) =~= Seq::<TraceEventEnvelope>::empty());
    for envelope in it: ordered.into_iter()
        invariant
            it.seq() == all,
            all.len() == total_events,
            opt_view(initial_url) == last_opened_url(all.take(it.index() as int)),
            navigation_count == navigation_count_spec(all.take(it.index() as int)),
            timeline_views(timeline@) == all.take(it.index() as int).map_values(timeline_entry_fn()),
            actions@ == action_records(all.take(it.index() as int)),
            requests@ == request_records(all.take(it.index() as int)),
    {
        let ghost i = it.index();
        let ghost prefix = all.take(i as int);
        let ghost env = envelope;
        let ghost before_timeline = timeline@;
        proof {
            assert(all.take(i + 1).drop_last() =~= prefix);
            assert(all.take(i + 1).last() == env);
            assert(all[i as int] == env);
            assert(all.take(i + 1).map_values(timeline_entry_fn()) =~= prefix.map_values(
                timeline_entry_fn(),
            ).push(timeline_entry(env)));
            lemma_navigation_count_le(prefix);
        }
        let ts = envelope.ts_unix_ms;
        match envelope.event {
            TraceEvent::BrowserOpened(evt) => {
                initial_url = Some(evt.url.clone());
                let description = concat3("Browser ", &evt.browser, " aberto");
                timeline.push(
                    TimelineItem {
                        ts_unix_ms: ts,
                        event_type: string_of("BrowserOpened"),
                        route: Some(evt.url),
                        action_id: None,
                        request_id: None,
                        description,
                        raw_event: None,
                    },
                );
            },
            TraceEvent::PageNavigated(evt) => {
                navigation_count = navigation_count + 1;
                let mut description = string_of("Navegação para ");
                push_str(&mut description, evt.to_url.as_str());
                timeline.push(
                    TimelineItem {
                        ts_unix_ms: ts,
                        event_type: string_of("PageNavigated"),
                        route: Some(evt.to_url),
                        action_id: None,
                        request_id: None,
                        description,
                        raw_event: None,
                    },
                );
            },
            TraceEvent::RouteChanged(evt) => {
                navigation_count = navigation_count + 1;
                let mut description = string_of("Rota alterada para ");
                push_str(&mut description, evt.to_url.as_str());
                timeline.push(
                    TimelineItem {
                        ts_unix_ms: ts,
                        event_type: string_of("RouteChanged"),
                        route: Some(evt.to_url),
                        action_id: None,
                        request_id: None,
                        description,
                        raw_event: None,
                    },
                );
            },
            TraceEvent::UserAction(evt) => {
                let route = route_or_page_exec(&evt.route, &evt.page_url);
                let mut description = string_of("Ação ");
                push_str(&mut description, action_type_name(evt.action_type));
                let action_id = evt.action_id.clone();
                actions.push(ActionRecord { ts_unix_ms: ts, event: evt });
                timeline.push(
                    TimelineItem {
                        ts_unix_ms: ts,
                        event_type: string_of("UserAction"),
                        route: Some(route),
                        action_id: Some(action_id),
                        request_id: None,
                        description,
                        raw_event: None,
                    },
                );
            },
            TraceEvent::NetworkRequest(evt) => {
                let ghost original = evt;
                let mut event = evt;
                if event.classification == RequestClassification::Unknown {
                    event.classification = classify_request(&event);
                }
                assert(event == classified(original));
                let route = route_or_page_exec(&event.route, &event.page_url);
                let request_id = event.request_id.clone();
                let mut description = event.method.clone();
                push_str(&mut description, " ");
                push_str(&mut description, event.url.as_str());
                requests.push(RequestRecord { ts_unix_ms: ts, event });
                timeline.push(
                    TimelineItem {
                        ts_unix_ms: ts,
                        event_type: string_of("NetworkRequest"),
                        route: Some(route),
                        action_id: None,
                        request_id: Some(request_id),
                        description,
                        raw_event: None,
                    },
                );
            },
            other => {
                let event_type = format_event_type(&other);
                let description = format_event_type(&other);
                let route = route_for_event(&other);
                timeline.push(
                    TimelineItem {
                        ts_unix_ms: ts,
                        event_type,
                        route,
                        action_id: None,
                        request_id: None,
                        description,
                        raw_event: None,
                    },
                );
            },
        }
        proof {
            assert(timeline_views(timeline@) =~= timeline_views(before_timeline).push(
                timeline_entry(env),
            ));
        }
    }
    assert(all.take(all.len() as int) =~= all);
    SessionEvents {
        ordered: Ghost(all),
        session_id,
        total_events,
        initial_url,
        started_at_unix_ms,
        ended_at_unix_ms,
        navigation_count,
        timeline,
        actions,
        requests,
    }
}


// ---------------------------------------------------------------------------
// Laws
// ---------------------------------------------------------------------------

proof fn lemma_record_counts(events: Seq<TraceEventEnvelope>)
    ensures
        action_records(events).len() + request_records(events).len() + navigation_count_spec(events)
            <= events.len(),
    decreases events.len(),
{
    if events.len() > 0 {
        lemma_record_counts(events.drop_last());
    }
}

/// The timeline of a session has one row per event, in time order: no row
/// is later than the row after it.
pub proof fn lemma_timeline_in_time_order(events: Seq<TraceEventEnvelope>, s: SessionEvents)
    requires
        is_stable_sort_of(events, s.ordered@),
        describes(s, s.ordered@),
    ensures
        s.timeline@.len() == events.len(),
        s.timeline@.len() == s.total_events,
        forall|i: int, j: int|
            #![trigger s.timeline@[i], s.timeline@[j]]
            0 <= i < j < s.timeline@.len() ==> s.timeline@[i].ts_unix_ms <= s.timeline@[j].ts_unix_ms,
{
    let ordered = s.ordered@;
    lemma_stable_sort_sorted(events, ordered);
    assert(timeline_views(s.timeline@).len() == s.timeline@.len());
    assert forall|i: int, j: int|
        #![trigger s.timeline@[i], s.timeline@[j]]
        0 <= i < j < s.timeline@.len() implies s.timeline@[i].ts_unix_ms
        <= s.timeline@[j].ts_unix_ms by {
        assert(timeline_views(s.timeline@)[i] == s.timeline@[i]@);
        assert(timeline_views(s.timeline@)[j] == s.timeline@[j]@);
        assert(timeline_entry(ordered[i]).ts_unix_ms == ordered[i].ts_unix_ms);
        assert(timeline_entry(ordered[j]).ts_unix_ms == ordered[j].ts_unix_ms);
        assert(!ordered[j].key_before(&ordered[i]));
    }
}

/// Actions, requests and navigations are distinct events: together they
/// are no more than the session's events.
pub proof fn lemma_session_counts(s: SessionEvents)
    requires
        describes(s, s.ordered@),
    ensures
        s.actions@.len() + s.requests@.len() + s.navigation_count <= s.total_events,
{
    lemma_record_counts(s.ordered@);
}

/// A session's first timestamp is no later than its last.
pub proof fn lemma_session_span_ordered(events: Seq<TraceEventEnvelope>, s: SessionEvents)
    requires
        is_stable_sort_of(events, s.ordered@),
        describes(s, s.ordered@),
    ensures
        s.started_at_unix_ms is Some <==> events.len() > 0,
        s.ended_at_unix_ms is Some <==> events.len() > 0,
        events.len() > 0 ==> s.started_at_unix_ms->0 <= s.ended_at_unix_ms->0,
{
    let ordered = s.ordered@;
    lemma_stable_sort_sorted(events, ordered);
    if ordered.len() > 1 {
        assert(!ordered[ordered.len() - 1].key_before(&ordered[0]));
    }
}

} // verus!
