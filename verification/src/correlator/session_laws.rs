//! Laws of the parts of a correlation: the candidate actions of a request,
//! the burst counts, the requests and actions drawn from the events, and the
//! timeline row of each event.
use vstd::prelude::*;

use crate::correlator::collect::{
    action_records, last_opened_url, navigation_count_spec, request_records, timeline_entry,
};
use crate::correlator::grouping::request_ids_for;
use crate::correlator::engine::{candidates_upto, count_action};
use crate::correlator::grouping::ActionRecord;
use crate::correlator::heuristics::classify_spec;
use crate::domain::correlation::RequestCorrelation;
use crate::domain::event::{RequestClassification, TraceEvent, TraceEventEnvelope};
use crate::text::opt_view;

verus! {

broadcast use vstd::seq_lib::group_seq_properties;

/// The candidate actions of a request sent at `request_ts` are exactly the
/// actions that came no later than it and at most `window` milliseconds
/// before it, by index in increasing order.
pub proof fn lemma_candidates_are_the_window(
    actions: Seq<ActionRecord>,
    request_ts: i64,
    window: i64,
    n: int,
)
    requires
        0 <= n <= actions.len(),
        actions.len() <= usize::MAX,
    ensures
        forall|k: int|
            0 <= k < candidates_upto(actions, request_ts, window, n).len() ==> {
                let i = #[trigger] candidates_upto(actions, request_ts, window, n)[k] as int;
                &&& 0 <= i < n
                &&& actions[i].ts_unix_ms <= request_ts
                &&& request_ts - actions[i].ts_unix_ms <= window
            },
        forall|i: int|
            0 <= i < n && actions[i].ts_unix_ms <= request_ts && request_ts - actions[i].ts_unix_ms
                <= window ==> #[trigger] candidates_upto(actions, request_ts, window, n).contains(
                i as usize,
            ),
        forall|a: int, b: int|
            0 <= a < b < candidates_upto(actions, request_ts, window, n).len() ==> #[trigger] candidates_upto(
                actions,
                request_ts,
                window,
                n,
            )[a] < #[trigger] candidates_upto(actions, request_ts, window, n)[b],
    decreases n,
{
    if n > 0 {
        lemma_candidates_are_the_window(actions, request_ts, window, n - 1);
        let prev = candidates_upto(actions, request_ts, window, n - 1);
        let cur = candidates_upto(actions, request_ts, window, n);
        let inw = actions[n - 1].ts_unix_ms <= request_ts && request_ts - actions[n - 1].ts_unix_ms
            <= window;
        if inw {
            assert(cur == prev.push((n - 1) as usize));
        } else {
            assert(cur == prev);
        }
        assert forall|k: int| 0 <= k < cur.len() implies {
            let i = #[trigger] cur[k] as int;
            &&& 0 <= i < n
            &&& actions[i].ts_unix_ms <= request_ts
            &&& request_ts - actions[i].ts_unix_ms <= window
        } by {
            if k < prev.len() {
                assert(cur[k] == prev[k]);
            } else {
                assert(inw);
                assert(cur[k] == (n - 1) as usize);
            }
        }
        assert forall|a: int, b: int| 0 <= a < b < cur.len() implies #[trigger] cur[a] < #[trigger] cur[b] by {
            if b < prev.len() {
                assert(cur[a] == prev[a] && cur[b] == prev[b]);
            } else {
                assert(cur[a] == prev[a]);
                assert(prev[a] as int <= n - 2);
            }
        }
        assert forall|i: int|
            0 <= i < n && actions[i].ts_unix_ms <= request_ts && request_ts - actions[i].ts_unix_ms
                <= window implies #[trigger] cur.contains(i as usize) by {
            if i < n - 1 {
                assert(prev.contains(i as usize));
                let w = choose|w: int| 0 <= w < prev.len() && prev[w] == i as usize;
                assert(cur[w] == prev[w]);
            } else {
                assert(cur[prev.len() as int] == (n - 1) as usize);
            }
        }
    }
}

/// The burst size of an action counts the correlations attributed to it:
/// those whose action is `id`.
pub proof fn lemma_burst_counts_attributed(cs: Seq<RequestCorrelation>, id: Seq<char>)
    ensures
        count_action(cs, id) == cs.filter(
            |c: RequestCorrelation| c.action_id is Some && c.action_id->0@ == id,
        ).len(),
    decreases cs.len(),
{
    reveal(Seq::filter);
    if cs.len() > 0 {
        lemma_burst_counts_attributed(cs.drop_last(), id);
    }
}

/// Every request of a session is a network request among its events, at
/// the same time and with the same fields, and with the collector's class,
/// or the class that `classify_spec` gives its resource type and URL when
/// the collector left it `Unknown`.
pub proof fn lemma_request_records_classified(events: Seq<TraceEventEnvelope>)
    ensures
        forall|k: int|
            #![trigger request_records(events)[k]]
            0 <= k < request_records(events).len() ==> exists|j: int|
                #![trigger events[j]]
                0 <= j < events.len() && match events[j].event {
                    TraceEvent::NetworkRequest(e) => {
                        let r = request_records(events)[k];
                        &&& r.ts_unix_ms == events[j].ts_unix_ms
                        &&& r.event.request_id == e.request_id
                        &&& r.event.method == e.method
                        &&& r.event.url == e.url
                        &&& r.event.route == e.route
                        &&& r.event.page_url == e.page_url
                        &&& r.event.resource_type == e.resource_type
                        &&& r.event.classification == if e.classification
                            == RequestClassification::Unknown {
                            classify_spec(opt_view(e.resource_type), e.url@)
                        } else {
                            e.classification
                        }
                    },
                    _ => false,
                },
    decreases events.len(),
{
    if events.len() > 0 {
        let prev = events.drop_last();
        lemma_request_records_classified(prev);
        let rs = request_records(events);
        let ps = request_records(prev);
        assert forall|k: int| #![trigger rs[k]] 0 <= k < rs.len() implies exists|j: int|
            #![trigger events[j]]
            0 <= j < events.len() && match events[j].event {
                TraceEvent::NetworkRequest(e) => {
                    let r = rs[k];
                    &&& r.ts_unix_ms == events[j].ts_unix_ms
                    &&& r.event.request_id == e.request_id
                    &&& r.event.method == e.method
                    &&& r.event.url == e.url
                    &&& r.event.route == e.route
                    &&& r.event.page_url == e.page_url
                    &&& r.event.resource_type == e.resource_type
                    &&& r.event.classification == if e.classification
                        == RequestClassification::Unknown {
                        classify_spec(opt_view(e.resource_type), e.url@)
                    } else {
                        e.classification
                    }
                },
                _ => false,
            } by {
            if k < ps.len() {
                assert(rs[k] == ps[k]);
                let j = choose|j: int|
                    #![trigger prev[j]]
                    0 <= j < prev.len() && match prev[j].event {
                        TraceEvent::NetworkRequest(e) => {
                            let r = ps[k];
                            &&& r.ts_unix_ms == prev[j].ts_unix_ms
                            &&& r.event.request_id == e.request_id
                            &&& r.event.method == e.method
                            &&& r.event.url == e.url
                            &&& r.event.route == e.route
                            &&& r.event.page_url == e.page_url
                            &&& r.event.resource_type == e.resource_type
                            &&& r.event.classification == if e.classification
                                == RequestClassification::Unknown {
                                classify_spec(opt_view(e.resource_type), e.url@)
                            } else {
                                e.classification
                            }
                        },
                        _ => false,
                    };
                assert(events[j] == prev[j]);
            } else {
                let j = events.len() - 1;
                assert(events[j] == events.last());
            }
        }
    }
}

/// Every action of a session is a user action among its events, at the
/// same time.
pub proof fn lemma_action_records_of_events(events: Seq<TraceEventEnvelope>)
    ensures
        forall|k: int|
            #![trigger action_records(events)[k]]
            0 <= k < action_records(events).len() ==> exists|j: int|
                #![trigger events[j]]
                0 <= j < events.len() && events[j].event == TraceEvent::UserAction(
                    action_records(events)[k].event,
                ) && events[j].ts_unix_ms == action_records(events)[k].ts_unix_ms,
    decreases events.len(),
{
    if events.len() > 0 {
        let prev = events.drop_last();
        lemma_action_records_of_events(prev);
        let rs = action_records(events);
        let ps = action_records(prev);
        assert forall|k: int| #![trigger rs[k]] 0 <= k < rs.len() implies exists|j: int|
            #![trigger events[j]]
            0 <= j < events.len() && events[j].event == TraceEvent::UserAction(rs[k].event)
                && events[j].ts_unix_ms == rs[k].ts_unix_ms by {
            if k < ps.len() {
                assert(rs[k] == ps[k]);
                let j = choose|j: int|
                    #![trigger prev[j]]
                    0 <= j < prev.len() && prev[j].event == TraceEvent::UserAction(ps[k].event)
                        && prev[j].ts_unix_ms == ps[k].ts_unix_ms;
                assert(events[j] == prev[j]);
            } else {
                assert(events[events.len() - 1] == events.last());
            }
        }
    }
}

/// The timeline row of an event carries its time and the name of its kind;
/// a user action's row names the action and its route (else its page), a
/// network request's row names the request, its route (else its page), and
/// reads `METHOD URL`.
pub proof fn lemma_timeline_entry_of_event(env: TraceEventEnvelope)
    ensures
        timeline_entry(env).ts_unix_ms == env.ts_unix_ms,
        timeline_entry(env).event_type == match env.event {
            TraceEvent::BrowserOpened(_) => "BrowserOpened"@,
            TraceEvent::PageNavigated(_) => "PageNavigated"@,
            TraceEvent::RouteChanged(_) => "RouteChanged"@,
            TraceEvent::UserAction(_) => "UserAction"@,
            TraceEvent::NetworkRequest(_) => "NetworkRequest"@,
            TraceEvent::NetworkResponse(_) => "NetworkResponse"@,
            TraceEvent::ConsoleLog(_) => "ConsoleLog"@,
            TraceEvent::DomSnapshotMarker(_) => "DomSnapshotMarker"@,
            TraceEvent::BrowserClosed(_) => "BrowserClosed"@,
        },
        timeline_entry(env).raw_event is None,
        env.event matches TraceEvent::UserAction(e) ==> {
            &&& timeline_entry(env).action_id == Some(e.action_id@)
            &&& timeline_entry(env).request_id is None
            &&& timeline_entry(env).route == Some(
                match e.route {
                    Some(r) => r@,
                    None => e.page_url@,
                },
            )
        },
        env.event matches TraceEvent::NetworkRequest(e) ==> {
            &&& timeline_entry(env).request_id == Some(e.request_id@)
            &&& timeline_entry(env).action_id is None
            &&& timeline_entry(env).route == Some(
                match e.route {
                    Some(r) => r@,
                    None => e.page_url@,
                },
            )
            &&& timeline_entry(env).description == e.method@ + seq![' '] + e.url@
        },
{
    match env.event {
        TraceEvent::NetworkRequest(e) => {
            reveal_strlit(" ");
            assert(e.method@ + " "@ + e.url@ =~= e.method@ + seq![' '] + e.url@);
        },
        _ => {},
    }
}

/// The navigation count of a session is the number of its page navigations
/// and route changes.
pub proof fn lemma_navigation_count_counts(events: Seq<TraceEventEnvelope>)
    ensures
        navigation_count_spec(events) == events.filter(
            |e: TraceEventEnvelope|
                e.event is PageNavigated || e.event is RouteChanged,
        ).len(),
    decreases events.len(),
{
    reveal(Seq::filter);
    if events.len() > 0 {
        lemma_navigation_count_counts(events.drop_last());
    }
}

/// A session has one action per user action event and one request per
/// network request event.
pub proof fn lemma_records_count_events(events: Seq<TraceEventEnvelope>)
    ensures
        action_records(events).len() == events.filter(|e: TraceEventEnvelope| e.event is UserAction).len(),
        request_records(events).len() == events.filter(
            |e: TraceEventEnvelope| e.event is NetworkRequest,
        ).len(),
    decreases events.len(),
{
    reveal(Seq::filter);
    if events.len() > 0 {
        lemma_records_count_events(events.drop_last());
    }
}

/// The initial URL of a session is the URL of its last `BrowserOpened`
/// event, and there is none when no such event occurs.
pub proof fn lemma_initial_url_is_last_opened(events: Seq<TraceEventEnvelope>)
    ensures
        last_opened_url(events) is None ==> forall|j: int|
            0 <= j < events.len() ==> !((#[trigger] events[j]).event is BrowserOpened),
        last_opened_url(events) matches Some(u) ==> exists|j: int|
            #![trigger events[j]]
            0 <= j < events.len() && (match events[j].event {
                TraceEvent::BrowserOpened(e) => e.url@ == u,
                _ => false,
            }) && forall|m: int| j < m < events.len() ==> !((#[trigger] events[m]).event is BrowserOpened),
    decreases events.len(),
{
    if events.len() > 0 {
        let prev = events.drop_last();
        lemma_initial_url_is_last_opened(prev);
        match events.last().event {
            TraceEvent::BrowserOpened(e) => {
                assert(events[events.len() - 1] == events.last());
            },
            _ => {
                assert forall|j: int| 0 <= j < prev.len() implies events[j] == #[trigger] prev[j] by {}
                if last_opened_url(prev) is None {
                    assert forall|j: int| 0 <= j < events.len() implies !((#[trigger] events[j]).event is BrowserOpened) by {
                        if j < prev.len() {
                            assert(events[j] == prev[j]);
                        }
                    }
                } else {
                    let u = last_opened_url(prev)->0;
                    let j = choose|j: int|
                        #![trigger prev[j]]
                        0 <= j < prev.len() && (match prev[j].event {
                            TraceEvent::BrowserOpened(e) => e.url@ == u,
                            _ => false,
                        }) && forall|m: int| j < m < prev.len() ==> !((#[trigger] prev[m]).event is BrowserOpened);
                    assert(events[j] == prev[j]);
                    assert forall|m: int| j < m < events.len() implies !((#[trigger] events[m]).event is BrowserOpened) by {
                        if m < prev.len() {
                            assert(events[m] == prev[m]);
                        }
                    }
                }
            },
        }
    }
}

/// The requests listed for an action in its route flow are the ids of the
/// correlations attributed to it, in order.
pub proof fn lemma_flow_requests_are_attributed(cs: Seq<RequestCorrelation>, id: Seq<char>)
    ensures
        request_ids_for(cs, id) == cs.filter(
            |c: RequestCorrelation| c.action_id is Some && c.action_id->0@ == id,
        ).map_values(|c: RequestCorrelation| c.request_id@),
    decreases cs.len(),
{
    reveal(Seq::filter);
    if cs.len() > 0 {
        lemma_flow_requests_are_attributed(cs.drop_last(), id);
        let f = cs.drop_last().filter(
            |c: RequestCorrelation| c.action_id is Some && c.action_id->0@ == id,
        );
        let x = cs.last();
        assert(f.push(x).map_values(|c: RequestCorrelation| c.request_id@) =~= f.map_values(
            |c: RequestCorrelation| c.request_id@,
        ).push(x.request_id@));
    }
}
} // verus!
