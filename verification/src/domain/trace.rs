//! The route an event belongs to, and the time order of a trace.
use vstd::prelude::*;

use crate::domain::event::{route_or_page, route_or_page_exec, TraceEvent, TraceEventEnvelope};
use crate::order::{is_stable_sort_of, sorted_by_key, stable_sort, SortKey};
use crate::text::opt_view;

verus! {

/// The route an event belongs to: where a navigation leads, where an action
/// or request happened (its route, else its page URL), or a snapshot's route.
pub open spec fn route_for_event_spec(event: TraceEvent) -> Option<Seq<char>> {
    match event {
        TraceEvent::RouteChanged(evt) => Some(evt.to_url@),
        TraceEvent::PageNavigated(evt) => Some(evt.to_url@),
        TraceEvent::UserAction(evt) => Some(route_or_page(evt.route, evt.page_url)),
        TraceEvent::NetworkRequest(evt) => Some(route_or_page(evt.route, evt.page_url)),
        TraceEvent::DomSnapshotMarker(evt) => opt_view(evt.route),
        _ => None,
    }
}

pub fn route_for_event(event: &TraceEvent) -> (r: Option<String>)
    ensures
        opt_view(r) == route_for_event_spec(*event),
{
    match event {
        TraceEvent::RouteChanged(evt) => Some(evt.to_url.clone()),
        TraceEvent::PageNavigated(evt) => Some(evt.to_url.clone()),
        TraceEvent::UserAction(evt) => Some(route_or_page_exec(&evt.route, &evt.page_url)),
        TraceEvent::NetworkRequest(evt) => Some(route_or_page_exec(&evt.route, &evt.page_url)),
        TraceEvent::DomSnapshotMarker(evt) => match &evt.route {
            Some(r) => Some(r.clone()),
            None => None,
        },
        _ => None,
    }
}

impl SortKey for TraceEventEnvelope {
    open spec fn key_before(&self, other: &Self) -> bool {
        self.ts_unix_ms < other.ts_unix_ms
    }

    proof fn lemma_key_before_asymmetric(a: &Self, b: &Self) {
    }

    proof fn lemma_key_before_splits(a: &Self, b: &Self, c: &Self) {
    }

    fn before(&self, other: &Self) -> (r: bool) {
        self.ts_unix_ms < other.ts_unix_ms
    }
}

/// The events in time order; events with equal timestamps keep their order.
pub fn sort_events(events: Vec<TraceEventEnvelope>) -> (r: Vec<TraceEventEnvelope>)
    ensures
        is_stable_sort_of(events@, r@),
        sorted_by_key(r@),
{
    stable_sort(events)
}

} // verus!
