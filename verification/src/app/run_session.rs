//! The decisions of a recording session: what the collector is started with,
//! and what to do while it runs.
use vstd::prelude::*;

use crate::cli::commands::{event_name_spec, kind_of, RecordArgs, TraceEventType};
use crate::domain::event::{TraceEvent, TraceEventEnvelope};
use crate::collector::playwright_process::CollectorConfig;
use crate::text::{string_of, views};

verus! {

/// The collector configuration for a recording: the session, the raw trace
/// to write, and the URL, script, Node binary, browser, headless flag and
/// event kinds (by name) of the arguments.
pub open spec fn config_matches(
    c: CollectorConfig,
    args: RecordArgs,
    session_id: Seq<char>,
    raw_trace_path: Seq<char>,
) -> bool {
    &&& c.session_id@ == session_id
    &&& c.output_path@ == raw_trace_path
    &&& c.url@ == args.url@
    &&& c.script_path@ == args.collector_script@
    &&& c.node_bin@ == args.node_bin@
    &&& c.browser@ == args.browser@
    &&& c.headless == args.headless
    &&& views(c.event_types@) == args.event_types@.map_values(|t: TraceEventType| event_name_spec(t))
}

/// The collector configuration of a recording session. The event kinds are
/// not passed to the collector (`collector_command_args`); the session applies
/// them to what was recorded (`select_recorded_events`).
pub fn collector_config(args: &RecordArgs, session_id: &str, raw_trace_path: &str) -> (c:
    CollectorConfig)
    ensures
        config_matches(c, *args, session_id@, raw_trace_path@),
{
    let mut event_types: Vec<String> = Vec::new();
    for i in 0..args.event_types.len()
        invariant
            views(event_types@) == args.event_types@.take(i as int).map_values(
                |t: TraceEventType| event_name_spec(t),
            ),
    {
        let ghost before = event_types@;
        event_types.push(string_of(args.event_types[i].as_event_name()));
        assert(views(event_types@) =~= views(before).push(event_name_spec(args.event_types@[i as int])));
        assert(args.event_types@.take(i + 1).map_values(|t: TraceEventType| event_name_spec(t))
            =~= args.event_types@.take(i as int).map_values(|t: TraceEventType| event_name_spec(t)).push(
            event_name_spec(args.event_types@[i as int]),
        ));
    }
    assert(args.event_types@.take(args.event_types@.len() as int) =~= args.event_types@);
    CollectorConfig {
        session_id: string_of(session_id),
        output_path: string_of(raw_trace_path),
        url: args.url.clone(),
        script_path: args.collector_script.clone(),
        node_bin: args.node_bin.clone(),
        browser: args.browser.clone(),
        headless: args.headless,
        event_types,
    }
}

/// Whether events of kind `k` are recorded when `kinds` are chosen: every
/// kind when none is chosen, else the chosen ones.
pub open spec fn kind_selected(kinds: Seq<TraceEventType>, k: TraceEventType) -> bool {
    kinds.len() == 0 || kinds.contains(k)
}

/// The events of `events` whose kind is selected by `kinds`, in order.
pub open spec fn selected_events(
    events: Seq<TraceEventEnvelope>,
    kinds: Seq<TraceEventType>,
) -> Seq<TraceEventEnvelope>
    decreases events.len(),
{
    if events.len() == 0 {
        seq![]
    } else {
        let prev = selected_events(events.drop_last(), kinds);
        if kind_selected(kinds, kind_of(events.last().event)) {
            prev.push(events.last())
        } else {
            prev
        }
    }
}

/// The kind of an event.
fn event_kind(e: &TraceEvent) -> (k: TraceEventType)
    ensures
        k == kind_of(*e),
{
    match e {
        TraceEvent::BrowserOpened(_) => TraceEventType::BrowserOpened,
        TraceEvent::PageNavigated(_) => TraceEventType::PageNavigated,
        TraceEvent::RouteChanged(_) => TraceEventType::RouteChanged,
        TraceEvent::UserAction(_) => TraceEventType::UserAction,
        TraceEvent::NetworkRequest(_) => TraceEventType::NetworkRequest,
        TraceEvent::NetworkResponse(_) => TraceEventType::NetworkResponse,
        TraceEvent::ConsoleLog(_) => TraceEventType::ConsoleLog,
        TraceEvent::DomSnapshotMarker(_) => TraceEventType::DomSnapshotMarker,
        TraceEvent::BrowserClosed(_) => TraceEventType::BrowserClosed,
    }
}

/// Whether the kind `k` is selected by `kinds`.
fn is_kind_selected(kinds: &Vec<TraceEventType>, k: TraceEventType) -> (r: bool)
    ensures
        r == kind_selected(kinds@, k),
{
    if kinds.len() == 0 {
        return true;
    }
    for i in 0..kinds.len()
        invariant
            forall|j: int| 0 <= j < i ==> kinds@[j] != k,
    {
        if kinds[i] == k {
            assert(kinds@[i as int] == k);
            return true;
        }
    }
    false
}

/// The recorded events that the raw trace keeps: those of the chosen kinds
/// (`--event-type`), or all of them when no kind is chosen; in order.
pub fn select_recorded_events(
    events: Vec<TraceEventEnvelope>,
    kinds: &Vec<TraceEventType>,
) -> (r: Vec<TraceEventEnvelope>)
    ensures
        r@ == selected_events(events@, kinds@),
{
    let ghost all = events@;
    let mut r: Vec<TraceEventEnvelope> = Vec::new();
    assert(all.take(0) =~= Seq::<TraceEventEnvelope>::empty());
    for e in it: events.into_iter()
        invariant
            it.seq() == all,
            r@ == selected_events(all.take(it.index() as int), kinds@),
    {
        let ghost i = it.index();
        proof {
            assert(all.take(i + 1).drop_last() =~= all.take(i as int));
            assert(all.take(i + 1).last() == e);
        }
        let k = event_kind(&e.event);
        if is_kind_selected(kinds, k) {
            r.push(e);
        }
    }
    assert(all.take(all.len() as int) =~= all);
    r
}

/// What a recording session does next.
#[derive(Debug, Clone, Copy, PartialEq, Eq, Structural)]
pub enum RecordStep {
    /// The user pressed Enter: ask the collector to shut down and wait for it.
    Shutdown,
    /// The collector ended by itself (the browser was closed): stop waiting for Enter.
    CollectorExited,
    /// Neither happened yet: wait a moment and look again.
    Wait,
}

/// The next step of a recording session; Enter takes precedence over the
/// collector's own exit.
pub fn next_record_step(enter_pressed: bool, collector_exited: bool) -> (s: RecordStep)
    ensures
        s == if enter_pressed {
            RecordStep::Shutdown
        } else if collector_exited {
            RecordStep::CollectorExited
        } else {
            RecordStep::Wait
        },
{
    if enter_pressed {
        RecordStep::Shutdown
    } else if collector_exited {
        RecordStep::CollectorExited
    } else {
        RecordStep::Wait
    }
}

} // verus!
