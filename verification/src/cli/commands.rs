//! The commands of the `flowtrace` command line and their arguments.
use vstd::prelude::*;

use crate::correlator::collect::event_type_name;
use crate::domain::event::TraceEvent;

verus! {

#[derive(Debug, Clone, PartialEq)]
pub struct FlowtraceCli {
    pub command: Commands,
}

#[derive(Debug, Clone, PartialEq)]
pub enum Commands {
    Record(RecordArgs),
    Analyze(AnalyzeArgs),
    Report(ReportArgs),
    Open(OpenArgs),
}

/// Arguments of `record`; paths are held as text.
#[derive(Debug, Clone, PartialEq)]
pub struct RecordArgs {
    pub url: String,
    pub reports_dir: String,
    pub collector_script: String,
    pub node_bin: String,
    pub browser: String,
    pub headless: bool,
    pub shutdown_timeout_secs: u64,
    pub event_types: Vec<TraceEventType>,
}

/// The kinds of event the collector can be asked to record.
#[derive(Debug, Clone, Copy, PartialEq, Eq, Structural)]
pub enum TraceEventType {
    BrowserOpened,
    PageNavigated,
    RouteChanged,
    UserAction,
    NetworkRequest,
    NetworkResponse,
    ConsoleLog,
    DomSnapshotMarker,
    BrowserClosed,
}

/// The name of an event kind, as events of that kind carry it in a raw trace.
pub open spec fn event_name_spec(t: TraceEventType) -> Seq<char> {
    match t {
        TraceEventType::BrowserOpened => "BrowserOpened"@,
        TraceEventType::PageNavigated => "PageNavigated"@,
        TraceEventType::RouteChanged => "RouteChanged"@,
        TraceEventType::UserAction => "UserAction"@,
        TraceEventType::NetworkRequest => "NetworkRequest"@,
        TraceEventType::NetworkResponse => "NetworkResponse"@,
        TraceEventType::ConsoleLog => "ConsoleLog"@,
        TraceEventType::DomSnapshotMarker => "DomSnapshotMarker"@,
        TraceEventType::BrowserClosed => "BrowserClosed"@,
    }
}

impl TraceEventType {
    /// The name of this event kind.
    pub fn as_event_name(self) -> (r: &'static str)
        ensures
            r@ == event_name_spec(self),
    {
        match self {
            TraceEventType::BrowserOpened => "BrowserOpened",
            TraceEventType::PageNavigated => "PageNavigated",
            TraceEventType::RouteChanged => "RouteChanged",
            TraceEventType::UserAction => "UserAction",
            TraceEventType::NetworkRequest => "NetworkRequest",
            TraceEventType::NetworkResponse => "NetworkResponse",
            TraceEventType::ConsoleLog => "ConsoleLog",
            TraceEventType::DomSnapshotMarker => "DomSnapshotMarker",
            TraceEventType::BrowserClosed => "BrowserClosed",
        }
    }
}

/// Arguments of `analyze`; paths are held as text.
#[derive(Debug, Clone, PartialEq)]
pub struct AnalyzeArgs {
    pub input: String,
    pub output: Option<String>,
}

/// Arguments of `report`; paths are held as text.
#[derive(Debug, Clone, PartialEq)]
pub struct ReportArgs {
    pub input: String,
    pub output: Option<String>,
}

/// Arguments of `open`; paths are held as text.
#[derive(Debug, Clone, PartialEq)]
pub struct OpenArgs {
    pub session: String,
    pub path: Option<String>,
}

/// The kind of an event.
pub open spec fn kind_of(e: TraceEvent) -> TraceEventType {
    match e {
        TraceEvent::BrowserOpened(_) => TraceEventType::BrowserOpened,
        TraceEvent::PageNavigated(_) => TraceEventType::PageNavigated,
        TraceEvent::RouteChanged(_) => TraceEventType::RouteChanged,
        TraceEvent::UserAction(_) => TraceEventType::UserAction,
        TraceEvent::NetworkRequest(_) => TraceEventType::NetworkRequest,
        TraceEvent::NetworkResponse(_) => TraceEventType::NetworkResponse,
        TraceEvent::ConsoleLog(_) => TraceEventType::ConsoleLog,
        TraceEvent::DomSnapshotMarker(_) => TraceEventType::DomSnapshotMarker,
        TraceEvent::BrowserClosed(_) => TraceEventType::BrowserClosed,
    }
}

/// The name by which the command line selects an event kind is the name the
/// timeline gives events of that kind.
pub proof fn lemma_event_names_match(e: TraceEvent)
    ensures
        event_name_spec(kind_of(e)) == event_type_name(e),
{
}

/// Different event kinds have different names.
pub proof fn lemma_event_names_distinct(a: TraceEventType, b: TraceEventType)
    ensures
        a != b ==> event_name_spec(a) != event_name_spec(b),
{
    reveal_strlit("BrowserOpened");
    reveal_strlit("PageNavigated");
    reveal_strlit("RouteChanged");
    reveal_strlit("UserAction");
    reveal_strlit("NetworkRequest");
    reveal_strlit("NetworkResponse");
    reveal_strlit("ConsoleLog");
    reveal_strlit("DomSnapshotMarker");
    reveal_strlit("BrowserClosed");
    if a != b && event_name_spec(a) == event_name_spec(b) {
        assert(event_name_spec(a)[0] == event_name_spec(b)[0]);
        assert(event_name_spec(a).len() == event_name_spec(b).len());
        if event_name_spec(a).len() > 7 {
            assert(event_name_spec(a)[7] == event_name_spec(b)[7]);
        }
        if event_name_spec(a).len() > 1 {
            assert(event_name_spec(a)[1] == event_name_spec(b)[1]);
        }
    }
}

} // verus!
