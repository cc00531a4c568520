//! The events that the browser collector records, one per line of a raw trace.
use vstd::prelude::*;

verus! {

/// One recorded event with its id, timestamp and session.
#[derive(Debug, Clone, PartialEq)]
pub struct TraceEventEnvelope {
    pub id: String,
    pub ts_unix_ms: i64,
    pub session_id: String,
    pub event: TraceEvent,
}

#[derive(Debug, Clone, PartialEq)]
pub enum TraceEvent {
    BrowserOpened(BrowserOpenedEvent),
    PageNavigated(PageNavigatedEvent),
    RouteChanged(RouteChangedEvent),
    UserAction(UserActionEvent),
    NetworkRequest(NetworkRequestEvent),
    NetworkResponse(NetworkResponseEvent),
    ConsoleLog(ConsoleLogEvent),
    DomSnapshotMarker(DomSnapshotMarkerEvent),
    BrowserClosed(BrowserClosedEvent),
}

#[derive(Debug, Clone, PartialEq)]
pub struct BrowserOpenedEvent {
    pub browser: String,
    pub url: String,
}

#[derive(Debug, Clone, PartialEq)]
pub struct PageNavigatedEvent {
    pub from_url: Option<String>,
    pub to_url: String,
}

#[derive(Debug, Clone, PartialEq)]
pub struct RouteChangedEvent {
    pub from_url: Option<String>,
    pub to_url: String,
    pub navigation_type: NavigationType,
}

/// A user interaction. `metadata` holds the collector's free-form JSON
/// metadata as JSON text; the correlation never reads it.
#[derive(Debug, Clone, PartialEq)]
pub struct UserActionEvent {
    pub action_id: String,
    pub action_type: UserActionType,
    pub page_url: String,
    pub route: Option<String>,
    pub target: ActionTarget,
    pub metadata: String,
}

#[derive(Debug, Clone, Copy, PartialEq, Eq, Structural)]
pub enum UserActionType {
    Click,
    Submit,
    Input,
    Change,
    KeyPress,
    Navigation,
}

#[derive(Debug, Clone, PartialEq)]
pub struct ActionTarget {
    pub tag_name: Option<String>,
    pub id: Option<String>,
    pub classes: Vec<String>,
    pub text: Option<String>,
    pub test_id: Option<String>,
    pub name: Option<String>,
    pub role: Option<String>,
    pub css_selector: Option<String>,
    pub xpath: Option<String>,
}

#[derive(Debug, Clone, PartialEq)]
pub struct NetworkRequestEvent {
    pub request_id: String,
    pub page_url: String,
    pub route: Option<String>,
    pub method: String,
    pub url: String,
    pub resource_type: Option<String>,
    pub headers: Vec<(String, String)>,
    pub post_data: Option<String>,
    pub initiator_hint: Option<InitiatorHint>,
    pub classification: RequestClassification,
}

#[derive(Debug, Clone, PartialEq)]
pub struct NetworkResponseEvent {
    pub request_id: String,
    pub status: u16,
    pub url: String,
    pub headers: Vec<(String, String)>,
}

#[derive(Debug, Clone, PartialEq)]
pub struct ConsoleLogEvent {
    pub level: String,
    pub text: String,
}

#[derive(Debug, Clone, PartialEq)]
pub struct DomSnapshotMarkerEvent {
    pub marker: String,
    pub route: Option<String>,
}

#[derive(Debug, Clone, PartialEq)]
pub struct BrowserClosedEvent {
    pub reason: Option<String>,
}

#[derive(Debug, Clone, PartialEq)]
pub struct InitiatorHint {
    pub source_type: InitiatorSourceType,
    pub related_action_id: Option<String>,
    pub js_stack: Vec<String>,
    pub trigger_ts_unix_ms: Option<i64>,
}

#[derive(Debug, Clone, Copy, PartialEq, Eq, Structural)]
pub enum InitiatorSourceType {
    Fetch,
    Xhr,
    Document,
    Script,
    Router,
    Unknown,
}

#[derive(Debug, Clone, Copy, PartialEq, Eq, Structural)]
pub enum NavigationType {
    InitialLoad,
    PushState,
    ReplaceState,
    PopState,
    FullNavigation,
}

#[derive(Debug, Clone, Copy, PartialEq, Eq, Structural)]
pub enum RequestClassification {
    AppData,
    NavigationDocument,
    StaticAsset,
    Analytics,
    Unknown,
}

impl Default for RequestClassification {
    /// A request is `Unknown` until it is classified.
    fn default() -> (r: Self)
        ensures
            r == RequestClassification::Unknown,
    {
        RequestClassification::Unknown
    }
}

/// The name that `Debug` gives a user action type.
pub open spec fn action_type_name_spec(t: UserActionType) -> Seq<char> {
    match t {
        UserActionType::Click => "Click"@,
        UserActionType::Submit => "Submit"@,
        UserActionType::Input => "Input"@,
        UserActionType::Change => "Change"@,
        UserActionType::KeyPress => "KeyPress"@,
        UserActionType::Navigation => "Navigation"@,
    }
}

/// The name that `Debug` gives a user action type.
pub fn action_type_name(t: UserActionType) -> (r: &'static str)
    ensures
        r@ == action_type_name_spec(t),
{
    match t {
        UserActionType::Click => "Click",
        UserActionType::Submit => "Submit",
        UserActionType::Input => "Input",
        UserActionType::Change => "Change",
        UserActionType::KeyPress => "KeyPress",
        UserActionType::Navigation => "Navigation",
    }
}

/// The route of a page-bound event: its own route when it has one, else its page URL.
pub open spec fn route_or_page(route: Option<String>, page_url: String) -> Seq<char> {
    match route {
        Some(r) => r@,
        None => page_url@,
    }
}

/// `route.clone().unwrap_or_else(|| page_url.clone())`.
pub fn route_or_page_exec(route: &Option<String>, page_url: &String) -> (r: String)
    ensures
        r@ == route_or_page(*route, *page_url),
{
    match route {
        Some(r) => r.clone(),
        None => page_url.clone(),
    }
}

} // verus!
