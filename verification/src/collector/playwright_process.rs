//! How the Node/Playwright collector is started.
use vstd::prelude::*;

use crate::text::{string_of, views};

verus! {

/// What the collector process is started with; paths are held as text.
#[derive(Debug, Clone, PartialEq)]
pub struct CollectorConfig {
    pub session_id: String,
    pub output_path: String,
    pub url: String,
    pub script_path: String,
    pub node_bin: String,
    pub browser: String,
    pub headless: bool,
    /// The event kinds chosen with `--event-type`, by name. The collector's
    /// command line has no argument for them: the collector records every
    /// kind, and the session keeps only the chosen ones afterwards
    /// (`select_recorded_events`).
    pub event_types: Vec<String>,
}

/// The arguments the collector script is run with, in order. The chosen
/// event kinds (`c.event_types`) are not among them: they are applied to the
/// recorded events (`select_recorded_events`).
pub open spec fn collector_args_spec(c: CollectorConfig) -> Seq<Seq<char>> {
    seq![
        c.script_path@,
        "--session-id"@,
        c.session_id@,
        "--output"@,
        c.output_path@,
        "--url"@,
        c.url@,
        "--browser"@,
        c.browser@,
    ] + if c.headless {
        seq!["--headless"@]
    } else {
        seq![]
    }
}

/// The arguments `node_bin` is run with to start the collector.
pub fn collector_command_args(config: &CollectorConfig) -> (r: Vec<String>)
    ensures
        views(r@) == collector_args_spec(*config),
{
    let mut r: Vec<String> = Vec::new();
    r.push(config.script_path.clone());
    r.push(string_of("--session-id"));
    r.push(config.session_id.clone());
    r.push(string_of("--output"));
    r.push(config.output_path.clone());
    r.push(string_of("--url"));
    r.push(config.url.clone());
    r.push(string_of("--browser"));
    r.push(config.browser.clone());
    if config.headless {
        r.push(string_of("--headless"));
    }
    assert(views(r@) =~= collector_args_spec(*config));
    r
}

} // verus!
