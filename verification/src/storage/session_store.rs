//! The files of a recording session under the reports directory.
use vstd::prelude::*;

use crate::text::{chars_of, push_str, string_of};

verus! {

broadcast use vstd::seq_lib::group_seq_properties;

/// Where a session's files go: its directory under the reports directory,
/// and in it the raw trace, the correlated trace and the HTML report.
#[derive(Debug, Clone)]
pub struct SessionPaths {
    pub session_id: String,
    pub session_dir: String,
    pub raw_trace_path: String,
    pub correlated_trace_path: String,
    pub index_html_path: String,
}

/// `part` joined to the path `base` (Unix paths): an absolute `part`
/// replaces `base`; otherwise a `/` is put between them unless `base` is
/// empty or already ends with one.
pub open spec fn path_join_spec(base: Seq<char>, part: Seq<char>) -> Seq<char> {
    if part.len() > 0 && part[0] == '/' {
        part
    } else if base.len() == 0 || base.last() == '/' {
        base + part
    } else {
        base + seq!['/'] + part
    }
}

/// The path `part` joined to `base`.
pub fn path_join(base: &str, part: &str) -> (r: String)
    ensures
        r@ == path_join_spec(base@, part@),
{
    let b = chars_of(base);
    let p = chars_of(part);
    if p.len() > 0 && p[0] == '/' {
        string_of(part)
    } else if b.len() == 0 || b[b.len() - 1] == '/' {
        let mut r = string_of(base);
        push_str(&mut r, part);
        r
    } else {
        let mut r = string_of(base);
        push_str(&mut r, "/");
        push_str(&mut r, part);
        proof {
            reveal_strlit("/");
        }
        r
    }
}

/// The layout of session `session_id` under `reports_dir`.
pub open spec fn session_layout_matches(p: SessionPaths, reports_dir: Seq<char>, session_id: Seq<char>) -> bool {
    let dir = path_join_spec(reports_dir, session_id);
    &&& p.session_id@ == session_id
    &&& p.session_dir@ == dir
    &&& p.raw_trace_path@ == path_join_spec(dir, "raw_trace.jsonl"@)
    &&& p.correlated_trace_path@ == path_join_spec(dir, "correlated_trace.json"@)
    &&& p.index_html_path@ == path_join_spec(dir, "index.html"@)
}

/// The paths of session `session_id` under `reports_dir`:
/// `<reports_dir>/<session_id>/` with `raw_trace.jsonl`,
/// `correlated_trace.json` and `index.html` in it.
pub fn session_layout(reports_dir: &str, session_id: &str) -> (p: SessionPaths)
    ensures
        session_layout_matches(p, reports_dir@, session_id@),
{
    let session_dir = path_join(reports_dir, session_id);
    let raw_trace_path = path_join(session_dir.as_str(), "raw_trace.jsonl");
    let correlated_trace_path = path_join(session_dir.as_str(), "correlated_trace.json");
    let index_html_path = path_join(session_dir.as_str(), "index.html");
    SessionPaths {
        session_id: string_of(session_id),
        session_dir,
        raw_trace_path,
        correlated_trace_path,
        index_html_path,
    }
}

} // verus!
