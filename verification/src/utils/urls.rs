//! The path and query of a URL, as the `url` crate parses it.
use vstd::prelude::*;

use crate::text::opt_view;

verus! {

/// The path and the query of a parsed URL.
#[derive(Debug, Clone, PartialEq)]
pub struct UrlParts {
    pub path: String,
    pub query: Option<String>,
}

/// What `url::Url::parse` makes of `input`: `None` when it refuses the input,
/// else the parsed URL's path (`Url::path`) and query (`Url::query`).
pub uninterp spec fn url_parse_parts(input: Seq<char>) -> Option<(Seq<char>, Option<Seq<char>>)>;

/// The parts of `parts` as plain values.
pub open spec fn parts_view(parts: Option<UrlParts>) -> Option<(Seq<char>, Option<Seq<char>>)> {
    match parts {
        Some(p) => Some((p.path@, opt_view(p.query))),
        None => None,
    }
}

/// No character of `s` is a colon.
pub open spec fn has_no_colon(s: Seq<char>) -> bool {
    forall|i: int| 0 <= i < s.len() ==> s[i] != ':'
}

/// Calls `url::Url::parse` on `input` and, when it succeeds, reads the
/// parsed URL's `path()` and `query()`. Claimed: the result is
/// `url_parse_parts(input)`, which depends on the input alone; and an input
/// with no colon is refused, since `Url::parse` takes only absolute URLs and
/// the scheme of one ends at a colon. The other parsing rules (WHATWG URL)
/// are not stated.
#[verifier::external_body]
pub(crate) fn parse_url_parts(input: &str) -> (r: Option<UrlParts>)
    ensures
        parts_view(r) == url_parse_parts(input@),
        has_no_colon(input@) ==> r is None,
{
    match url::Url::parse(input) {
        Ok(u) => Some(
            UrlParts {
                path: u.path().to_string(),
                query: match u.query() {
                    Some(q) => Some(q.to_string()),
                    None => None,
                },
            },
        ),
        Err(_) => None,
    }
}

} // verus!
