//! Classification of requests and the backend endpoint a request consumes.
use vstd::prelude::*;

use crate::domain::event::{NetworkRequestEvent, RequestClassification};
use crate::text::{
    ascii_lower, chars_equal_str, chars_of, contains_seq, contains_str, lower_chars, opt_view,
    string_of,
};
use crate::utils::urls::{has_no_colon, parse_url_parts, parts_view, url_parse_parts, UrlParts};

verus! {

/// Whether a (lower-cased) URL names a known analytics or monitoring service.
pub open spec fn is_analytics_spec(url: Seq<char>) -> bool {
    ||| contains_seq(url, "google-analytics"@)
    ||| contains_seq(url, "googletagmanager"@)
    ||| contains_seq(url, "mixpanel"@)
    ||| contains_seq(url, "segment"@)
    ||| contains_seq(url, "analytics"@)
    ||| contains_seq(url, "amplitude"@)
    ||| contains_seq(url, "sentry"@)
    ||| contains_seq(url, "datadog"@)
}

/// The class of a request from its resource type and URL, both compared in
/// ASCII lower case: analytics first, then static assets, documents, and
/// application data; anything else is unknown.
pub open spec fn classify_spec(resource_type: Option<Seq<char>>, url: Seq<char>) -> RequestClassification {
    let resource = match resource_type {
        Some(r) => ascii_lower(r),
        None => Seq::<char>::empty(),
    };
    let u = ascii_lower(url);
    if is_analytics_spec(u) || resource == "beacon"@ {
        RequestClassification::Analytics
    } else if resource == "image"@ || resource == "font"@ || resource == "stylesheet"@ || resource
        == "media"@ || resource == "other"@ || contains_seq(u, "favicon"@) {
        RequestClassification::StaticAsset
    } else if resource == "document"@ {
        RequestClassification::NavigationDocument
    } else if resource == "fetch"@ || resource == "xhr"@ || contains_seq(u, "/api/"@) || contains_seq(
        u,
        "graphql"@,
    ) {
        RequestClassification::AppData
    } else {
        RequestClassification::Unknown
    }
}

fn is_analytics(url: &Vec<char>) -> (r: bool)
    ensures
        r == is_analytics_spec(url@),
{
    contains_str(url, "google-analytics") || contains_str(url, "googletagmanager") || contains_str(
        url,
        "mixpanel",
    ) || contains_str(url, "segment") || contains_str(url, "analytics") || contains_str(
        url,
        "amplitude",
    ) || contains_str(url, "sentry") || contains_str(url, "datadog")
}

/// The class of a request, by the rules of `classify_spec`.
pub fn classify_request(request: &NetworkRequestEvent) -> (r: RequestClassification)
    ensures
        r == classify_spec(opt_view(request.resource_type), request.url@),
{
    let resource: Vec<char> = match &request.resource_type {
        Some(t) => lower_chars(&chars_of(t.as_str())),
        None => Vec::new(),
    };
    assert(resource@ == match opt_view(request.resource_type) {
        Some(r) => ascii_lower(r),
        None => Seq::<char>::empty(),
    });
    let url = lower_chars(&chars_of(request.url.as_str()));
    if is_analytics(&url) || chars_equal_str(&resource, "beacon") {
        return RequestClassification::Analytics;
    }
    if chars_equal_str(&resource, "image") || chars_equal_str(&resource, "font") || chars_equal_str(
        &resource,
        "stylesheet",
    ) || chars_equal_str(&resource, "media") || chars_equal_str(&resource, "other")
        || contains_str(&url, "favicon") {
        return RequestClassification::StaticAsset;
    }
    if chars_equal_str(&resource, "document") {
        return RequestClassification::NavigationDocument;
    }
    if chars_equal_str(&resource, "fetch") || chars_equal_str(&resource, "xhr") || contains_str(
        &url,
        "/api/",
    ) || contains_str(&url, "graphql") {
        return RequestClassification::AppData;
    }
    RequestClassification::Unknown
}

/// The resource type of a request in ASCII lower case, empty when absent.
pub open spec fn lower_resource(resource_type: Option<Seq<char>>) -> Seq<char> {
    match resource_type {
        Some(r) => ascii_lower(r),
        None => Seq::<char>::empty(),
    }
}

/// How a request is classified, rule by rule (resource type and URL compared
/// in ASCII lower case):
/// - a URL naming an analytics or monitoring service, or a `beacon`, is
///   analytics;
/// - otherwise an image, font, stylesheet, media or `other` resource, or a
///   favicon, is a static asset;
/// - otherwise a `document` is a navigation document;
/// - otherwise a `fetch` or `xhr`, or a URL under `/api/` or naming `graphql`,
///   is application data;
/// - and only a request that none of these rules catches is unknown.
pub proof fn lemma_classification_rules(resource_type: Option<Seq<char>>, url: Seq<char>)
    ensures
        ({
            let res = lower_resource(resource_type);
            let u = ascii_lower(url);
            let c = classify_spec(resource_type, url);
            let analytics = contains_seq(u, "google-analytics"@) || contains_seq(u, "googletagmanager"@)
                || contains_seq(u, "mixpanel"@) || contains_seq(u, "segment"@) || contains_seq(
                u,
                "analytics"@,
            ) || contains_seq(u, "amplitude"@) || contains_seq(u, "sentry"@) || contains_seq(
                u,
                "datadog"@,
            ) || res == "beacon"@;
            let asset = res == "image"@ || res == "font"@ || res == "stylesheet"@ || res == "media"@
                || res == "other"@ || contains_seq(u, "favicon"@);
            let document = res == "document"@;
            let data = res == "fetch"@ || res == "xhr"@ || contains_seq(u, "/api/"@) || contains_seq(
                u,
                "graphql"@,
            );
            &&& (c == RequestClassification::Analytics <==> analytics)
            &&& (c == RequestClassification::StaticAsset <==> !analytics && asset)
            &&& (c == RequestClassification::NavigationDocument <==> !analytics && !asset && document)
            &&& (c == RequestClassification::AppData <==> !analytics && !asset && !document && data)
            &&& (c == RequestClassification::Unknown <==> !analytics && !asset && !document && !data)
        }),
{
}

/// The endpoint of a URL given what parsing made of it: the parsed path (`/`
/// when empty), or the text itself when it does not parse as a URL.
pub open spec fn endpoint_from_parse(
    url: Seq<char>,
    parsed: Option<(Seq<char>, Option<Seq<char>>)>,
) -> Seq<char> {
    match parsed {
        Some(pq) => if pq.0.len() == 0 {
            "/"@
        } else {
            pq.0
        },
        None => url,
    }
}

/// The endpoint of `url` given the parse result `parsed` of that URL.
pub fn endpoint_from_parts(url: &str, parsed: Option<UrlParts>) -> (r: String)
    ensures
        r@ == endpoint_from_parse(url@, parts_view(parsed)),
{
    match parsed {
        Some(p) => {
            if p.path.as_str().is_empty() {
                string_of("/")
            } else {
                p.path
            }
        },
        None => string_of(url),
    }
}

/// The backend endpoint a request URL consumes: the URL's path; a text that
/// is not an absolute URL, such as one with no colon, is its own endpoint.
pub fn canonical_endpoint(url: &str) -> (r: String)
    ensures
        r@ == endpoint_from_parse(url@, url_parse_parts(url@)),
        has_no_colon(url@) ==> r@ == url@,
{
    let parsed = parse_url_parts(url);
    endpoint_from_parts(url, parsed)
}

/// A URL that parses has a non-empty endpoint.
pub proof fn lemma_parsed_endpoint_nonempty(
    url: Seq<char>,
    parsed: Option<(Seq<char>, Option<Seq<char>>)>,
)
    requires
        parsed is Some,
    ensures
        endpoint_from_parse(url, parsed).len() > 0,
{
    reveal_strlit("/");
}

} // verus!
