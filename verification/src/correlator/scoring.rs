//! The signals by which an action and a later request are scored: how long
//! after the action the request left, whether the request names the action
//! explicitly, whether both happened on the same route, and how many path
//! tokens the action's route shares with the request URL.
use vstd::prelude::*;

use crate::domain::event::{route_or_page, route_or_page_exec, NetworkRequestEvent, UserActionEvent};
use crate::text::{decimal_int, i64_decimal, push_str, string_of, views};
use crate::utils::similarity::{similarity_counts, similarity_counts_spec};

verus! {

/// The integer and boolean signals of one action/request pair, and the
/// evidence lines they give, in order.
#[derive(Debug, Clone, PartialEq)]
pub struct ScoreSignals {
    /// Milliseconds from the action to the request, zero if the request came first.
    pub delta_ms: i64,
    /// The request's initiator names the action.
    pub explicit_context: bool,
    /// Action and request happened on the same route.
    pub same_route: bool,
    /// Shared and total distinct path tokens of the action's route and the
    /// request URL; `None` when the action has no route or either side has no token.
    pub semantic_counts: Option<(usize, usize)>,
    pub evidence: Vec<String>,
}

/// The request's initiator hint names the action.
pub open spec fn explicit_link(action: UserActionEvent, request: NetworkRequestEvent) -> bool {
    &&& request.initiator_hint is Some
    &&& request.initiator_hint->0.related_action_id is Some
    &&& request.initiator_hint->0.related_action_id->0@ == action.action_id@
}

pub open spec fn max0(d: int) -> int {
    if d < 0 {
        0
    } else {
        d
    }
}

/// The evidence lines of the signals, in order: the explicit link, the time
/// gap, the shared route.
pub open spec fn signal_evidence(explicit: bool, delta_ms: int, same_route: bool) -> Seq<Seq<char>> {
    (if explicit {
        seq!["related_action_id explícito no initiator_hint"@]
    } else {
        seq![]
    }) + seq!["proximidade temporal de "@ + decimal_int(delta_ms) + "ms"@] + (if same_route {
        seq!["ação e request na mesma rota"@]
    } else {
        seq![]
    })
}

/// The semantic counts of an action's route against a request URL.
pub open spec fn semantic_counts_spec(action: UserActionEvent, request: NetworkRequestEvent) -> Option<
    (nat, nat),
> {
    match action.route {
        Some(r) => similarity_counts_spec(r@, request.url@),
        None => None,
    }
}

/// The signals of the pair (`action` at `action_ts_unix_ms`, `request` at
/// `request_ts_unix_ms`).
pub fn score_signals(
    action: &UserActionEvent,
    action_ts_unix_ms: i64,
    request: &NetworkRequestEvent,
    request_ts_unix_ms: i64,
) -> (s: ScoreSignals)
    requires
        i64::MIN <= request_ts_unix_ms - action_ts_unix_ms <= i64::MAX,
    ensures
        s.delta_ms == max0(request_ts_unix_ms - action_ts_unix_ms),
        s.explicit_context == explicit_link(*action, *request),
        s.same_route == (route_or_page(action.route, action.page_url) == route_or_page(
            request.route,
            request.page_url,
        )),
        match s.semantic_counts {
            Some((i, u)) => semantic_counts_spec(*action, *request) == Some((i as nat, u as nat)),
            None => semantic_counts_spec(*action, *request) is None,
        },
        views(s.evidence@) == signal_evidence(
            s.explicit_context,
            s.delta_ms as int,
            s.same_route,
        ),
{
    let diff = request_ts_unix_ms - action_ts_unix_ms;
    let delta_ms = if diff < 0 {
        0
    } else {
        diff
    };
    let action_route = route_or_page_exec(&action.route, &action.page_url);
    let request_route = route_or_page_exec(&request.route, &request.page_url);
    let same_route = action_route == request_route;
    let explicit_context = match &request.initiator_hint {
        Some(hint) => match &hint.related_action_id {
            Some(id) => *id == action.action_id,
            None => false,
        },
        None => false,
    };
    let semantic_counts = match &action.route {
        Some(route) => similarity_counts(route.as_str(), request.url.as_str()),
        None => None,
    };
    let mut evidence: Vec<String> = Vec::new();
    if explicit_context {
        evidence.push(string_of("related_action_id explícito no initiator_hint"));
    }
    let ghost first = evidence@;
    let mut temporal = string_of("proximidade temporal de ");
    let digits = i64_decimal(delta_ms);
    push_str(&mut temporal, digits.as_str());
    push_str(&mut temporal, "ms");
    evidence.push(temporal);
    let ghost second = evidence@;
    if same_route {
        evidence.push(string_of("ação e request na mesma rota"));
    }
    proof {
        let e = signal_evidence(explicit_context, delta_ms as int, same_route);
        if explicit_context {
            if same_route {
                assert(views(evidence@) =~= e);
            } else {
                assert(views(evidence@) =~= e);
            }
        } else {
            if same_route {
                assert(views(evidence@) =~= e);
            } else {
                assert(views(evidence@) =~= e);
            }
        }
    }
    ScoreSignals { delta_ms, explicit_context, same_route, semantic_counts, evidence }
}

/// The time signal is how long after the action the request left: the
/// difference of the two times when the request came no earlier, else zero.
pub proof fn lemma_signal_delta(action_ts_unix_ms: i64, request_ts_unix_ms: i64)
    ensures
        request_ts_unix_ms >= action_ts_unix_ms ==> max0(request_ts_unix_ms - action_ts_unix_ms)
            == request_ts_unix_ms - action_ts_unix_ms,
        request_ts_unix_ms < action_ts_unix_ms ==> max0(request_ts_unix_ms - action_ts_unix_ms) == 0,
{
}

/// The evidence of a pair: the explicit link first when there is one, then
/// always the time gap in milliseconds, then the shared route when there is
/// one; nothing else.
pub proof fn lemma_signal_evidence_lines(explicit: bool, delta_ms: int, same_route: bool)
    ensures
        ({
            let ev = signal_evidence(explicit, delta_ms, same_route);
            let t = if explicit { 1int } else { 0int };
            &&& ev.len() == t + 1 + if same_route { 1int } else { 0int }
            &&& explicit ==> ev[0] == "related_action_id explícito no initiator_hint"@
            &&& ev[t] == "proximidade temporal de "@ + decimal_int(delta_ms) + "ms"@
            &&& same_route ==> ev[t + 1] == "ação e request na mesma rota"@
        }),
{
}
} // verus!
