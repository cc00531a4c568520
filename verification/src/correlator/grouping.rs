//! Grouping of the session's actions by route, with the requests each one caused.
use vstd::prelude::*;

use crate::domain::correlation::{
    flow_order, flow_view_fn, flow_views, ActionFlow, ActionFlowView, RequestCorrelation, RouteFlow,
};
use crate::domain::event::{
    action_type_name, action_type_name_spec, route_or_page, route_or_page_exec, UserActionEvent,
};
use crate::order::{
    hits, is_stable_arrangement, is_stable_sort_by, is_stable_sort_of, lemma_stable_sort_map, stable_sort, SortKey,
};
use crate::text::{
    chars_lt, is_blank, lemma_chars_lt_total, string_of, trim, views,
};

verus! {

broadcast use vstd::seq_lib::group_seq_properties;

/// A user action and when it happened.
#[derive(Debug, Clone, PartialEq)]
pub struct ActionRecord {
    pub ts_unix_ms: i64,
    pub event: UserActionEvent,
}

impl SortKey for ActionRecord {
    open spec fn key_before(&self, other: &Self) -> bool {
        self.ts_unix_ms < other.ts_unix_ms
    }

    proof fn lemma_key_before_asymmetric(a: &Self, b: &Self) {
    }

    proof fn lemma_key_before_splits(a: &Self, b: &Self, c: &Self) {
    }

    fn before(&self, other: &Self) -> (r: bool) {
        self.ts_unix_ms < other.ts_unix_ms
    }
}

/// The label of an action: its target's text when that is not blank, else
/// the name of its type.
pub open spec fn action_label_spec(a: ActionRecord) -> Seq<char> {
    match a.event.target.text {
        Some(t) => if trim(t@).len() != 0 {
            t@
        } else {
            action_type_name_spec(a.event.action_type)
        },
        None => action_type_name_spec(a.event.action_type),
    }
}

/// An action whose target has text that is not all white space is labelled
/// by that text; any other action by the name of its type.
pub proof fn lemma_action_label_choice(a: ActionRecord)
    ensures
        a.event.target.text is Some && (exists|i: int|
            0 <= i < a.event.target.text->0@.len() && !crate::text::is_space(
                #[trigger] a.event.target.text->0@[i],
            )) ==> action_label_spec(a) == a.event.target.text->0@,
        (a.event.target.text is None || forall|i: int|
            0 <= i < a.event.target.text->0@.len() ==> crate::text::is_space(
                #[trigger] a.event.target.text->0@[i],
            )) ==> action_label_spec(a) == action_type_name_spec(a.event.action_type),
{
    match a.event.target.text {
        Some(t) => {
            crate::text::lemma_trim_empty_iff_blank(t@);
        },
        None => {},
    }
}

pub fn action_label(a: &ActionRecord) -> (r: String)
    ensures
        r@ == action_label_spec(*a),
{
    match &a.event.target.text {
        Some(t) => {
            if !is_blank(t.as_str()) {
                t.clone()
            } else {
                string_of(action_type_name(a.event.action_type))
            }
        },
        None => string_of(action_type_name(a.event.action_type)),
    }
}

/// The route an action belongs to: its route, else its page URL.
pub open spec fn route_of(a: ActionRecord) -> Seq<char> {
    route_or_page(a.event.route, a.event.page_url)
}

/// The ids of the requests attributed to the action `action_id`, in order.
pub open spec fn request_ids_for(cs: Seq<RequestCorrelation>, action_id: Seq<char>) -> Seq<
    Seq<char>,
>
    decreases cs.len(),
{
    if cs.len() == 0 {
        seq![]
    } else {
        let prev = request_ids_for(cs.drop_last(), action_id);
        let c = cs.last();
        if c.action_id is Some && c.action_id->0@ == action_id {
            prev.push(c.request_id@)
        } else {
            prev
        }
    }
}

pub open spec fn action_flow_view(a: ActionRecord, cs: Seq<RequestCorrelation>) -> ActionFlowView {
    ActionFlowView {
        action_id: a.event.action_id@,
        action_type: a.event.action_type,
        action_label: action_label_spec(a),
        request_ids: request_ids_for(cs, a.event.action_id@),
    }
}

/// The flows of the actions on `route`, in the order of the actions.
pub open spec fn flows_on_route(
    actions: Seq<ActionRecord>,
    cs: Seq<RequestCorrelation>,
    route: Seq<char>,
) -> Seq<ActionFlowView>
    decreases actions.len(),
{
    if actions.len() == 0 {
        seq![]
    } else {
        let prev = flows_on_route(actions.drop_last(), cs, route);
        if route_of(actions.last()) == route {
            prev.push(action_flow_view(actions.last(), cs))
        } else {
            prev
        }
    }
}

fn request_ids_of(correlations: &Vec<RequestCorrelation>, action_id: &String) -> (r: Vec<String>)
    ensures
        views(r@) == request_ids_for(correlations@, action_id@),
{
    let mut r: Vec<String> = Vec::new();
    for i in 0..correlations.len()
        invariant
            views(r@) == request_ids_for(correlations@.take(i as int), action_id@),
    {
        let c = &correlations[i];
        let ghost before = r@;
        match &c.action_id {
            Some(id) => {
                if *id == *action_id {
                    r.push(c.request_id.clone());
                    assert(views(r@) =~= views(before).push(c.request_id@));
                }
            },
            None => {},
        }
        assert(correlations@.take(i + 1).drop_last() =~= correlations@.take(i as int));
    }
    assert(correlations@.take(correlations.len() as int) =~= correlations@);
    r
}

fn action_flow(a: &ActionRecord, correlations: &Vec<RequestCorrelation>) -> (f: ActionFlow)
    ensures
        f@ == action_flow_view(*a, correlations@),
{
    ActionFlow {
        action_id: a.event.action_id.clone(),
        action_type: a.event.action_type,
        action_label: action_label(a),
        request_ids: request_ids_of(correlations, &a.event.action_id),
    }
}

fn flows_on(actions: &Vec<ActionRecord>, correlations: &Vec<RequestCorrelation>, route: &String) -> (r:
    Vec<ActionFlow>)
    ensures
        flow_views(r@) == flows_on_route(actions@, correlations@, route@),
{
    let mut r: Vec<ActionFlow> = Vec::new();
    for i in 0..actions.len()
        invariant
            flow_views(r@) == flows_on_route(actions@.take(i as int), correlations@, route@),
    {
        let a = &actions[i];
        let ghost before = r@;
        let ar = route_or_page_exec(&a.event.route, &a.event.page_url);
        if ar == *route {
            r.push(action_flow(a, correlations));
            assert(flow_views(r@) =~= flow_views(before).push(action_flow_view(*a, correlations@)));
        }
        assert(actions@.take(i + 1).drop_last() =~= actions@.take(i as int));
    }
    assert(actions@.take(actions.len() as int) =~= actions@);
    r
}

/// Whether `x` is among the strings of `v`.
fn has_string(v: &Vec<String>, x: &String) -> (r: bool)
    ensures
        r == views(v@).contains(x@),
{
    let mut k: usize = 0;
    while k < v.len()
        invariant
            k <= v.len(),
            forall|j: int| 0 <= j < k ==> v@[j]@ != x@,
        decreases v.len() - k,
    {
        if v[k] == *x {
            assert(views(v@)[k as int] == x@);
            return true;
        }
        k = k + 1;
    }
    assert forall|j: int| 0 <= j < views(v@).len() implies views(v@)[j] != x@ by {
        assert(views(v@)[j] == v@[j]@);
    }
    false
}

/// Some action among the first `n` is on `route`.
pub open spec fn route_present(actions: Seq<ActionRecord>, n: int, route: Seq<char>) -> bool {
    exists|j: int| 0 <= j < n && route_of(#[trigger] actions[j]) == route
}

/// The routes of the actions, each once, in order of first appearance.
fn distinct_routes(actions: &Vec<ActionRecord>) -> (r: Vec<String>)
    ensures
        views(r@).no_duplicates(),
        forall|i: int| 0 <= i < actions@.len() ==> views(r@).contains(route_of(#[trigger] actions@[i])),
        forall|k: int|
            0 <= k < r@.len() ==> route_present(actions@, actions@.len() as int, #[trigger] r@[k]@),
{
    let mut r: Vec<String> = Vec::new();
    for i in 0..actions.len()
        invariant
            views(r@).no_duplicates(),
            forall|j: int| 0 <= j < i ==> views(r@).contains(route_of(#[trigger] actions@[j])),
            forall|k: int| 0 <= k < r@.len() ==> route_present(actions@, i as int, #[trigger] r@[k]@),
    {
        let a = &actions[i];
        let route = route_or_page_exec(&a.event.route, &a.event.page_url);
        let ghost before = r@;
        proof {
            assert forall|k: int| 0 <= k < before.len() implies route_present(
                actions@,
                i + 1,
                #[trigger] before[k]@,
            ) by {
                assert(route_present(actions@, i as int, before[k]@));
                let j = choose|j: int| 0 <= j < i && route_of(#[trigger] actions@[j]) == before[k]@;
                assert(0 <= j < i + 1 && route_of(actions@[j]) == before[k]@);
            }
        }
        if !has_string(&r, &route) {
            r.push(route);
            proof {
                assert(views(r@) =~= views(before).push(route_of(*a)));
                assert forall|k: int| 0 <= k < r@.len() implies route_present(
                    actions@,
                    i + 1,
                    #[trigger] r@[k]@,
                ) by {
                    if k == before.len() {
                        assert(route_of(actions@[i as int]) == r@[k]@);
                    } else {
                        assert(r@[k] == before[k]);
                    }
                }
                assert forall|j: int| 0 <= j < i + 1 implies views(r@).contains(
                    route_of(#[trigger] actions@[j]),
                ) by {
                    if j < i {
                        assert(views(before).contains(route_of(actions@[j])));
                        let w = choose|w: int|
                            0 <= w < views(before).len() && views(before)[w] == route_of(actions@[j]);
                        assert(views(r@)[w] == views(before)[w]);
                    } else {
                        assert(views(r@)[before.len() as int] == route_of(actions@[j]));
                    }
                }
            }
        }
    }
    r
}

/// Some flow of `flows` is on `route`.
pub open spec fn route_listed(flows: Seq<RouteFlow>, route: Seq<char>) -> bool {
    exists|k: int| 0 <= k < flows.len() && (#[trigger] flows[k]).route@ == route
}

proof fn lemma_route_groups(
    actions: Seq<ActionRecord>,
    cs: Seq<RequestCorrelation>,
    routes: Seq<String>,
    gs: Seq<RouteFlow>,
    out: Seq<RouteFlow>,
)
    requires
        views(routes).no_duplicates(),
        forall|i: int| 0 <= i < actions.len() ==> views(routes).contains(route_of(#[trigger] actions[i])),
        forall|k: int|
            0 <= k < routes.len() ==> route_present(actions, actions.len() as int, #[trigger] routes[k]@),
        gs.len() == routes.len(),
        forall|k: int| 0 <= k < gs.len() ==> (#[trigger] gs[k]).route@ == routes[k]@,
        forall|k: int|
            0 <= k < gs.len() ==> is_stable_sort_by(
                flows_on_route(actions, cs, (#[trigger] gs[k]).route@),
                flow_views(gs[k].actions@),
                flow_order(),
            ),
        is_stable_sort_of(gs, out),
    ensures
        forall|i: int, j: int|
            #![trigger out[i], out[j]]
            0 <= i < j < out.len() ==> chars_lt(out[i].route@, out[j].route@),
        forall|k: int|
            0 <= k < out.len() ==> is_stable_sort_by(
                flows_on_route(actions, cs, (#[trigger] out[k]).route@),
                flow_views(out[k].actions@),
                flow_order(),
            ),
        forall|k: int|
            0 <= k < out.len() ==> route_present(actions, actions.len() as int, (#[trigger] out[k]).route@),
        forall|i: int| 0 <= i < actions.len() ==> route_listed(out, route_of(#[trigger] actions[i])),
{
    let p = choose|p: Seq<int>| is_stable_arrangement(gs, out, p);
    assert forall|i: int, j: int|
        #![trigger out[i], out[j]]
        0 <= i < j < out.len() implies chars_lt(out[i].route@, out[j].route@) by {
        assert(out[i] == gs[p[i]]);
        assert(out[j] == gs[p[j]]);
        assert(p[i] != p[j]);
        assert(views(routes)[p[i]] == routes[p[i]]@);
        assert(views(routes)[p[j]] == routes[p[j]]@);
        assert(!out[j].key_before(&out[i]));
        lemma_chars_lt_total(out[i].route@, out[j].route@);
    }
    assert forall|k: int| 0 <= k < out.len() implies is_stable_sort_by(
        flows_on_route(actions, cs, (#[trigger] out[k]).route@),
        flow_views(out[k].actions@),
        flow_order(),
    ) by {
        assert(out[k] == gs[p[k]]);
    }
    assert forall|k: int| 0 <= k < out.len() implies route_present(
        actions,
        actions.len() as int,
        (#[trigger] out[k]).route@,
    ) by {
        assert(out[k] == gs[p[k]]);
        assert(route_present(actions, actions.len() as int, routes[p[k]]@));
    }
    assert forall|i: int| 0 <= i < actions.len() implies route_listed(
        out,
        route_of(#[trigger] actions[i]),
    ) by {
        assert(views(routes).contains(route_of(actions[i])));
        let w = choose|w: int| 0 <= w < views(routes).len() && views(routes)[w] == route_of(actions[i]);
        assert(hits(p, w));
        let k = choose|k: int| 0 <= k < p.len() && #[trigger] p[k] == w;
        assert(out[k] == gs[w]);
        assert(views(routes)[w] == routes[w]@);
        assert(0 <= k < out.len());
        assert(out[k].route@ == route_of(actions[i]));
    }
}

/// The session's actions grouped by route. Routes come in increasing order of
/// `str`, each once, exactly the routes of the actions; on each route, the
/// flows of its actions, each with the ids of the requests attributed to it,
/// stably sorted by action id.
pub fn build_route_flows(actions: &Vec<ActionRecord>, correlations: &Vec<RequestCorrelation>) -> (r:
    Vec<RouteFlow>)
    ensures
        forall|i: int, j: int|
            #![trigger r@[i], r@[j]]
            0 <= i < j < r@.len() ==> chars_lt(r@[i].route@, r@[j].route@),
        forall|k: int|
            0 <= k < r@.len() ==> is_stable_sort_by(
                flows_on_route(actions@, correlations@, (#[trigger] r@[k]).route@),
                flow_views(r@[k].actions@),
                flow_order(),
            ),
        forall|k: int|
            0 <= k < r@.len() ==> route_present(
                actions@,
                actions@.len() as int,
                (#[trigger] r@[k]).route@,
            ),
        forall|i: int|
            0 <= i < actions@.len() ==> route_listed(r@, route_of(#[trigger] actions@[i])),
{
    let routes = distinct_routes(actions);
    let mut groups: Vec<RouteFlow> = Vec::new();
    for g in 0..routes.len()
        invariant
            groups@.len() == g,
            g <= routes@.len(),
            forall|k: int| 0 <= k < g ==> (#[trigger] groups@[k]).route@ == routes@[k]@,
            forall|k: int|
                0 <= k < g ==> is_stable_sort_by(
                    flows_on_route(actions@, correlations@, (#[trigger] groups@[k]).route@),
                    flow_views(groups@[k].actions@),
                    flow_order(),
                ),
    {
        let route = &routes[g];
        let flows = flows_on(actions, correlations, route);
        let ghost unsorted = flows@;
        let sorted = stable_sort(flows);
        proof {
            assert forall|a: ActionFlow, b: ActionFlow| #[trigger] (flow_order())(
                (flow_view_fn())(a),
                (flow_view_fn())(b),
            ) == a.key_before(&b) by {
            }
            lemma_stable_sort_map(unsorted, sorted@, flow_view_fn(), flow_order());
        }
        groups.push(RouteFlow { route: route.clone(), actions: sorted });
    }
    let ghost gs = groups@;
    let out = stable_sort(groups);
    proof {
        lemma_route_groups(actions@, correlations@, routes@, gs, out@);
    }
    out
}

} // verus!
