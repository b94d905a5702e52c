//! What the agent operations promise together: how a request is resolved
//! after the routes change, and that every operation keeps the default agent
//! and the routes pointing at existing agents.
use vstd::prelude::*;
use crate::agents::catalog::{
    AgentIntegrityReport, agent_added, agent_issues, agent_lookup, agent_removed, agents_without,
    default_issue, default_set, default_without, first_agent_at, has_agent, integrity_issues,
    one_agent_issues, resolution, route_issues, route_removed, route_set,
};
use crate::agents::fields::{
    AddAgentInput, AgentDefinition, agent_id_check, agent_slug, generated_agent_id, is_id_char,
    route_key_check, slug_of,
};
use crate::agents::routes::{
    AgentRoutes, RouteEntry, entries_map, keys_ascending, lemma_entries_map_at,
    lemma_entries_map_dom, without_agent,
};
use crate::error::MosaicError;
use crate::ids::{hex_char, hex_lower};
use crate::sorting::{lemma_stable_sort, stable_sort};
use crate::text::{is_ws, lemma_trim_idempotent, lower_char, opt_view, trim, trim_end, trim_start};

verus! {

/// The default agent and every route lead to existing agents.
pub open spec fn references_resolve(
    agents: Seq<AgentDefinition>,
    default_agent: Option<Seq<char>>,
    route_map: Map<Seq<char>, Seq<char>>,
) -> bool {
    &&& (default_agent matches Some(d) ==> has_agent(agents, d))
    &&& forall|k: Seq<char>| #[trigger] route_map.dom().contains(k) ==> has_agent(agents, route_map[k])
}

/// Every agent has a name and a profile that are not blank.
pub open spec fn agents_complete(agents: Seq<AgentDefinition>) -> bool {
    forall|i: int|
        0 <= i < agents.len() ==> trim((#[trigger] agents[i]).name@).len() > 0 && trim(
            agents[i].profile@,
        ).len() > 0
}

proof fn lemma_checked_id_is_fixed(raw: Seq<char>)
    requires
        agent_id_check(raw) is Ok,
    ensures
        agent_id_check(agent_id_check(raw)->Ok_0) == agent_id_check(raw),
{
    lemma_trim_idempotent(raw);
}

/// An explicit agent is resolved the same way whatever the default agent,
/// the routes and the route hint.
pub proof fn law_explicit_agent_wins(
    agents: Seq<AgentDefinition>,
    raw_id: Seq<char>,
    default_a: Option<Seq<char>>,
    routes_a: Map<Seq<char>, Seq<char>>,
    hint_a: Option<Seq<char>>,
    default_b: Option<Seq<char>>,
    routes_b: Map<Seq<char>, Seq<char>>,
    hint_b: Option<Seq<char>>,
)
    ensures
        resolution(agents, default_a, routes_a, Some(raw_id), hint_a) == resolution(
            agents,
            default_b,
            routes_b,
            Some(raw_id),
            hint_b,
        ),
{
}

/// Without an explicit agent, a route of the hint that leads to an existing
/// agent is taken before the default agent.
pub proof fn law_route_before_default(
    agents: Seq<AgentDefinition>,
    default_agent: Option<Seq<char>>,
    route_map: Map<Seq<char>, Seq<char>>,
    hint: Seq<char>,
)
    requires
        route_key_check(hint) is Ok,
        route_map.dom().contains(route_key_check(hint)->Ok_0),
        agent_id_check(route_map[route_key_check(hint)->Ok_0]) is Ok,
        has_agent(agents, agent_id_check(route_map[route_key_check(hint)->Ok_0])->Ok_0),
    ensures
        resolution(agents, default_agent, route_map, None, Some(hint)) == Ok::<
            Option<Seq<char>>,
            Seq<char>,
        >(Some(route_map[route_key_check(hint)->Ok_0])),
{
}

/// Once a key is routed to an agent, a request with that key as its hint
/// and no explicit agent resolves to that agent.
pub proof fn law_set_route_then_resolve(
    agents: Seq<AgentDefinition>,
    old_routes: AgentRoutes,
    raw_key: Seq<char>,
    raw_id: Seq<char>,
    out: Result<(), MosaicError>,
    routes: AgentRoutes,
)
    requires
        route_set(agents, old_routes, raw_key, raw_id, out, routes),
        out is Ok,
    ensures
        resolution(agents, routes.default_agent(), routes.route_map(), None, Some(raw_key))
            == Ok::<Option<Seq<char>>, Seq<char>>(Some(trim(raw_id))),
{
    lemma_checked_id_is_fixed(raw_id);
}

/// Once an agent is the default, a request with neither an explicit agent
/// nor a routed hint resolves to it.
pub proof fn law_set_default_then_resolve(
    agents: Seq<AgentDefinition>,
    old_routes: AgentRoutes,
    raw_id: Seq<char>,
    out: Result<(), MosaicError>,
    routes: AgentRoutes,
    hint: Option<Seq<char>>,
)
    requires
        default_set(agents, old_routes, raw_id, out, routes),
        out is Ok,
        hint matches Some(h) ==> route_key_check(h) matches Ok(k) && !routes.route_map().dom().contains(k),
    ensures
        resolution(agents, routes.default_agent(), routes.route_map(), None, hint) == Ok::<
            Option<Seq<char>>,
            Seq<char>,
        >(Some(trim(raw_id))),
{
    lemma_checked_id_is_fixed(raw_id);
}

/// Removing an agent leaves no agent with its id, and neither the default
/// agent nor any route refers to it.
pub proof fn law_remove_agent_drops_references(
    old_agents: Seq<AgentDefinition>,
    old_routes: AgentRoutes,
    raw_id: Seq<char>,
    agents: Seq<AgentDefinition>,
    routes: AgentRoutes,
)
    requires
        agent_removed(old_agents, old_routes, raw_id, Ok(true), agents, routes),
    ensures
        agent_id_check(raw_id) is Ok,
        !has_agent(agents, agent_id_check(raw_id)->Ok_0),
        routes.default_agent() != Some(agent_id_check(raw_id)->Ok_0),
        forall|k: Seq<char>|
            #[trigger] routes.route_map().dom().contains(k) ==> routes.route_map()[k]
                != agent_id_check(raw_id)->Ok_0,
{
    let id = agent_id_check(raw_id)->Ok_0;
    lemma_agents_without_has(old_agents, id, id);
}

proof fn lemma_agents_without_has(s: Seq<AgentDefinition>, id: Seq<char>, other: Seq<char>)
    ensures
        has_agent(agents_without(s, id), other) <==> (other != id && has_agent(s, other)),
    decreases s.len(),
{
    if s.len() > 0 {
        let t = s.drop_last();
        lemma_agents_without_has(t, id, other);
        if has_agent(t, other) {
            let i = choose|i: int| 0 <= i < t.len() && (#[trigger] t[i]).id@ == other;
            assert(s[i] == t[i]);
        }
        if has_agent(s, other) && !has_agent(t, other) {
            let i = choose|i: int| 0 <= i < s.len() && (#[trigger] s[i]).id@ == other;
            if i < t.len() {
                assert(s[i] == t[i]);
            }
        }
        let w = agents_without(t, id);
        if s.last().id@ != id {
            let w2 = w.push(s.last());
            if has_agent(w, other) {
                let i = choose|i: int| 0 <= i < w.len() && (#[trigger] w[i]).id@ == other;
                assert(w2[i] == w[i]);
            }
            if has_agent(w2, other) && !has_agent(w, other) {
                let i = choose|i: int| 0 <= i < w2.len() && (#[trigger] w2[i]).id@ == other;
                if i < w.len() {
                    assert(w2[i] == w[i]);
                }
            }
            assert(w2[w.len() as int] == s.last());
            assert(s[s.len() - 1] == s.last());
        } else {
            assert(s[s.len() - 1] == s.last());
        }
    }
}

/// Adding an agent keeps the default agent and the routes pointing at
/// existing agents.
pub proof fn law_add_keeps_references(
    old_agents: Seq<AgentDefinition>,
    input: AddAgentInput,
    generated: Seq<char>,
    now: i64,
    out: Result<AgentDefinition, MosaicError>,
    agents: Seq<AgentDefinition>,
    default_agent: Option<Seq<char>>,
    route_map: Map<Seq<char>, Seq<char>>,
)
    requires
        references_resolve(old_agents, default_agent, route_map),
        agent_added(old_agents, input, generated, now, out, agents),
    ensures
        references_resolve(agents, default_agent, route_map),
{
    if agents != old_agents {
        let a = out->Ok_0;
        assert(agents == old_agents.push(a));
        assert forall|x: Seq<char>| has_agent(old_agents, x) implies has_agent(agents, x) by {
            let i = choose|i: int| 0 <= i < old_agents.len() && (#[trigger] old_agents[i]).id@ == x;
            assert(agents[i] == old_agents[i]);
        }
    }
}

/// Removing an agent keeps the default agent and the routes pointing at
/// existing agents.
pub proof fn law_remove_keeps_references(
    old_agents: Seq<AgentDefinition>,
    old_routes: AgentRoutes,
    raw_id: Seq<char>,
    out: Result<bool, MosaicError>,
    agents: Seq<AgentDefinition>,
    routes: AgentRoutes,
)
    requires
        references_resolve(old_agents, old_routes.default_agent(), old_routes.route_map()),
        agent_removed(old_agents, old_routes, raw_id, out, agents, routes),
    ensures
        references_resolve(agents, routes.default_agent(), routes.route_map()),
{
    if out == Ok::<bool, MosaicError>(true) {
        let id = agent_id_check(raw_id)->Ok_0;
        let m = old_routes.route_map();
        if routes.default_agent() is Some {
            lemma_agents_without_has(old_agents, id, routes.default_agent()->0);
        }
        assert forall|k: Seq<char>| #[trigger] routes.route_map().dom().contains(k) implies has_agent(
            agents,
            routes.route_map()[k],
        ) by {
            assert(routes.route_map()[k] == m[k]);
            lemma_agents_without_has(old_agents, id, m[k]);
        }
    }
}

/// Making an agent the default keeps the default agent and the routes
/// pointing at existing agents.
pub proof fn law_set_default_keeps_references(
    agents: Seq<AgentDefinition>,
    old_routes: AgentRoutes,
    raw_id: Seq<char>,
    out: Result<(), MosaicError>,
    routes: AgentRoutes,
)
    requires
        references_resolve(agents, old_routes.default_agent(), old_routes.route_map()),
        default_set(agents, old_routes, raw_id, out, routes),
    ensures
        references_resolve(agents, routes.default_agent(), routes.route_map()),
{
}

/// Routing a key to an agent keeps the default agent and the routes pointing
/// at existing agents.
pub proof fn law_set_route_keeps_references(
    agents: Seq<AgentDefinition>,
    old_routes: AgentRoutes,
    raw_key: Seq<char>,
    raw_id: Seq<char>,
    out: Result<(), MosaicError>,
    routes: AgentRoutes,
)
    requires
        references_resolve(agents, old_routes.default_agent(), old_routes.route_map()),
        route_set(agents, old_routes, raw_key, raw_id, out, routes),
    ensures
        references_resolve(agents, routes.default_agent(), routes.route_map()),
{
    if out is Ok {
        let key = route_key_check(raw_key)->Ok_0;
        let id = agent_id_check(raw_id)->Ok_0;
        assert forall|k: Seq<char>| #[trigger] routes.route_map().dom().contains(k) implies has_agent(
            agents,
            routes.route_map()[k],
        ) by {
            if k != key {
                assert(old_routes.route_map().dom().contains(k));
            }
        }
    }
}

/// Removing a route keeps the default agent and the routes pointing at
/// existing agents.
pub proof fn law_remove_route_keeps_references(
    agents: Seq<AgentDefinition>,
    old_routes: AgentRoutes,
    raw_key: Seq<char>,
    out: Result<bool, MosaicError>,
    routes: AgentRoutes,
)
    requires
        references_resolve(agents, old_routes.default_agent(), old_routes.route_map()),
        route_removed(old_routes, raw_key, out, routes),
    ensures
        references_resolve(agents, routes.default_agent(), routes.route_map()),
{
    assert forall|k: Seq<char>| #[trigger] routes.route_map().dom().contains(k) implies has_agent(
        agents,
        routes.route_map()[k],
    ) by {
        assert(old_routes.route_map().dom().contains(k));
    }
}

proof fn lemma_agent_issues_empty(s: Seq<AgentDefinition>)
    ensures
        agent_issues(s).len() == 0 <==> agents_complete(s),
    decreases s.len(),
{
    if s.len() > 0 {
        let t = s.drop_last();
        lemma_agent_issues_empty(t);
        if agents_complete(s) {
            assert forall|i: int| 0 <= i < t.len() implies trim((#[trigger] t[i]).name@).len() > 0
                && trim(t[i].profile@).len() > 0 by {
                assert(t[i] == s[i]);
            }
            assert(s[s.len() - 1] == s.last());
        }
        if agents_complete(t) && one_agent_issues(s.last()).len() == 0 {
            assert forall|i: int| 0 <= i < s.len() implies trim((#[trigger] s[i]).name@).len() > 0
                && trim(s[i].profile@).len() > 0 by {
                if i < t.len() {
                    assert(t[i] == s[i]);
                }
            }
        }
    }
}

proof fn lemma_route_issues_empty(agents: Seq<AgentDefinition>, es: Seq<RouteEntry>)
    ensures
        route_issues(agents, es).len() == 0 <==> forall|i: int|
            0 <= i < es.len() ==> has_agent(agents, (#[trigger] es[i]).agent_id@),
    decreases es.len(),
{
    if es.len() > 0 {
        let t = es.drop_last();
        lemma_route_issues_empty(agents, t);
        if route_issues(agents, es).len() == 0 {
            assert forall|i: int| 0 <= i < es.len() implies has_agent(
                agents,
                (#[trigger] es[i]).agent_id@,
            ) by {
                if i < t.len() {
                    assert(t[i] == es[i]);
                }
            }
        }
        if forall|i: int| 0 <= i < es.len() ==> has_agent(agents, (#[trigger] es[i]).agent_id@) {
            assert forall|i: int| 0 <= i < t.len() implies has_agent(
                agents,
                (#[trigger] t[i]).agent_id@,
            ) by {
                assert(t[i] == es[i]);
            }
            assert(es[es.len() - 1] == es.last());
        }
    }
}

/// An integrity check reports no issue exactly when every agent has a name
/// and a profile and the default agent and every route lead to existing
/// agents.
pub proof fn law_integrity_ok(
    agents: Seq<AgentDefinition>,
    routes: AgentRoutes,
    report: AgentIntegrityReport,
)
    requires
        report.ok == (report.issues@.len() == 0),
        exists|es: Seq<RouteEntry>|
            keys_ascending(es) && entries_map(es) == routes.route_map() && crate::sorting::views(
                report.issues@,
            ) == integrity_issues(agents, routes.default_agent(), es),
    ensures
        report.ok <==> (agents_complete(agents) && references_resolve(
            agents,
            routes.default_agent(),
            routes.route_map(),
        )),
{
    let es = choose|es: Seq<RouteEntry>|
        keys_ascending(es) && entries_map(es) == routes.route_map() && crate::sorting::views(
            report.issues@,
        ) == integrity_issues(agents, routes.default_agent(), es);
    let m = routes.route_map();
    let sorted = stable_sort(agents);
    lemma_stable_sort(agents);
    lemma_agent_issues_empty(sorted);
    lemma_route_issues_empty(agents, es);
    assert(report.issues@.len() == crate::sorting::views(report.issues@).len());
    assert(agents_complete(sorted) <==> agents_complete(agents)) by {
        broadcast use vstd::seq_lib::group_to_multiset_ensures;

        if agents_complete(sorted) {
            assert forall|i: int| 0 <= i < agents.len() implies trim(
                (#[trigger] agents[i]).name@,
            ).len() > 0 && trim(agents[i].profile@).len() > 0 by {
                assert(agents.contains(agents[i]));
                assert(agents.to_multiset().count(agents[i]) > 0);
                assert(sorted.contains(agents[i]));
            }
        }
        if agents_complete(agents) {
            assert forall|i: int| 0 <= i < sorted.len() implies trim(
                (#[trigger] sorted[i]).name@,
            ).len() > 0 && trim(sorted[i].profile@).len() > 0 by {
                assert(sorted.contains(sorted[i]));
                assert(sorted.to_multiset().count(sorted[i]) > 0);
                assert(agents.contains(sorted[i]));
            }
        }
    }
    assert((forall|i: int| 0 <= i < es.len() ==> has_agent(agents, (#[trigger] es[i]).agent_id@))
        <==> (forall|k: Seq<char>| #[trigger] m.dom().contains(k) ==> has_agent(agents, m[k]))) by {
        if forall|i: int| 0 <= i < es.len() ==> has_agent(agents, (#[trigger] es[i]).agent_id@) {
            assert forall|k: Seq<char>| #[trigger] m.dom().contains(k) implies has_agent(
                agents,
                m[k],
            ) by {
                lemma_entries_map_dom(es, k);
                let i = choose|i: int| 0 <= i < es.len() && (#[trigger] es[i]).key@ == k;
                lemma_entries_map_at(es, i);
            }
        }
        if forall|k: Seq<char>| #[trigger] m.dom().contains(k) ==> has_agent(agents, m[k]) {
            assert forall|i: int| 0 <= i < es.len() implies has_agent(
                agents,
                (#[trigger] es[i]).agent_id@,
            ) by {
                lemma_entries_map_at(es, i);
            }
        }
    }
}

proof fn lemma_slug_chars(s: Seq<char>)
    ensures
        forall|i: int| 0 <= i < slug_of(s).len() ==> is_id_char(#[trigger] slug_of(s)[i]),
    decreases s.len(),
{
    if s.len() > 0 {
        lemma_slug_chars(s.drop_last());
        let prev = slug_of(s.drop_last());
        let out = slug_of(s);
        assert forall|i: int| 0 <= i < out.len() implies is_id_char(#[trigger] out[i]) by {
            if i < prev.len() {
                assert(out[i] == prev[i]);
            } else {
                let c = s.last();
                if 'A' <= c && c <= 'Z' {
                    assert(((c as u32) + 32) as char == lower_char(c));
                }
            }
        }
    }
}

proof fn lemma_hex_chars(bytes: Seq<u8>)
    ensures
        forall|i: int| 0 <= i < hex_lower(bytes).len() ==> is_id_char(#[trigger] hex_lower(bytes)[i]),
    decreases bytes.len(),
{
    if bytes.len() > 0 {
        lemma_hex_chars(bytes.drop_last());
        let prev = hex_lower(bytes.drop_last());
        let out = hex_lower(bytes);
        assert forall|i: int| 0 <= i < out.len() implies is_id_char(#[trigger] out[i]) by {
            if i < prev.len() {
                assert(out[i] == prev[i]);
            } else {
                let hi = (bytes.last() / 16) as nat;
                let lo = (bytes.last() % 16) as nat;
                assert(hi < 16 && lo < 16);
            }
        }
    }
}

/// A generated id passes the id check unchanged.
pub proof fn law_generated_id_is_valid(name: Seq<char>, bytes: Seq<u8>)
    requires
        bytes.len() == 16,
    ensures
        agent_id_check(generated_agent_id(name, bytes)) == Ok::<Seq<char>, Seq<char>>(
            generated_agent_id(name, bytes),
        ),
{
    let g = generated_agent_id(name, bytes);
    let sl = agent_slug(name);
    let hx = hex_lower(bytes).take(8);
    lemma_slug_chars(trim(name));
    lemma_hex_chars(bytes);
    reveal_strlit("agent");
    reveal_strlit("-");
    assert(hex_lower(bytes).len() >= 8) by {
        lemma_hex_len(bytes);
    }
    assert forall|i: int| 0 <= i < g.len() implies is_id_char(#[trigger] g[i]) by {
        if i < sl.len() {
            assert(g[i] == sl[i]);
        } else if i == sl.len() {
            assert(g[i] == '-');
        } else {
            assert(g[i] == hx[i - sl.len() - 1]);
            assert(hx[i - sl.len() - 1] == hex_lower(bytes)[i - sl.len() - 1]);
        }
    }
    assert(!is_ws(g[0]));
    assert(!is_ws(g.last()));
    assert(trim_start(g) == g);
    assert(trim_end(g) == g);
}

proof fn lemma_hex_len(bytes: Seq<u8>)
    ensures
        hex_lower(bytes).len() == 2 * bytes.len(),
    decreases bytes.len(),
{
    if bytes.len() > 0 {
        lemma_hex_len(bytes.drop_last());
    }
}

/// An added agent is found again by its id.
pub proof fn law_added_agent_is_found(
    old_agents: Seq<AgentDefinition>,
    input: AddAgentInput,
    generated: Seq<char>,
    now: i64,
    out: Result<AgentDefinition, MosaicError>,
    agents: Seq<AgentDefinition>,
)
    requires
        agent_added(old_agents, input, generated, now, out, agents),
        out is Ok,
        input.id is None ==> agent_id_check(generated) == Ok::<Seq<char>, Seq<char>>(generated),
    ensures
        agent_lookup(agents, out->Ok_0.id@, Ok(Some(out->Ok_0))),
{
    let a = out->Ok_0;
    if input.id is Some {
        lemma_checked_id_is_fixed(input.id->0@);
    }
    assert(agents[old_agents.len() as int] == a);
    assert forall|j: int| 0 <= j < old_agents.len() implies (#[trigger] agents[j]).id@ != a.id@ by {
        assert(agents[j] == old_agents[j]);
    }
    assert(first_agent_at(agents, a.id@, old_agents.len() as int));
}

} // verus!
