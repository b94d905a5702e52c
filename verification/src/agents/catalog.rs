//! The operations on the agents and their routes: adding and removing
//! agents, the default agent and the routes, resolving the agent of a
//! request, checking their integrity and applying an agent's overrides.
//!
//! Reading and writing the two files is the caller's part: the operations
//! take the loaded agents and routes and change them in place.
use vstd::prelude::*;
use crate::agents::fields::{
    AddAgentInput, AgentDefinition, RunGuardMode, Temperature, agent_fields_check, agent_id_check,
    checked_as, generate_agent_id, generated_agent_id, normalize_agent_id, normalize_route_key,
    opt_str, route_key_check, temperature_in_range, temperature_ok, unit_checked_as,
    validate_agent_fields,
};
use crate::agents::routes::{AgentRoutes, RouteEntry, entries_map, keys_ascending, without_agent};
use crate::error::{MosaicError, config_error, fails_with};
use crate::sorting::{
    Ordered, lemma_text_le_total, lemma_text_le_trans, sort_stable, stable_sort, text_le,
    text_le_exec,
};
use crate::sorting::views;
use crate::text::{cat3, cat5, is_blank_str, owned, lemma_trim_idempotent, opt_view, str_eq, trim, trim_str};

verus! {

impl Ordered for AgentDefinition {
    open spec fn le_spec(&self, other: &Self) -> bool {
        text_le(self.id@, other.id@)
    }

    fn le_exec(&self, other: &Self) -> (b: bool) {
        text_le_exec(self.id.as_str(), other.id.as_str())
    }

    proof fn le_total(a: &Self, b: &Self) {
        lemma_text_le_total(a.id@, b.id@);
    }

    proof fn le_trans(a: &Self, b: &Self, c: &Self) {
        lemma_text_le_trans(a.id@, b.id@, c.id@);
    }
}

/// Some agent has the id `id`.
pub open spec fn has_agent(agents: Seq<AgentDefinition>, id: Seq<char>) -> bool {
    exists|i: int| 0 <= i < agents.len() && (#[trigger] agents[i]).id@ == id
}

/// `i` is the first position of an agent with the id `id`.
pub open spec fn first_agent_at(agents: Seq<AgentDefinition>, id: Seq<char>, i: int) -> bool {
    &&& 0 <= i < agents.len()
    &&& agents[i].id@ == id
    &&& forall|j: int| 0 <= j < i ==> (#[trigger] agents[j]).id@ != id
}

/// The first agent with the id `id`.
pub fn find_agent(agents: &Vec<AgentDefinition>, id: &str) -> (found: Option<usize>)
    ensures
        match found {
            Some(i) => first_agent_at(agents@, id@, i as int),
            None => !has_agent(agents@, id@),
        },
{
    let mut i: usize = 0;
    while i < agents.len()
        invariant
            i <= agents.len(),
            forall|j: int| 0 <= j < i ==> (#[trigger] agents@[j]).id@ != id@,
        decreases agents.len() - i,
    {
        if str_eq(agents[i].id.as_str(), id) {
            return Some(i);
        }
        i += 1;
    }
    None
}

/// The message for an agent id that matches no agent.
pub open spec fn agent_not_found(id: Seq<char>) -> Seq<char> {
    "agent '"@ + id + "' not found"@
}

/// What looking an agent up by a raw id yields.
pub open spec fn agent_lookup(
    agents: Seq<AgentDefinition>,
    raw: Seq<char>,
    out: Result<Option<AgentDefinition>, MosaicError>,
) -> bool {
    match agent_id_check(raw) {
        Err(m) => fails_with(out, m),
        Ok(id) => if has_agent(agents, id) {
            exists|i: int| first_agent_at(agents, id, i) && out == Ok::<
                Option<AgentDefinition>,
                MosaicError,
            >(Some(agents[i]))
        } else {
            out == Ok::<Option<AgentDefinition>, MosaicError>(None)
        },
    }
}

/// The agent with the given id, after checking the id.
pub fn get_agent(agents: &Vec<AgentDefinition>, raw_id: &str) -> (out: Result<
    Option<AgentDefinition>,
    MosaicError,
>)
    ensures
        agent_lookup(agents@, raw_id@, out),
{
    let id = match normalize_agent_id(raw_id) {
        Ok(id) => id,
        Err(e) => return Err(e),
    };
    match find_agent(agents, id.as_str()) {
        Some(i) => Ok(Some(agents[i].duplicate())),
        None => Ok(None),
    }
}

/// The agents ordered by id, agents with equal ids in their stored order.
pub fn list_agents(agents: &Vec<AgentDefinition>) -> (out: Vec<AgentDefinition>)
    ensures
        out@ == stable_sort(agents@),
{
    let mut copy: Vec<AgentDefinition> = Vec::new();
    let mut i: usize = 0;
    while i < agents.len()
        invariant
            i <= agents.len(),
            copy@ == agents@.take(i as int),
        decreases agents.len() - i,
    {
        copy.push(agents[i].duplicate());
        i += 1;
        assert(copy@ =~= agents@.take(i as int));
    }
    assert(agents@.take(agents.len() as int) =~= agents@);
    sort_stable(copy)
}

/// The id an added agent gets: the given one, trimmed, or the generated one.
pub open spec fn added_agent_id(input_id: Option<Seq<char>>, generated: Seq<char>) -> Seq<char> {
    match input_id {
        Some(raw) => trim(raw),
        None => generated,
    }
}

/// The trimmed text of an optional value (kept when it trims to nothing).
pub open spec fn trimmed_opt(o: Option<Seq<char>>) -> Option<Seq<char>> {
    match o {
        Some(v) => Some(trim(v)),
        None => None,
    }
}

/// What adding an agent yields, with `generated` as the id when the input
/// gives none: the checks in order, then the new agent appended.
pub open spec fn agent_added(
    old: Seq<AgentDefinition>,
    input: AddAgentInput,
    generated: Seq<char>,
    now: i64,
    out: Result<AgentDefinition, MosaicError>,
    new: Seq<AgentDefinition>,
) -> bool {
    match agent_fields_check(
        opt_view(input.id),
        input.name@,
        input.profile@,
        input.temperature,
        input.max_turns,
    ) {
        Err(m) => new == old && fails_with(out, m),
        Ok(_) => {
            let id = added_agent_id(opt_view(input.id), generated);
            if has_agent(old, id) {
                new == old && fails_with(out, "agent '"@ + id
                    + "' already exists"@)
            } else {
                out matches Ok(a) && new == old.push(a) && a.id@ == id && a.name@ == trim(
                    input.name@,
                ) && a.profile@ == trim(input.profile@) && opt_view(a.model) == trimmed_opt(
                    opt_view(input.model),
                ) && a.temperature == input.temperature && a.max_turns == input.max_turns
                    && a.tools_enabled == input.tools_enabled && a.guard_mode == input.guard_mode
                    && a.created_at == now && a.updated_at == now
            }
        },
    }
}

fn opt_as_str(o: &Option<String>) -> (r: Option<&str>)
    ensures
        opt_str(r) == opt_view(*o),
{
    match o {
        Some(s) => Some(s.as_str()),
        None => None,
    }
}

/// Adds an agent, taking `generated_id` as its id when the input gives none.
pub fn add_agent_with_id(
    agents: &mut Vec<AgentDefinition>,
    input: AddAgentInput,
    generated_id: String,
    now: i64,
) -> (out: Result<AgentDefinition, MosaicError>)
    ensures
        agent_added(old(agents)@, input, generated_id@, now, out, final(agents)@),
{
    let ghost inp = input;
    match validate_agent_fields(
        opt_as_str(&input.id),
        input.name.as_str(),
        input.profile.as_str(),
        input.temperature,
        input.max_turns,
    ) {
        Ok(_) => {},
        Err(e) => return Err(e),
    }
    let id = match &input.id {
        Some(raw) => trim_str(raw.as_str()),
        None => generated_id,
    };
    if find_agent(agents, id.as_str()).is_some() {
        return Err(MosaicError::Validation(cat3("agent '", id.as_str(), "' already exists")));
    }
    let model = match &input.model {
        Some(m) => Some(trim_str(m.as_str())),
        None => None,
    };
    let agent = AgentDefinition {
        id,
        name: trim_str(input.name.as_str()),
        profile: trim_str(input.profile.as_str()),
        model,
        temperature: input.temperature,
        max_turns: input.max_turns,
        tools_enabled: input.tools_enabled,
        guard_mode: input.guard_mode,
        created_at: now,
        updated_at: now,
    };
    let copy = agent.duplicate();
    agents.push(agent);
    Ok(copy)
}

/// Adds an agent, generating its id from its name when the input gives
/// none.
pub fn add_agent(agents: &mut Vec<AgentDefinition>, input: AddAgentInput, now: i64) -> (out: Result<
    AgentDefinition,
    MosaicError,
>)
    ensures
        exists|g: Seq<char>|
            (input.id is None ==> exists|b: Seq<u8>|
                b.len() == 16 && g == generated_agent_id(input.name@, b)) && agent_added(
                old(agents)@,
                input,
                g,
                now,
                out,
                final(agents)@,
            ),
{
    let generated = if input.id.is_none() {
        generate_agent_id(input.name.as_str())
    } else {
        String::new()
    };
    add_agent_with_id(agents, input, generated, now)
}

/// The agents without those with the id `id`, in order.
pub open spec fn agents_without(s: Seq<AgentDefinition>, id: Seq<char>) -> Seq<AgentDefinition>
    decreases s.len(),
{
    if s.len() == 0 {
        s
    } else if s.last().id@ == id {
        agents_without(s.drop_last(), id)
    } else {
        agents_without(s.drop_last(), id).push(s.last())
    }
}

/// The default agent once `id` is removed.
pub open spec fn default_without(d: Option<Seq<char>>, id: Seq<char>) -> Option<Seq<char>> {
    if d == Some(id) {
        None
    } else {
        d
    }
}

/// What removing an agent yields: a validation error for a bad id; else
/// whether an agent had that id and, when one had, the agents without it
/// and the routes without any reference to it.
pub open spec fn agent_removed(
    old_agents: Seq<AgentDefinition>,
    old_routes: AgentRoutes,
    raw: Seq<char>,
    out: Result<bool, MosaicError>,
    agents: Seq<AgentDefinition>,
    routes: AgentRoutes,
) -> bool {
    match agent_id_check(raw) {
        Err(m) => agents == old_agents && routes.default_agent() == old_routes.default_agent()
            && routes.route_map() == old_routes.route_map() && fails_with(out, m),
        Ok(id) => if !has_agent(old_agents, id) {
            out == Ok::<bool, MosaicError>(false) && agents == old_agents && routes.default_agent()
                == old_routes.default_agent() && routes.route_map() == old_routes.route_map()
        } else {
            out == Ok::<bool, MosaicError>(true) && agents == agents_without(old_agents, id)
                && routes.default_agent() == default_without(old_routes.default_agent(), id)
                && routes.route_map() == without_agent(old_routes.route_map(), id)
        },
    }
}

/// Removes the agent with the given id, and with it the default and the
/// routes that refer to it.  Whether an agent had that id.
pub fn remove_agent(
    agents: &mut Vec<AgentDefinition>,
    routes: &mut AgentRoutes,
    raw_id: &str,
) -> (out: Result<bool, MosaicError>)
    ensures
        agent_removed(old(agents)@, *old(routes), raw_id@, out, final(agents)@, *final(routes)),
{
    let id = match normalize_agent_id(raw_id) {
        Ok(id) => id,
        Err(e) => return Err(e),
    };
    if find_agent(agents, id.as_str()).is_none() {
        return Ok(false);
    }
    let ghost old_agents = agents@;
    let mut kept: Vec<AgentDefinition> = Vec::new();
    let mut i: usize = 0;
    while i < agents.len()
        invariant
            i <= agents.len(),
            agents@ == old_agents,
            kept@ == agents_without(old_agents.take(i as int), id@),
        decreases agents.len() - i,
    {
        proof {
            assert(old_agents.take(i + 1).drop_last() =~= old_agents.take(i as int));
        }
        if !str_eq(agents[i].id.as_str(), id.as_str()) {
            kept.push(agents[i].duplicate());
        }
        i += 1;
    }
    assert(old_agents.take(old_agents.len() as int) =~= old_agents);
    *agents = kept;
    let current = routes.default_agent_id();
    match current {
        Some(d) => {
            if str_eq(d.as_str(), id.as_str()) {
                routes.set_default_agent(None);
            }
        },
        None => {},
    }
    routes.retain_agents_other_than(id.as_str());
    Ok(true)
}

/// What making an agent the default yields.
pub open spec fn default_set(
    agents: Seq<AgentDefinition>,
    old_routes: AgentRoutes,
    raw: Seq<char>,
    out: Result<(), MosaicError>,
    routes: AgentRoutes,
) -> bool {
    match agent_id_check(raw) {
        Err(m) => routes == old_routes && fails_with(out, m),
        Ok(id) => if !has_agent(agents, id) {
            routes == old_routes && fails_with(out, agent_not_found(id))
        } else {
            out is Ok && routes.default_agent() == Some(id) && routes.route_map()
                == old_routes.route_map()
        },
    }
}

/// Makes the agent with the given id the default one.
pub fn set_default_agent(agents: &Vec<AgentDefinition>, routes: &mut AgentRoutes, raw_id: &str) -> (out:
    Result<(), MosaicError>)
    ensures
        default_set(agents@, *old(routes), raw_id@, out, *final(routes)),
{
    let id = match normalize_agent_id(raw_id) {
        Ok(id) => id,
        Err(e) => return Err(e),
    };
    if find_agent(agents, id.as_str()).is_none() {
        return Err(MosaicError::Validation(cat3("agent '", id.as_str(), "' not found")));
    }
    routes.set_default_agent(Some(id));
    Ok(())
}

/// What routing a key to an agent yields.
pub open spec fn route_set(
    agents: Seq<AgentDefinition>,
    old_routes: AgentRoutes,
    raw_key: Seq<char>,
    raw_id: Seq<char>,
    out: Result<(), MosaicError>,
    routes: AgentRoutes,
) -> bool {
    match route_key_check(raw_key) {
        Err(m) => routes == old_routes && fails_with(out, m),
        Ok(key) => match agent_id_check(raw_id) {
            Err(m) => routes == old_routes && fails_with(out, m),
            Ok(id) => if !has_agent(agents, id) {
                routes == old_routes && fails_with(out, agent_not_found(id))
            } else {
                out is Ok && routes.default_agent() == old_routes.default_agent()
                    && routes.route_map() == old_routes.route_map().insert(key, id)
            },
        },
    }
}

/// Routes the given key to the agent with the given id.
pub fn set_agent_route(
    agents: &Vec<AgentDefinition>,
    routes: &mut AgentRoutes,
    raw_key: &str,
    raw_id: &str,
) -> (out: Result<(), MosaicError>)
    ensures
        route_set(agents@, *old(routes), raw_key@, raw_id@, out, *final(routes)),
{
    let key = match normalize_route_key(raw_key) {
        Ok(k) => k,
        Err(e) => return Err(e),
    };
    let id = match normalize_agent_id(raw_id) {
        Ok(id) => id,
        Err(e) => return Err(e),
    };
    if find_agent(agents, id.as_str()).is_none() {
        return Err(MosaicError::Validation(cat3("agent '", id.as_str(), "' not found")));
    }
    routes.insert(key, id);
    Ok(())
}

/// What removing a route yields: whether the key had a route.
pub open spec fn route_removed(
    old_routes: AgentRoutes,
    raw_key: Seq<char>,
    out: Result<bool, MosaicError>,
    routes: AgentRoutes,
) -> bool {
    match route_key_check(raw_key) {
        Err(m) => routes == old_routes && fails_with(out, m),
        Ok(key) => out == Ok::<bool, MosaicError>(old_routes.route_map().dom().contains(key))
            && routes.default_agent() == old_routes.default_agent() && routes.route_map()
            == old_routes.route_map().remove(key),
    }
}

/// Removes the route of the given key.
pub fn remove_agent_route(routes: &mut AgentRoutes, raw_key: &str) -> (out: Result<bool, MosaicError>)
    ensures
        route_removed(*old(routes), raw_key@, out, *final(routes)),
{
    let key = match normalize_route_key(raw_key) {
        Ok(k) => k,
        Err(e) => return Err(e),
    };
    let removed = routes.remove(key.as_str());
    Ok(removed)
}

/// The agent that serves a request: the explicit one when given (it must
/// exist), else the agent of the route of the hint when it has one, else
/// the default agent, else none.  A route or default that names a missing
/// agent is an error.  All errors are validation errors; this is their
/// message.
pub open spec fn resolution(
    agents: Seq<AgentDefinition>,
    default_agent: Option<Seq<char>>,
    route_map: Map<Seq<char>, Seq<char>>,
    explicit: Option<Seq<char>>,
    hint: Option<Seq<char>>,
) -> Result<Option<Seq<char>>, Seq<char>> {
    match explicit {
        Some(raw) => match agent_id_check(raw) {
            Err(m) => Err(m),
            Ok(id) => if has_agent(agents, id) {
                Ok(Some(id))
            } else {
                Err(agent_not_found(id))
            },
        },
        None => {
            let routed = match hint {
                Some(raw) => match route_key_check(raw) {
                    Err(m) => Some(Err(m)),
                    Ok(key) => if route_map.dom().contains(key) {
                        let target = route_map[key];
                        match agent_id_check(target) {
                            Err(m) => Some(Err(m)),
                            Ok(n) => if has_agent(agents, n) {
                                Some(Ok(Some(target)))
                            } else {
                                Some(
                                    Err(
                                        "route '"@ + key + "' points to missing agent '"@ + target
                                            + "'"@,
                                    ),
                                )
                            },
                        }
                    } else {
                        None
                    },
                },
                None => None,
            };
            match routed {
                Some(r) => r,
                None => match default_agent {
                    Some(d) => match agent_id_check(d) {
                        Err(m) => Err(m),
                        Ok(n) => if has_agent(agents, n) {
                            Ok(Some(d))
                        } else {
                            Err("default agent '"@ + d + "' not found"@)
                        },
                    },
                    None => Ok(None),
                },
            }
        },
    }
}

/// `out` is the resolution `r`.
pub open spec fn resolved_as(
    out: Result<Option<String>, MosaicError>,
    r: Result<Option<Seq<char>>, Seq<char>>,
) -> bool {
    match r {
        Ok(Some(a)) => out matches Ok(Some(s)) && s@ == a,
        Ok(None) => out matches Ok(None),
        Err(m) => fails_with(out, m),
    }
}

fn agent_exists(agents: &Vec<AgentDefinition>, raw_id: &str) -> (out: Result<bool, MosaicError>)
    ensures
        match agent_id_check(raw_id@) {
            Err(m) => fails_with(out, m),
            Ok(id) => out == Ok::<bool, MosaicError>(has_agent(agents@, id)),
        },
{
    let id = match normalize_agent_id(raw_id) {
        Ok(id) => id,
        Err(e) => return Err(e),
    };
    Ok(find_agent(agents, id.as_str()).is_some())
}

/// Resolves the agent that serves a request.
pub fn resolve_for_runtime(
    agents: &Vec<AgentDefinition>,
    routes: &AgentRoutes,
    explicit_agent_id: Option<&str>,
    route_hint: Option<&str>,
) -> (out: Result<Option<String>, MosaicError>)
    ensures
        resolved_as(
            out,
            resolution(
                agents@,
                routes.default_agent(),
                routes.route_map(),
                opt_str(explicit_agent_id),
                opt_str(route_hint),
            ),
        ),
{
    if let Some(raw) = explicit_agent_id {
        let id = match normalize_agent_id(raw) {
            Ok(id) => id,
            Err(e) => return Err(e),
        };
        if find_agent(agents, id.as_str()).is_none() {
            return Err(MosaicError::Validation(cat3("agent '", id.as_str(), "' not found")));
        }
        return Ok(Some(id));
    }
    if let Some(raw) = route_hint {
        let key = match normalize_route_key(raw) {
            Ok(k) => k,
            Err(e) => return Err(e),
        };
        if let Some(target) = routes.get(key.as_str()) {
            match agent_exists(agents, target.as_str()) {
                Err(e) => return Err(e),
                Ok(false) => {
                    return Err(
                        MosaicError::Validation(
                            cat5(
                                "route '",
                                key.as_str(),
                                "' points to missing agent '",
                                target.as_str(),
                                "'",
                            ),
                        ),
                    );
                },
                Ok(true) => return Ok(Some(target)),
            }
        }
    }
    match routes.default_agent_id() {
        Some(d) => match agent_exists(agents, d.as_str()) {
            Err(e) => Err(e),
            Ok(false) => Err(
                MosaicError::Validation(cat3("default agent '", d.as_str(), "' not found")),
            ),
            Ok(true) => Ok(Some(d)),
        },
        None => Ok(None),
    }
}

/// What checking the agents and their routes reports.
#[derive(Debug, Clone)]
pub struct AgentIntegrityReport {
    pub agents_count: usize,
    pub routes_count: usize,
    pub default_agent_id: Option<String>,
    pub ok: bool,
    pub issues: Vec<String>,
}

/// The issues of one agent: a blank name, then a blank profile.
pub open spec fn one_agent_issues(a: AgentDefinition) -> Seq<Seq<char>> {
    let with_name = if trim(a.name@).len() == 0 {
        seq!["agent '"@ + a.id@ + "' has empty name"@]
    } else {
        Seq::<Seq<char>>::empty()
    };
    if trim(a.profile@).len() == 0 {
        with_name.push("agent '"@ + a.id@ + "' has empty profile"@)
    } else {
        with_name
    }
}

/// The issues of the agents, in order.
pub open spec fn agent_issues(s: Seq<AgentDefinition>) -> Seq<Seq<char>>
    decreases s.len(),
{
    if s.len() == 0 {
        Seq::<Seq<char>>::empty()
    } else {
        agent_issues(s.drop_last()) + one_agent_issues(s.last())
    }
}

/// The issue of a default agent that no agent has the id of.
pub open spec fn default_issue(agents: Seq<AgentDefinition>, d: Option<Seq<char>>) -> Seq<
    Seq<char>,
> {
    match d {
        Some(x) => if has_agent(agents, x) {
            Seq::<Seq<char>>::empty()
        } else {
            seq!["default_agent_id '"@ + x + "' does not exist"@]
        },
        None => Seq::<Seq<char>>::empty(),
    }
}

/// The issues of the routes that lead to no agent, in order.
pub open spec fn route_issues(agents: Seq<AgentDefinition>, es: Seq<RouteEntry>) -> Seq<Seq<char>>
    decreases es.len(),
{
    if es.len() == 0 {
        Seq::<Seq<char>>::empty()
    } else {
        let e = es.last();
        let prev = route_issues(agents, es.drop_last());
        if has_agent(agents, e.agent_id@) {
            prev
        } else {
            prev.push("route '"@ + e.key@ + "' points to missing agent '"@ + e.agent_id@ + "'"@)
        }
    }
}

/// The issues that an integrity check reports: those of the agents in id
/// order, that of the default agent, then those of the routes `es` (in key
/// order).
pub open spec fn integrity_issues(
    agents: Seq<AgentDefinition>,
    default_agent: Option<Seq<char>>,
    es: Seq<RouteEntry>,
) -> Seq<Seq<char>> {
    agent_issues(stable_sort(agents)) + default_issue(agents, default_agent) + route_issues(
        agents,
        es,
    )
}

fn push_agent_issues(issues: &mut Vec<String>, a: &AgentDefinition)
    ensures
        views(final(issues)@) == views(old(issues)@) + one_agent_issues(*a),
{
    let ghost before = views(issues@);
    if is_blank_str(a.name.as_str()) {
        issues.push(cat3("agent '", a.id.as_str(), "' has empty name"));
    }
    let ghost mid = views(issues@);
    if is_blank_str(a.profile.as_str()) {
        issues.push(cat3("agent '", a.id.as_str(), "' has empty profile"));
        assert(views(issues@) =~= mid.push(views(issues@).last()));
    }
    assert(views(issues@) =~= before + one_agent_issues(*a));
}

/// Checks the agents and their routes: every agent has a name and a
/// profile, and the default agent and every route name an existing agent.
pub fn check_integrity(agents: &Vec<AgentDefinition>, routes: &AgentRoutes) -> (report:
    AgentIntegrityReport)
    ensures
        report.agents_count == agents@.len(),
        routes.route_map().dom().finite(),
        report.routes_count == routes.route_map().dom().len(),
        opt_view(report.default_agent_id) == routes.default_agent(),
        exists|es: Seq<RouteEntry>|
            keys_ascending(es) && entries_map(es) == routes.route_map() && views(report.issues@)
                == integrity_issues(agents@, routes.default_agent(), es),
        report.ok == (report.issues@.len() == 0),
{
    let sorted = list_agents(agents);
    let mut issues: Vec<String> = Vec::new();
    let mut i: usize = 0;
    while i < sorted.len()
        invariant
            i <= sorted.len(),
            views(issues@) == agent_issues(sorted@.take(i as int)),
        decreases sorted.len() - i,
    {
        proof {
            assert(sorted@.take(i + 1).drop_last() =~= sorted@.take(i as int));
        }
        push_agent_issues(&mut issues, &sorted[i]);
        i += 1;
    }
    assert(sorted@.take(sorted.len() as int) =~= sorted@);
    let ghost after_agents = views(issues@);
    let default_agent_id = routes.default_agent_id();
    match &default_agent_id {
        Some(d) => {
            if find_agent(agents, d.as_str()).is_none() {
                issues.push(cat3("default_agent_id '", d.as_str(), "' does not exist"));
            }
        },
        None => {},
    }
    assert(views(issues@) =~= after_agents + default_issue(agents@, routes.default_agent()));
    let ghost after_default = views(issues@);
    let es = routes.entries();
    let mut k: usize = 0;
    while k < es.len()
        invariant
            k <= es.len(),
            views(issues@) == after_default + route_issues(agents@, es@.take(k as int)),
        decreases es.len() - k,
    {
        proof {
            assert(es@.take(k + 1).drop_last() =~= es@.take(k as int));
        }
        let e = &es[k];
        let ghost before = views(issues@);
        if find_agent(agents, e.agent_id.as_str()).is_none() {
            issues.push(
                cat5(
                    "route '",
                    e.key.as_str(),
                    "' points to missing agent '",
                    e.agent_id.as_str(),
                    "'",
                ),
            );
            assert(views(issues@) =~= before.push(views(issues@).last()));
        }
        k += 1;
        assert(views(issues@) =~= after_default + route_issues(agents@, es@.take(k as int)));
    }
    assert(es@.take(es.len() as int) =~= es@);
    assert(views(issues@) =~= integrity_issues(agents@, routes.default_agent(), es@));
    let routes_count = routes.len();
    let ok = issues.len() == 0;
    AgentIntegrityReport {
        agents_count: agents.len(),
        routes_count,
        default_agent_id,
        ok,
        issues,
    }
}

/// The settings of a profile that an agent can override.
#[derive(Debug)]
pub struct ProfileSettings {
    pub model: String,
    pub temperature: Temperature,
    pub max_turns: u32,
    pub tools_enabled: bool,
    pub guard_mode: RunGuardMode,
}

/// The message of the first override of `agent` that breaks its rule: a
/// blank model, a temperature outside `[0.0, 2.0]`, no turns.
pub open spec fn override_error(agent: AgentDefinition) -> Option<Seq<char>> {
    let id = agent.id@;
    if agent.model is Some && trim(agent.model->0@).len() == 0 {
        Some("agent '"@ + id + "' has empty model override"@)
    } else if agent.temperature is Some && !temperature_in_range(agent.temperature->0) {
        Some("agent '"@ + id + "' temperature must be in [0.0, 2.0]"@)
    } else if agent.max_turns == Some(0u32) {
        Some("agent '"@ + id + "' max_turns must be greater than 0"@)
    } else {
        None
    }
}

/// `p` is `base` with each override that `agent` gives in place of the base
/// setting.
pub open spec fn merged_settings(base: ProfileSettings, agent: AgentDefinition, p: ProfileSettings) -> bool {
    &&& p.model@ == (match agent.model {
        Some(m) => m@,
        None => base.model@,
    })
    &&& p.temperature == (match agent.temperature {
        Some(t) => t,
        None => base.temperature,
    })
    &&& p.max_turns == (match agent.max_turns {
        Some(n) => n,
        None => base.max_turns,
    })
    &&& p.tools_enabled == (match agent.tools_enabled {
        Some(b) => b,
        None => base.tools_enabled,
    })
    &&& p.guard_mode == (match agent.guard_mode {
        Some(g) => g,
        None => base.guard_mode,
    })
}

/// Applies an agent's overrides to the settings of its profile, then checks
/// the merged profile with `validate` (the configuration's own check of a
/// profile): the first override that breaks its rule is an error, else the
/// merged settings when `validate` accepts them, else its error.
pub fn apply_overrides<F: Fn(&ProfileSettings) -> Result<(), MosaicError>>(
    base: ProfileSettings,
    agent: &AgentDefinition,
    validate: F,
) -> (out: Result<ProfileSettings, MosaicError>)
    requires
        forall|p: &ProfileSettings| call_requires(validate, (p,)),
    ensures
        override_error(*agent) matches Some(m) ==> fails_with(out, m),
        override_error(*agent) is None ==> exists|p: ProfileSettings, r: Result<(), MosaicError>|
            merged_settings(base, *agent, p) && #[trigger] call_ensures(validate, (&p,), r)
                && match r {
                Ok(_) => out matches Ok(q) && q == p,
                Err(e) => out matches Err(oe) && oe == e,
            },
{
    let mut p = base;
    if let Some(model) = &agent.model {
        if is_blank_str(model.as_str()) {
            return Err(
                MosaicError::Validation(
                    cat3("agent '", agent.id.as_str(), "' has empty model override"),
                ),
            );
        }
        p.model = model.clone();
    }
    if let Some(t) = agent.temperature {
        if !temperature_ok(t) {
            return Err(
                MosaicError::Validation(
                    cat3("agent '", agent.id.as_str(), "' temperature must be in [0.0, 2.0]"),
                ),
            );
        }
        p.temperature = t;
    }
    if let Some(n) = agent.max_turns {
        if n == 0 {
            return Err(
                MosaicError::Validation(
                    cat3("agent '", agent.id.as_str(), "' max_turns must be greater than 0"),
                ),
            );
        }
        p.max_turns = n;
    }
    if let Some(b) = agent.tools_enabled {
        p.tools_enabled = b;
    }
    if let Some(g) = agent.guard_mode {
        p.guard_mode = g;
    }
    let r = validate(&p);
    match r {
        Ok(()) => Ok(p),
        Err(e) => Err(e),
    }
}

/// Adding or updating an agent needs the configuration file: without it the
/// user is told to run setup first.
pub fn require_config(config_exists: bool) -> (out: Result<(), MosaicError>)
    ensures
        config_exists ==> out is Ok,
        !config_exists ==> (out matches Err(e) && config_error(
            e,
            "config file not found. run `mosaic setup` first"@,
        )),
{
    if config_exists {
        Ok(())
    } else {
        Err(MosaicError::Config(owned("config file not found. run `mosaic setup` first")))
    }
}

} // verus!
