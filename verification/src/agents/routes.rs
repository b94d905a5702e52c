//! The agent routes: a default agent and a map from route keys to agents,
//! kept in key order.
use vstd::prelude::*;
use crate::sorting::{lemma_text_le_total, lemma_text_lt_trans, text_le, text_le_exec, text_lt};
use crate::text::{opt_view, str_eq};

verus! {

/// A route: requests under `key` go to the agent `agent_id`.
#[derive(Debug)]
pub struct RouteEntry {
    pub key: String,
    pub agent_id: String,
}

/// The map that a sequence of routes gives, a later route for a key
/// replacing an earlier one.
pub open spec fn entries_map(s: Seq<RouteEntry>) -> Map<Seq<char>, Seq<char>>
    decreases s.len(),
{
    if s.len() == 0 {
        Map::empty()
    } else {
        entries_map(s.drop_last()).insert(s.last().key@, s.last().agent_id@)
    }
}

/// The map that a sequence of key and agent pairs gives, a later pair for a
/// key replacing an earlier one (as when a JSON object is read into a map).
pub open spec fn pairs_map(s: Seq<(String, String)>) -> Map<Seq<char>, Seq<char>>
    decreases s.len(),
{
    if s.len() == 0 {
        Map::empty()
    } else {
        pairs_map(s.drop_last()).insert(s.last().0@, s.last().1@)
    }
}

/// The keys of the routes strictly increase.
pub open spec fn keys_ascending(s: Seq<RouteEntry>) -> bool {
    forall|i: int, j: int|
        #![trigger s[i], s[j]]
        0 <= i < j < s.len() ==> text_lt(s[i].key@, s[j].key@)
}

/// The routes of `m` that do not lead to `agent_id`.
pub open spec fn without_agent(m: Map<Seq<char>, Seq<char>>, agent_id: Seq<char>) -> Map<
    Seq<char>,
    Seq<char>,
> {
    m.restrict(m.dom().filter(|k: Seq<char>| m[k] != agent_id))
}

pub proof fn lemma_entries_map_push(s: Seq<RouteEntry>, x: RouteEntry)
    ensures
        entries_map(s.push(x)) == entries_map(s).insert(x.key@, x.agent_id@),
{
    assert(s.push(x).drop_last() =~= s);
}

proof fn lemma_entries_map_take_next(s: Seq<RouteEntry>, i: int)
    requires
        0 <= i < s.len(),
    ensures
        entries_map(s.take(i + 1)) == entries_map(s.take(i)).insert(s[i].key@, s[i].agent_id@),
{
    assert(s.take(i + 1).drop_last() =~= s.take(i));
}

/// A key is in the map exactly when some route has it; the map is finite.
pub proof fn lemma_entries_map_dom(s: Seq<RouteEntry>, k: Seq<char>)
    ensures
        entries_map(s).dom().finite(),
        entries_map(s).dom().contains(k) <==> exists|i: int|
            0 <= i < s.len() && (#[trigger] s[i]).key@ == k,
    decreases s.len(),
{
    if s.len() > 0 {
        lemma_entries_map_dom(s.drop_last(), k);
        if entries_map(s.drop_last()).dom().contains(k) {
            let i = choose|i: int| 0 <= i < s.drop_last().len() && (#[trigger] s.drop_last()[i]).key@ == k;
            assert(s[i] == s.drop_last()[i]);
        }
        if exists|i: int| 0 <= i < s.len() && (#[trigger] s[i]).key@ == k {
            let i = choose|i: int| 0 <= i < s.len() && (#[trigger] s[i]).key@ == k;
            if i < s.len() - 1 {
                assert(s.drop_last()[i] == s[i]);
            }
        }
    }
}

/// In routes with ascending keys, the map gives each route's agent.
pub proof fn lemma_entries_map_at(s: Seq<RouteEntry>, i: int)
    requires
        keys_ascending(s),
        0 <= i < s.len(),
    ensures
        entries_map(s).dom().contains(s[i].key@),
        entries_map(s)[s[i].key@] == s[i].agent_id@,
    decreases s.len(),
{
    if i < s.len() - 1 {
        let t = s.drop_last();
        assert(t[i] == s[i]);
        assert(keys_ascending(t)) by {
            assert forall|a: int, b: int| #![trigger t[a], t[b]] 0 <= a < b < t.len() implies text_lt(
                t[a].key@,
                t[b].key@,
            ) by {
                assert(t[a] == s[a] && t[b] == s[b]);
            }
        }
        lemma_entries_map_at(t, i);
        assert(text_lt(s[i].key@, s[s.len() - 1].key@));
    }
}

/// Routes with ascending keys have as many routes as their map has keys.
pub proof fn lemma_entries_map_len(s: Seq<RouteEntry>)
    requires
        keys_ascending(s),
    ensures
        entries_map(s).dom().finite(),
        entries_map(s).dom().len() == s.len(),
    decreases s.len(),
{
    lemma_entries_map_dom(s, Seq::<char>::empty());
    if s.len() > 0 {
        let t = s.drop_last();
        assert(keys_ascending(t)) by {
            assert forall|a: int, b: int| #![trigger t[a], t[b]] 0 <= a < b < t.len() implies text_lt(
                t[a].key@,
                t[b].key@,
            ) by {
                assert(t[a] == s[a] && t[b] == s[b]);
            }
        }
        lemma_entries_map_len(t);
        lemma_entries_map_dom(t, s.last().key@);
        if entries_map(t).dom().contains(s.last().key@) {
            let i = choose|i: int| 0 <= i < t.len() && (#[trigger] t[i]).key@ == s.last().key@;
            assert(t[i] == s[i]);
            assert(text_lt(s[i].key@, s[s.len() - 1].key@));
        }
    }
}

proof fn lemma_key_fresh(s: Seq<RouteEntry>, i: int)
    requires
        keys_ascending(s),
        0 <= i < s.len(),
    ensures
        !entries_map(s.take(i)).dom().contains(s[i].key@),
{
    lemma_entries_map_dom(s.take(i), s[i].key@);
    if entries_map(s.take(i)).dom().contains(s[i].key@) {
        let j = choose|j: int| 0 <= j < s.take(i).len() && (#[trigger] s.take(i)[j]).key@ == s[i].key@;
        assert(s.take(i)[j] == s[j]);
        assert(text_lt(s[j].key@, s[i].key@));
    }
}

proof fn lemma_ascending_push(s: Seq<RouteEntry>, x: RouteEntry)
    requires
        keys_ascending(s),
        s.len() > 0 ==> text_lt(s.last().key@, x.key@),
    ensures
        keys_ascending(s.push(x)),
{
    let t = s.push(x);
    assert forall|a: int, b: int| #![trigger t[a], t[b]] 0 <= a < b < t.len() implies text_lt(
        t[a].key@,
        t[b].key@,
    ) by {
        if b == s.len() {
            if a < s.len() - 1 {
                assert(text_lt(s[a].key@, s[s.len() - 1].key@));
                lemma_text_lt_trans(s[a].key@, s.last().key@, x.key@);
            }
        } else {
            assert(t[a] == s[a] && t[b] == s[b]);
        }
    }
}

/// The keys of the routes in `s` that lead to `agent_id`, in order.
pub open spec fn keys_to(s: Seq<RouteEntry>, agent_id: Seq<char>) -> Seq<Seq<char>>
    decreases s.len(),
{
    if s.len() == 0 {
        Seq::<Seq<char>>::empty()
    } else if s.last().agent_id@ == agent_id {
        keys_to(s.drop_last(), agent_id).push(s.last().key@)
    } else {
        keys_to(s.drop_last(), agent_id)
    }
}

proof fn lemma_keys_to(s: Seq<RouteEntry>, a: Seq<char>)
    requires
        keys_ascending(s),
    ensures
        forall|k: Seq<char>|
            keys_to(s, a).contains(k) <==> exists|i: int|
                0 <= i < s.len() && (#[trigger] s[i]).key@ == k && s[i].agent_id@ == a,
        forall|x: int, y: int|
            #![trigger keys_to(s, a)[x], keys_to(s, a)[y]]
            0 <= x < y < keys_to(s, a).len() ==> text_lt(keys_to(s, a)[x], keys_to(s, a)[y]),
        forall|x: int|
            0 <= x < keys_to(s, a).len() ==> exists|i: int|
                0 <= i < s.len() && (#[trigger] s[i]).key@ == #[trigger] keys_to(s, a)[x],
    decreases s.len(),
{
    if s.len() > 0 {
        let t = s.drop_last();
        assert(keys_ascending(t)) by {
            assert forall|p: int, q: int| #![trigger t[p], t[q]] 0 <= p < q < t.len() implies text_lt(
                t[p].key@,
                t[q].key@,
            ) by {
                assert(t[p] == s[p] && t[q] == s[q]);
            }
        }
        lemma_keys_to(t, a);
        let kt = keys_to(t, a);
        assert forall|x: int| 0 <= x < kt.len() implies exists|i: int|
            0 <= i < s.len() && (#[trigger] s[i]).key@ == #[trigger] kt[x] by {
            let i = choose|i: int| 0 <= i < t.len() && (#[trigger] t[i]).key@ == kt[x];
            assert(s[i] == t[i]);
        }
        assert forall|k: Seq<char>| kt.contains(k) <==> exists|i: int|
            0 <= i < t.len() && (#[trigger] s[i]).key@ == k && s[i].agent_id@ == a by {
            if kt.contains(k) {
                let i = choose|i: int| 0 <= i < t.len() && (#[trigger] t[i]).key@ == k && t[i].agent_id@ == a;
                assert(s[i] == t[i]);
            }
            if exists|i: int| 0 <= i < t.len() && (#[trigger] s[i]).key@ == k && s[i].agent_id@ == a {
                let i = choose|i: int| 0 <= i < t.len() && (#[trigger] s[i]).key@ == k && s[i].agent_id@ == a;
                assert(s[i] == t[i]);
            }
        }
        if s.last().agent_id@ == a {
            let r = kt.push(s.last().key@);
            assert(keys_to(s, a) == r);
            assert forall|x: int, y: int| #![trigger r[x], r[y]] 0 <= x < y < r.len() implies text_lt(
                r[x],
                r[y],
            ) by {
                if y == kt.len() {
                    let j = choose|j: int| 0 <= j < t.len() && (#[trigger] t[j]).key@ == kt[x];
                    assert(s[j] == t[j]);
                    assert(text_lt(s[j].key@, s[s.len() - 1].key@));
                } else {
                    assert(r[x] == kt[x] && r[y] == kt[y]);
                }
            }
            assert forall|x: int| 0 <= x < r.len() implies exists|i: int|
                0 <= i < s.len() && (#[trigger] s[i]).key@ == #[trigger] r[x] by {
                if x < kt.len() {
                    assert(r[x] == kt[x]);
                } else {
                    assert(s[s.len() - 1].key@ == r[x]);
                }
            }
            assert forall|k: Seq<char>| r.contains(k) <==> exists|i: int|
                0 <= i < s.len() && (#[trigger] s[i]).key@ == k && s[i].agent_id@ == a by {
                if r.contains(k) {
                    let x = choose|x: int| 0 <= x < r.len() && r[x] == k;
                    if x < kt.len() {
                        assert(kt[x] == k);
                        assert(kt.contains(k));
                    } else {
                        assert(s[s.len() - 1].key@ == k);
                    }
                }
                if exists|i: int| 0 <= i < s.len() && (#[trigger] s[i]).key@ == k && s[i].agent_id@ == a {
                    let i = choose|i: int| 0 <= i < s.len() && (#[trigger] s[i]).key@ == k && s[i].agent_id@ == a;
                    if i < s.len() - 1 {
                        assert(kt.contains(k));
                        let x = choose|x: int| 0 <= x < kt.len() && kt[x] == k;
                        assert(r[x] == k);
                    } else {
                        assert(r[kt.len() as int] == k);
                    }
                }
            }
        } else {
            assert(keys_to(s, a) == kt);
            assert forall|k: Seq<char>| kt.contains(k) <==> exists|i: int|
                0 <= i < s.len() && (#[trigger] s[i]).key@ == k && s[i].agent_id@ == a by {
                if exists|i: int| 0 <= i < s.len() && (#[trigger] s[i]).key@ == k && s[i].agent_id@ == a {
                    let i = choose|i: int| 0 <= i < s.len() && (#[trigger] s[i]).key@ == k && s[i].agent_id@ == a;
                    assert(i < s.len() - 1);
                }
            }
        }
    }
}

fn copy_entry(e: &RouteEntry) -> (c: RouteEntry)
    ensures
        c == *e,
{
    RouteEntry { key: e.key.clone(), agent_id: e.agent_id.clone() }
}

/// The routes of the agents: the default agent and, for each route key, the
/// agent it leads to, held in increasing key order (the order in which they
/// are listed and stored).
#[derive(Debug)]
pub struct AgentRoutes {
    default_agent_id: Option<String>,
    routes: Vec<RouteEntry>,
}

impl AgentRoutes {
    #[verifier::type_invariant]
    spec fn keys_in_order(&self) -> bool {
        keys_ascending(self.routes@)
    }

    /// The default agent.
    pub closed spec fn default_agent(&self) -> Option<Seq<char>> {
        opt_view(self.default_agent_id)
    }

    /// The agent of each route key.
    pub closed spec fn route_map(&self) -> Map<Seq<char>, Seq<char>> {
        entries_map(self.routes@)
    }

    /// No default agent and no route.
    pub fn new() -> (r: Self)
        ensures
            r.default_agent() is None,
            r.route_map() == Map::<Seq<char>, Seq<char>>::empty(),
    {
        AgentRoutes { default_agent_id: None, routes: Vec::new() }
    }

    /// The routes with the given default agent and the routes of `pairs`, a
    /// later pair for a key replacing an earlier one.
    pub fn from_parts(default_agent_id: Option<String>, pairs: Vec<(String, String)>) -> (r: Self)
        ensures
            r.default_agent() == opt_view(default_agent_id),
            r.route_map() == pairs_map(pairs@),
    {
        let mut r = AgentRoutes { default_agent_id, routes: Vec::new() };
        let mut i: usize = 0;
        while i < pairs.len()
            invariant
                i <= pairs.len(),
                r.default_agent() == opt_view(default_agent_id),
                r.route_map() == pairs_map(pairs@.take(i as int)),
            decreases pairs.len() - i,
        {
            proof {
                assert(pairs@.take(i + 1).drop_last() =~= pairs@.take(i as int));
            }
            let (k, a) = &pairs[i];
            r.insert(k.clone(), a.clone());
            i += 1;
        }
        assert(pairs@.take(pairs.len() as int) =~= pairs@);
        r
    }

    /// The default agent.
    pub fn default_agent_id(&self) -> (out: Option<String>)
        ensures
            opt_view(out) == self.default_agent(),
    {
        crate::channels::store::clone_opt_string(&self.default_agent_id)
    }

    /// Makes `agent_id` the default agent, or clears the default.
    pub fn set_default_agent(&mut self, agent_id: Option<String>)
        ensures
            final(self).default_agent() == opt_view(agent_id),
            final(self).route_map() == old(self).route_map(),
    {
        proof {
            use_type_invariant(&*self);
        }
        self.default_agent_id = agent_id;
    }

    /// The number of routes.
    pub fn len(&self) -> (n: usize)
        ensures
            self.route_map().dom().finite(),
            n == self.route_map().dom().len(),
    {
        proof {
            use_type_invariant(self);
            lemma_entries_map_len(self.routes@);
        }
        self.routes.len()
    }

    /// The agent that `key` leads to.
    pub fn get(&self, key: &str) -> (out: Option<String>)
        ensures
            match out {
                Some(a) => self.route_map().dom().contains(key@) && self.route_map()[key@] == a@,
                None => !self.route_map().dom().contains(key@),
            },
    {
        proof {
            use_type_invariant(self);
        }
        let mut i: usize = 0;
        while i < self.routes.len()
            invariant
                i <= self.routes.len(),
                keys_ascending(self.routes@),
                forall|j: int| 0 <= j < i ==> (#[trigger] self.routes@[j]).key@ != key@,
            decreases self.routes.len() - i,
        {
            if str_eq(self.routes[i].key.as_str(), key) {
                proof {
                    lemma_entries_map_at(self.routes@, i as int);
                }
                return Some(self.routes[i].agent_id.clone());
            }
            i += 1;
        }
        proof {
            lemma_entries_map_dom(self.routes@, key@);
        }
        None
    }

    /// Routes `key` to `agent_id`, replacing its earlier agent.
    pub fn insert(&mut self, key: String, agent_id: String)
        ensures
            final(self).route_map() == old(self).route_map().insert(key@, agent_id@),
            final(self).default_agent() == old(self).default_agent(),
    {
        proof {
            use_type_invariant(&*self);
        }
        let ghost s = self.routes@;
        let ghost kv = key@;
        let ghost av = agent_id@;
        let n = self.routes.len();
        let mut out: Vec<RouteEntry> = Vec::new();
        let mut inserted = false;
        let mut i: usize = 0;
        while i < n
            invariant
                n == s.len(),
                s == self.routes@,
                keys_ascending(s),
                i <= n,
                kv == key@,
                av == agent_id@,
                keys_ascending(out@),
                out@.len() > 0 ==> forall|j: int|
                    i <= j < n ==> text_lt(out@.last().key@, (#[trigger] s[j]).key@),
                inserted ==> forall|j: int| i <= j < n ==> text_lt(kv, (#[trigger] s[j]).key@),
                !inserted ==> (out@.len() > 0 ==> text_lt(out@.last().key@, kv)),
                entries_map(out@) == if inserted {
                    entries_map(s.take(i as int)).insert(kv, av)
                } else {
                    entries_map(s.take(i as int))
                },
            decreases n - i,
        {
            proof {
                lemma_entries_map_take_next(s, i as int);
            }
            let e = &self.routes[i];
            proof {
                lemma_text_le_total(kv, kv);
            }
            let mut put_here = false;
            if !inserted && text_le_exec(key.as_str(), e.key.as_str()) {
                let ghost before = out@;
                let x = RouteEntry { key: key.clone(), agent_id: agent_id.clone() };
                proof {
                    lemma_ascending_push(out@, x);
                    lemma_entries_map_push(out@, x);
                }
                out.push(x);
                inserted = true;
                put_here = true;
            }
            if !str_eq(e.key.as_str(), key.as_str()) {
                let x = copy_entry(e);
                proof {
                    if !put_here && !inserted {
                        lemma_text_le_total(kv, x.key@);
                    }
                    if out@.len() > 0 {
                        assert(text_lt(out@.last().key@, s[i as int].key@));
                    }
                    lemma_ascending_push(out@, x);
                    lemma_entries_map_push(out@, x);
                }
                out.push(x);
                proof {
                    if inserted {
                        assert(entries_map(out@) =~= entries_map(s.take(i + 1)).insert(kv, av));
                    }
                    assert(out@.last().key@ == s[i as int].key@);
                }
            } else {
                proof {
                    assert(put_here);
                    assert(entries_map(out@) =~= entries_map(s.take(i + 1)).insert(kv, av));
                    assert(out@.last().key@ == s[i as int].key@);
                }
            }
            proof {
                assert forall|j: int| i + 1 <= j < n implies text_lt(
                    out@.last().key@,
                    (#[trigger] s[j]).key@,
                ) by {
                    assert(text_lt(s[i as int].key@, s[j].key@));
                    if out@.last().key@ != s[i as int].key@ {
                        lemma_text_lt_trans(out@.last().key@, s[i as int].key@, s[j].key@);
                    }
                }
                if inserted {
                    assert forall|j: int| i + 1 <= j < n implies text_lt(kv, (#[trigger] s[j]).key@) by {
                        assert(text_lt(s[i as int].key@, s[j].key@));
                        if kv != s[i as int].key@ {
                            lemma_text_lt_trans(kv, s[i as int].key@, s[j].key@);
                        }
                    }
                }
            }
            i += 1;
        }
        if !inserted {
            let x = RouteEntry { key: key.clone(), agent_id: agent_id.clone() };
            proof {
                lemma_ascending_push(out@, x);
                lemma_entries_map_push(out@, x);
            }
            out.push(x);
        }
        assert(s.take(n as int) =~= s);
        self.routes = out;
    }

    /// Removes the route of `key`; whether there was one.
    pub fn remove(&mut self, key: &str) -> (removed: bool)
        ensures
            removed == old(self).route_map().dom().contains(key@),
            final(self).route_map() == old(self).route_map().remove(key@),
            final(self).default_agent() == old(self).default_agent(),
    {
        proof {
            use_type_invariant(&*self);
        }
        let ghost s = self.routes@;
        let n = self.routes.len();
        let mut out: Vec<RouteEntry> = Vec::new();
        let mut found = false;
        let mut i: usize = 0;
        while i < n
            invariant
                n == s.len(),
                s == self.routes@,
                keys_ascending(s),
                i <= n,
                keys_ascending(out@),
                out@.len() > 0 ==> forall|j: int|
                    i <= j < n ==> text_lt(out@.last().key@, (#[trigger] s[j]).key@),
                entries_map(out@) == entries_map(s.take(i as int)).remove(key@),
                found == exists|j: int| 0 <= j < i && (#[trigger] s[j]).key@ == key@,
            decreases n - i,
        {
            proof {
                lemma_entries_map_take_next(s, i as int);
            }
            let e = &self.routes[i];
            if str_eq(e.key.as_str(), key) {
                found = true;
                assert(entries_map(out@) =~= entries_map(s.take(i + 1)).remove(key@));
            } else {
                let x = copy_entry(e);
                proof {
                    lemma_ascending_push(out@, x);
                    lemma_entries_map_push(out@, x);
                }
                out.push(x);
                assert(entries_map(out@) =~= entries_map(s.take(i + 1)).remove(key@));
            }
            proof {
                if out@.len() > 0 {
                    assert forall|j: int| i + 1 <= j < n implies text_lt(
                        out@.last().key@,
                        (#[trigger] s[j]).key@,
                    ) by {
                        assert(text_lt(s[i as int].key@, s[j].key@));
                        if out@.last().key@ != s[i as int].key@ {
                            lemma_text_lt_trans(out@.last().key@, s[i as int].key@, s[j].key@);
                        }
                    }
                }
            }
            i += 1;
        }
        assert(s.take(n as int) =~= s);
        proof {
            lemma_entries_map_dom(s, key@);
        }
        self.routes = out;
        found
    }

    /// Drops every route that leads to `agent_id`.
    pub fn retain_agents_other_than(&mut self, agent_id: &str)
        ensures
            final(self).route_map() == without_agent(old(self).route_map(), agent_id@),
            final(self).default_agent() == old(self).default_agent(),
    {
        proof {
            use_type_invariant(&*self);
        }
        let ghost s = self.routes@;
        let n = self.routes.len();
        let mut out: Vec<RouteEntry> = Vec::new();
        let mut i: usize = 0;
        assert(entries_map(s.take(0)) =~= Map::<Seq<char>, Seq<char>>::empty());
        assert(without_agent(entries_map(s.take(0)), agent_id@) =~= Map::<
            Seq<char>,
            Seq<char>,
        >::empty());
        while i < n
            invariant
                n == s.len(),
                s == self.routes@,
                keys_ascending(s),
                i <= n,
                keys_ascending(out@),
                out@.len() > 0 ==> forall|j: int|
                    i <= j < n ==> text_lt(out@.last().key@, (#[trigger] s[j]).key@),
                entries_map(out@) == without_agent(entries_map(s.take(i as int)), agent_id@),
            decreases n - i,
        {
            proof {
                lemma_entries_map_take_next(s, i as int);
                lemma_key_fresh(s, i as int);
            }
            let e = &self.routes[i];
            if str_eq(e.agent_id.as_str(), agent_id) {
                assert(entries_map(out@) =~= without_agent(
                    entries_map(s.take(i + 1)),
                    agent_id@,
                ));
            } else {
                let x = copy_entry(e);
                proof {
                    lemma_ascending_push(out@, x);
                    lemma_entries_map_push(out@, x);
                }
                out.push(x);
                assert(entries_map(out@) =~= without_agent(
                    entries_map(s.take(i + 1)),
                    agent_id@,
                ));
            }
            proof {
                if out@.len() > 0 {
                    assert forall|j: int| i + 1 <= j < n implies text_lt(
                        out@.last().key@,
                        (#[trigger] s[j]).key@,
                    ) by {
                        assert(text_lt(s[i as int].key@, s[j].key@));
                        if out@.last().key@ != s[i as int].key@ {
                            lemma_text_lt_trans(out@.last().key@, s[i as int].key@, s[j].key@);
                        }
                    }
                }
            }
            i += 1;
        }
        assert(s.take(n as int) =~= s);
        self.routes = out;
    }

    /// The route keys that lead to `agent_id`, in increasing order.
    pub fn keys_for_agent(&self, agent_id: &str) -> (out: Vec<String>)
        ensures
            forall|k: Seq<char>|
                crate::sorting::views(out@).contains(k) <==> (self.route_map().dom().contains(k)
                    && self.route_map()[k] == agent_id@),
            forall|x: int, y: int|
                #![trigger out@[x], out@[y]]
                0 <= x < y < out@.len() ==> text_lt(out@[x]@, out@[y]@),
    {
        proof {
            use_type_invariant(self);
        }
        let ghost s = self.routes@;
        let mut out: Vec<String> = Vec::new();
        let mut i: usize = 0;
        while i < self.routes.len()
            invariant
                i <= self.routes.len(),
                s == self.routes@,
                crate::sorting::views(out@) == keys_to(s.take(i as int), agent_id@),
            decreases self.routes.len() - i,
        {
            let ghost before = out@;
            assert(s.take(i + 1).drop_last() =~= s.take(i as int));
            if str_eq(self.routes[i].agent_id.as_str(), agent_id) {
                out.push(self.routes[i].key.clone());
                assert(crate::sorting::views(out@) =~= crate::sorting::views(before).push(s[i as int].key@));
            }
            i += 1;
        }
        assert(s.take(s.len() as int) =~= s);
        proof {
            lemma_keys_to(s, agent_id@);
            let kt = keys_to(s, agent_id@);
            assert forall|k: Seq<char>| kt.contains(k) <==> (entries_map(s).dom().contains(k)
                && entries_map(s)[k] == agent_id@) by {
                lemma_entries_map_dom(s, k);
                if kt.contains(k) {
                    let i = choose|i: int| 0 <= i < s.len() && (#[trigger] s[i]).key@ == k && s[i].agent_id@ == agent_id@;
                    lemma_entries_map_at(s, i);
                }
                if entries_map(s).dom().contains(k) && entries_map(s)[k] == agent_id@ {
                    let i = choose|i: int| 0 <= i < s.len() && (#[trigger] s[i]).key@ == k;
                    lemma_entries_map_at(s, i);
                }
            }
            assert forall|x: int, y: int| #![trigger out@[x], out@[y]] 0 <= x < y < out@.len() implies text_lt(
                out@[x]@,
                out@[y]@,
            ) by {
                assert(crate::sorting::views(out@)[x] == out@[x]@);
                assert(crate::sorting::views(out@)[y] == out@[y]@);
                assert(text_lt(kt[x], kt[y]));
            }
        }
        out
    }

    /// The routes, in increasing key order.
    pub fn entries(&self) -> (out: Vec<RouteEntry>)
        ensures
            keys_ascending(out@),
            entries_map(out@) == self.route_map(),
            out@.len() == self.route_map().dom().len(),
    {
        proof {
            use_type_invariant(self);
            lemma_entries_map_len(self.routes@);
        }
        let mut out: Vec<RouteEntry> = Vec::new();
        let mut i: usize = 0;
        while i < self.routes.len()
            invariant
                i <= self.routes.len(),
                out@ == self.routes@.take(i as int),
            decreases self.routes.len() - i,
        {
            out.push(copy_entry(&self.routes[i]));
            i += 1;
            assert(out@ =~= self.routes@.take(i as int));
        }
        assert(self.routes@.take(self.routes.len() as int) =~= self.routes@);
        out
    }
}

} // verus!
