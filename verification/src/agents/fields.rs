//! An agent's fields and the rules they obey: identifiers, route keys,
//! generated identifiers and the checks on what an agent is added with.
use vstd::prelude::*;
use crate::error::MosaicError;
use crate::ids::{hex_lower, hex_lower_exec, new_uuid_bytes};
use crate::paths::{join, join_path};
use crate::text::{
    cat3, chars_of, is_ascii_alnum, lower_char, lower_char_exec, owned, string_of, trim, trim_chars,
    trim_str, u64_to_string, decimal,
};

verus! {

/// The version of the agents file that this library reads and writes.
pub const CURRENT_AGENTS_VERSION: u32 = 1;

/// A sampling temperature, held as the bits of its `f32` value
/// (`f32::to_bits`), so that it is kept exactly.
#[derive(Debug, Clone, Copy, PartialEq, Eq, Structural)]
pub struct Temperature {
    pub bits: u32,
}

/// Whether the `f32` with these bits lies in `[0.0, 2.0]`: the non-negative
/// values up to `2.0` (bits `0x4000_0000`) and negative zero, which compares
/// equal to `0.0`.  No NaN and no other negative value qualifies.
pub open spec fn temperature_in_range(t: Temperature) -> bool {
    t.bits <= 0x4000_0000 || t.bits == 0x8000_0000
}

/// Whether the temperature lies in `[0.0, 2.0]`.
pub fn temperature_ok(t: Temperature) -> (b: bool)
    ensures
        b == temperature_in_range(t),
{
    t.bits <= 0x4000_0000 || t.bits == 0x8000_0000
}

/// How tool runs are guarded.
#[derive(Debug, Clone, Copy, PartialEq, Eq, Structural)]
pub enum RunGuardMode {
    ConfirmDangerous,
    AllConfirm,
    Unrestricted,
}

/// An agent: a profile with optional overrides.
#[derive(Debug)]
pub struct AgentDefinition {
    pub id: String,
    pub name: String,
    pub profile: String,
    pub model: Option<String>,
    pub temperature: Option<Temperature>,
    pub max_turns: Option<u32>,
    pub tools_enabled: Option<bool>,
    pub guard_mode: Option<RunGuardMode>,
    pub created_at: i64,
    pub updated_at: i64,
}

impl AgentDefinition {
    /// A copy of the agent.
    pub fn duplicate(&self) -> (c: Self)
        ensures
            c == *self,
    {
        AgentDefinition {
            id: self.id.clone(),
            name: self.name.clone(),
            profile: self.profile.clone(),
            model: crate::channels::store::clone_opt_string(&self.model),
            temperature: self.temperature,
            max_turns: self.max_turns,
            tools_enabled: self.tools_enabled,
            guard_mode: self.guard_mode,
            created_at: self.created_at,
            updated_at: self.updated_at,
        }
    }
}

/// What adding an agent takes.
#[derive(Debug)]
pub struct AddAgentInput {
    pub id: Option<String>,
    pub name: String,
    pub profile: String,
    pub model: Option<String>,
    pub temperature: Option<Temperature>,
    pub max_turns: Option<u32>,
    pub tools_enabled: Option<bool>,
    pub guard_mode: Option<RunGuardMode>,
}

/// A character allowed in an agent id.
pub open spec fn is_id_char(c: char) -> bool {
    is_ascii_alnum(c) || c == '_' || c == '-'
}

/// What checking an agent id yields: the trimmed id, or the message of the
/// validation error.
pub open spec fn agent_id_check(raw: Seq<char>) -> Result<Seq<char>, Seq<char>> {
    let v = trim(raw);
    if v.len() == 0 {
        Err("agent id cannot be empty"@)
    } else if exists|i: int| 0 <= i < v.len() && !is_id_char(#[trigger] v[i]) {
        Err("agent id '"@ + v + "' contains invalid characters"@)
    } else {
        Ok(v)
    }
}

/// `out` is the outcome `r` of a check: the same text, or a validation error
/// with that message.
pub open spec fn checked_as(out: Result<String, MosaicError>, r: Result<Seq<char>, Seq<char>>) -> bool {
    match r {
        Ok(v) => out matches Ok(s) && s@ == v,
        Err(m) => out matches Err(MosaicError::Validation(e)) && e@ == m,
    }
}

fn all_id_chars(v: &Vec<char>) -> (b: bool)
    ensures
        b == forall|i: int| 0 <= i < v@.len() ==> is_id_char(#[trigger] v@[i]),
{
    let mut i: usize = 0;
    while i < v.len()
        invariant
            i <= v.len(),
            forall|j: int| 0 <= j < i ==> is_id_char(#[trigger] v@[j]),
        decreases v.len() - i,
    {
        let c = v[i];
        let ok = ('a' <= c && c <= 'z') || ('A' <= c && c <= 'Z') || ('0' <= c && c <= '9') || c
            == '_' || c == '-';
        if !ok {
            return false;
        }
        i += 1;
    }
    true
}

/// Checks an agent id: trimmed, not empty, only ASCII letters, digits, `_`
/// and `-`.
pub fn normalize_agent_id(raw: &str) -> (out: Result<String, MosaicError>)
    ensures
        checked_as(out, agent_id_check(raw@)),
{
    let v = trim_chars(&chars_of(raw));
    if v.len() == 0 {
        return Err(MosaicError::Validation(owned("agent id cannot be empty")));
    }
    let value = string_of(v.as_slice());
    if !all_id_chars(&v) {
        return Err(
            MosaicError::Validation(
                cat3("agent id '", value.as_str(), "' contains invalid characters"),
            ),
        );
    }
    Ok(value)
}

/// What checking a route key yields.
pub open spec fn route_key_check(raw: Seq<char>) -> Result<Seq<char>, Seq<char>> {
    if trim(raw).len() == 0 {
        Err("route key cannot be empty"@)
    } else {
        Ok(trim(raw))
    }
}

/// Checks a route key: trimmed and not empty.
pub fn normalize_route_key(raw: &str) -> (out: Result<String, MosaicError>)
    ensures
        checked_as(out, route_key_check(raw@)),
{
    let value = trim_str(raw);
    if value.as_str().is_empty() {
        return Err(MosaicError::Validation(owned("route key cannot be empty")));
    }
    Ok(value)
}

/// The slug of `s`: ASCII letters and digits in lower case, with one `-`
/// for each run of spaces, `-` and `_` that does not follow a `-`; other
/// characters are dropped.
pub open spec fn slug_of(s: Seq<char>) -> Seq<char>
    decreases s.len(),
{
    if s.len() == 0 {
        Seq::<char>::empty()
    } else {
        let prev = slug_of(s.drop_last());
        let c = s.last();
        if is_ascii_alnum(c) {
            prev.push(lower_char(c))
        } else if (c == ' ' || c == '-' || c == '_') && !(prev.len() > 0 && prev.last() == '-') {
            prev.push('-')
        } else {
            prev
        }
    }
}

/// The slug that a generated id starts with: that of the trimmed name, or
/// `agent` when it is empty.
pub open spec fn agent_slug(name: Seq<char>) -> Seq<char> {
    let s = slug_of(trim(name));
    if s.len() == 0 {
        "agent"@
    } else {
        s
    }
}

/// An id generated for `name` from the random bytes `bytes`: the slug, `-`
/// and the first 8 hexadecimal digits of the UUID (its simple form).
pub open spec fn generated_agent_id(name: Seq<char>, bytes: Seq<u8>) -> Seq<char> {
    agent_slug(name) + "-"@ + hex_lower(bytes).take(8)
}

/// The slug of `name`.
pub fn slug(name: &str) -> (out: Vec<char>)
    ensures
        out@ == agent_slug(name@),
{
    let v = trim_chars(&chars_of(name));
    let mut out: Vec<char> = Vec::new();
    let mut i: usize = 0;
    while i < v.len()
        invariant
            i <= v.len(),
            out@ == slug_of(v@.take(i as int)),
        decreases v.len() - i,
    {
        proof {
            assert(v@.take(i + 1).drop_last() =~= v@.take(i as int));
        }
        let c = v[i];
        if ('a' <= c && c <= 'z') || ('A' <= c && c <= 'Z') || ('0' <= c && c <= '9') {
            out.push(lower_char_exec(c));
        } else if (c == ' ' || c == '-' || c == '_') && !(out.len() > 0 && out[out.len() - 1]
            == '-') {
            out.push('-');
        }
        i += 1;
    }
    assert(v@.take(v.len() as int) =~= v@);
    if out.len() == 0 {
        proof {
            reveal_strlit("agent");
        }
        return chars_of("agent");
    }
    out
}

/// A new id for an agent named `name`: its slug, `-` and 8 random
/// hexadecimal digits.
pub fn generate_agent_id(name: &str) -> (out: String)
    ensures
        exists|bytes: Seq<u8>| bytes.len() == 16 && out@ == generated_agent_id(name@, bytes),
{
    let bytes = new_uuid_bytes();
    let hex = hex_lower_exec(&bytes);
    let mut out = slug(name);
    out.push('-');
    proof {
        reveal_strlit("-");
    }
    assert(out@ =~= agent_slug(name@) + "-"@ + hex@.take(0));
    let mut i: usize = 0;
    while i < 8
        invariant
            i <= 8,
            hex@.len() == 32,
            out@ == agent_slug(name@) + "-"@ + hex@.take(i as int),
        decreases 8 - i,
    {
        proof {
            reveal_strlit("-");
        }
        out.push(hex[i]);
        i += 1;
        assert(out@ =~= agent_slug(name@) + "-"@ + hex@.take(i as int));
    }
    proof {
        reveal_strlit("-");
    }
    string_of(out.as_slice())
}

/// What checking an agent's fields yields: nothing, or the message of the
/// first rule broken.
pub open spec fn agent_fields_check(
    id: Option<Seq<char>>,
    name: Seq<char>,
    profile: Seq<char>,
    temperature: Option<Temperature>,
    max_turns: Option<u32>,
) -> Result<(), Seq<char>> {
    if id is Some && agent_id_check(id->0) is Err {
        Err(agent_id_check(id->0)->Err_0)
    } else if trim(name).len() == 0 {
        Err("agent name cannot be empty"@)
    } else if trim(profile).len() == 0 {
        Err("agent profile cannot be empty"@)
    } else if temperature is Some && !temperature_in_range(temperature->0) {
        Err("temperature must be in [0.0, 2.0]"@)
    } else if max_turns == Some(0u32) {
        Err("max_turns must be greater than 0"@)
    } else {
        Ok(())
    }
}

/// `out` is the outcome `r`: success, or a validation error with that
/// message.
pub open spec fn unit_checked_as(out: Result<(), MosaicError>, r: Result<(), Seq<char>>) -> bool {
    match r {
        Ok(_) => out is Ok,
        Err(m) => out matches Err(MosaicError::Validation(e)) && e@ == m,
    }
}

/// The view of an optional text.
pub open spec fn opt_str(o: Option<&str>) -> Option<Seq<char>> {
    match o {
        Some(s) => Some(s@),
        None => None,
    }
}

/// Checks what an agent is added with: its id when given, a name and a
/// profile that are not blank, a temperature in `[0.0, 2.0]`, a positive
/// number of turns.
pub fn validate_agent_fields(
    id: Option<&str>,
    name: &str,
    profile: &str,
    temperature: Option<Temperature>,
    max_turns: Option<u32>,
) -> (out: Result<(), MosaicError>)
    ensures
        unit_checked_as(out, agent_fields_check(opt_str(id), name@, profile@, temperature, max_turns)),
{
    if let Some(raw) = id {
        match normalize_agent_id(raw) {
            Ok(_) => {},
            Err(e) => return Err(e),
        }
    }
    if crate::text::is_blank_str(name) {
        return Err(MosaicError::Validation(owned("agent name cannot be empty")));
    }
    if crate::text::is_blank_str(profile) {
        return Err(MosaicError::Validation(owned("agent profile cannot be empty")));
    }
    if let Some(t) = temperature {
        if !temperature_ok(t) {
            return Err(MosaicError::Validation(owned("temperature must be in [0.0, 2.0]")));
        }
    }
    if let Some(m) = max_turns {
        if m == 0 {
            return Err(MosaicError::Validation(owned("max_turns must be greater than 0")));
        }
    }
    Ok(())
}

/// Accepts only the current version of the agents file.
pub fn check_agents_version(version: u32) -> (out: Result<(), MosaicError>)
    ensures
        version == CURRENT_AGENTS_VERSION ==> out is Ok,
        version != CURRENT_AGENTS_VERSION ==> (out matches Err(MosaicError::Validation(m)) && m@
            == "unsupported agents file version "@ + decimal(version as nat) + " expected "@
            + decimal(CURRENT_AGENTS_VERSION as nat)),
{
    if version == CURRENT_AGENTS_VERSION {
        return Ok(());
    }
    let found = u64_to_string(version as u64);
    let expected = u64_to_string(CURRENT_AGENTS_VERSION as u64);
    let head = cat3("unsupported agents file version ", found.as_str(), " expected ");
    Err(MosaicError::Validation(crate::text::cat(head.as_str(), expected.as_str())))
}

/// Where the agents of a data directory are stored.
pub fn agents_file_path(data_dir: &str) -> (out: String)
    ensures
        out@ == join_path(data_dir@, "agents.json"@),
{
    join(data_dir, "agents.json")
}

/// Where the agent routes of a data directory are stored.
pub fn agent_routes_path(data_dir: &str) -> (out: String)
    ensures
        out@ == join_path(data_dir@, "agent-routes.json"@),
{
    join(data_dir, "agent-routes.json")
}

/// The files an agent store reads and writes.
#[derive(Debug)]
pub struct AgentStore {
    agents_path: String,
    routes_path: String,
}

impl AgentStore {
    /// The store's agents file.
    pub closed spec fn agents_file(&self) -> Seq<char> {
        self.agents_path@
    }

    /// The store's routes file.
    pub closed spec fn routes_file(&self) -> Seq<char> {
        self.routes_path@
    }

    /// A store over the two files.
    pub fn new(agents_path: String, routes_path: String) -> (s: Self)
        ensures
            s.agents_file() == agents_path@,
            s.routes_file() == routes_path@,
    {
        AgentStore { agents_path, routes_path }
    }

    /// The agents file.
    pub fn agents_path(&self) -> (p: &str)
        ensures
            p@ == self.agents_file(),
    {
        self.agents_path.as_str()
    }

    /// The routes file.
    pub fn routes_path(&self) -> (p: &str)
        ensures
            p@ == self.routes_file(),
    {
        self.routes_path.as_str()
    }
}

} // verus!
