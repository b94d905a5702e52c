//! The agent loop's decisions: the system prompt, the messages sent to the
//! provider, how a reply names a tool call, and when the loop stops.
use vstd::prelude::*;
use crate::error::{MosaicError, fails_with, tool_error};
use crate::text::{cat, cat3, chars_of, decimal, ends_with, is_blank_str, occurs_at_exec, owned, starts_with, starts_with_chars, string_of, trim, trim_chars, trim_str, u64_to_string};

verus! {

/// The instructions the agent starts every conversation with.
pub const SYSTEM_PROMPT: &'static str = "
You are Mosaic CLI agent.
When you need a local tool, respond with EXACT JSON only:
{\"tool_call\":{\"name\":\"read_file\",\"args\":{\"path\":\"README.md\"}}}
Tool argument schemas:
- read_file: {\"path\":\"relative/or/absolute/path\"}
- write_file: {\"path\":\"relative/or/absolute/path\",\"content\":\"full file contents\"}
- search_text: {\"query\":\"text or regex\",\"path\":\"optional/path\",\"max_results\":50}
- run_cmd: {\"command\":\"shell command to execute\"}
Prefer read_file and search_text for repository inspection. Use run_cmd only when file tools are insufficient.
If no tool is needed, answer directly with plain text.
";

/// The agent's built-in system prompt.
pub fn default_system_prompt() -> (s: &'static str)
    ensures
        s@ == SYSTEM_PROMPT@,
{
    SYSTEM_PROMPT
}

/// The system prompt an agent runs with: the one given, unless it is blank.
pub fn choose_system_prompt(system_prompt: String) -> (out: String)
    ensures
        trim(system_prompt@).len() == 0 ==> out@ == SYSTEM_PROMPT@,
        trim(system_prompt@).len() > 0 ==> out@ == system_prompt@,
{
    if is_blank_str(system_prompt.as_str()) {
        owned(SYSTEM_PROMPT)
    } else {
        system_prompt
    }
}

/// A prompt must hold more than white space.
pub fn validate_prompt(prompt: &str) -> (out: Result<(), MosaicError>)
    ensures
        trim(prompt@).len() > 0 ==> out is Ok,
        trim(prompt@).len() == 0 ==> fails_with(out, "prompt cannot be empty"@),
{
    if is_blank_str(prompt) {
        Err(MosaicError::Validation(owned("prompt cannot be empty")))
    } else {
        Ok(())
    }
}

/// A session named by the caller must exist.
pub fn check_session_exists(session_id: &str, exists: bool) -> (out: Result<(), MosaicError>)
    ensures
        exists ==> out is Ok,
        !exists ==> (out matches Err(MosaicError::Config(m)) && m@ == "session '"@ + session_id@
            + "' was not found"@),
{
    if exists {
        Ok(())
    } else {
        Err(MosaicError::Config(cat3("session '", session_id, "' was not found")))
    }
}

/// Starts the next turn of the loop: its number, or an error once the
/// agent has used all its turns.
pub fn begin_turn(turns: u32, max_turns: u32) -> (out: Result<u32, MosaicError>)
    requires
        turns < u32::MAX,
    ensures
        turns + 1 <= max_turns ==> out == Ok::<u32, MosaicError>((turns + 1) as u32),
        turns + 1 > max_turns ==> fails_with(
            out,
            "agent exceeded max_turns="@ + decimal(max_turns as nat),
        ),
{
    let next = turns + 1;
    if next > max_turns {
        Err(MosaicError::Validation(cat("agent exceeded max_turns=", u64_to_string(max_turns as u64).as_str())))
    } else {
        Ok(next)
    }
}

/// Tool calls need tools to be enabled in the profile.
pub fn check_tools_enabled(enabled: bool) -> (out: Result<(), MosaicError>)
    ensures
        enabled ==> out is Ok,
        !enabled ==> (out matches Err(e) && tool_error(e, "tools are disabled in the current profile"@)),
{
    if enabled {
        Ok(())
    } else {
        Err(MosaicError::Tool(owned("tools are disabled in the current profile")))
    }
}

/// `s` without every leading copy of `p`.
pub open spec fn strip_prefix_all(s: Seq<char>, p: Seq<char>) -> Seq<char>
    decreases s.len(),
{
    if p.len() > 0 && starts_with(s, p) {
        strip_prefix_all(s.skip(p.len() as int), p)
    } else {
        s
    }
}

/// `s` without every trailing copy of `p`.
pub open spec fn strip_suffix_all(s: Seq<char>, p: Seq<char>) -> Seq<char>
    decreases s.len(),
{
    if p.len() > 0 && ends_with(s, p) {
        strip_suffix_all(s.take(s.len() - p.len()), p)
    } else {
        s
    }
}

/// The inside of a Markdown code fence: the text between an opening
/// `` ```json `` (or `` ``` ``) with its line breaks and the closing fence,
/// trimmed; text that is not fenced stays as it is.
pub open spec fn fence_stripped(input: Seq<char>) -> Seq<char> {
    if starts_with(input, "```json"@) && ends_with(input, "```"@) {
        trim(strip_suffix_all(strip_prefix_all(strip_prefix_all(input, "```json"@), "\n"@), "```"@))
    } else if starts_with(input, "```"@) && ends_with(input, "```"@) {
        trim(strip_suffix_all(strip_prefix_all(strip_prefix_all(input, "```"@), "\n"@), "```"@))
    } else {
        input
    }
}

fn ends_with_chars(v: &Vec<char>, p: &Vec<char>) -> (b: bool)
    ensures
        b == ends_with(v@, p@),
{
    if p.len() > v.len() {
        return false;
    }
    let b = occurs_at_exec(v, p, v.len() - p.len());
    assert(v@.subrange(v.len() - p.len(), v.len() as int) =~= v@.skip(v.len() - p.len()));
    b
}

fn strip_prefix_all_chars(v: Vec<char>, p: &Vec<char>) -> (out: Vec<char>)
    ensures
        out@ == strip_prefix_all(v@, p@),
{
    let mut cur = v;
    while p.len() > 0 && starts_with_chars(&cur, p)
        invariant
            strip_prefix_all(v@, p@) == strip_prefix_all(cur@, p@),
        decreases cur@.len(),
    {
        let mut rest: Vec<char> = Vec::new();
        crate::ids::push_range(&mut rest, &cur, p.len(), cur.len());
        assert(rest@ =~= cur@.skip(p.len() as int));
        cur = rest;
    }
    cur
}

fn strip_suffix_all_chars(v: Vec<char>, p: &Vec<char>) -> (out: Vec<char>)
    ensures
        out@ == strip_suffix_all(v@, p@),
{
    let mut cur = v;
    while p.len() > 0 && ends_with_chars(&cur, p)
        invariant
            strip_suffix_all(v@, p@) == strip_suffix_all(cur@, p@),
        decreases cur@.len(),
    {
        let mut rest: Vec<char> = Vec::new();
        crate::ids::push_range(&mut rest, &cur, 0, cur.len() - p.len());
        assert(rest@ =~= cur@.take(cur.len() - p.len()));
        cur = rest;
    }
    cur
}

fn unfence(v: Vec<char>, opening: &str) -> (out: String)
    ensures
        out@ == trim(strip_suffix_all(strip_prefix_all(strip_prefix_all(v@, opening@), "\n"@), "```"@)),
{
    let a = strip_prefix_all_chars(v, &chars_of(opening));
    let b = strip_prefix_all_chars(a, &chars_of("\n"));
    let c = strip_suffix_all_chars(b, &chars_of("```"));
    let d = trim_chars(&c);
    string_of(d.as_slice())
}

/// Takes the JSON out of a reply wrapped in a Markdown code fence.
pub fn strip_markdown_json_fence(input: &str) -> (out: String)
    ensures
        out@ == fence_stripped(input@),
{
    let v = chars_of(input);
    let fence = chars_of("```");
    let closed = ends_with_chars(&v, &fence);
    if starts_with_chars(&v, &chars_of("```json")) && closed {
        return unfence(v, "```json");
    }
    if starts_with_chars(&v, &fence) && closed {
        return unfence(v, "```");
    }
    owned(input)
}

/// The text of a reply that may name a tool call: the reply trimmed and out
/// of its code fence.
pub fn tool_call_text(content: &str) -> (out: String)
    ensures
        out@ == fence_stripped(trim(content@)),
{
    let t = trim_str(content);
    strip_markdown_json_fence(t.as_str())
}

/// What `serde_json::from_str` makes of `text` read as the reply that asks
/// for a tool, `{"tool_call": {"name": <string>, "args": <any JSON>}}`: the
/// tool's name and its arguments written back as compact JSON text, or
/// `None` when the text is not such a reply.
pub uninterp spec fn tool_call_json(text: Seq<char>) -> Option<(Seq<char>, Seq<char>)>;

/// The views of a pair of strings.
pub open spec fn pair_view(p: Option<(String, String)>) -> Option<(Seq<char>, Seq<char>)> {
    match p {
        Some((a, b)) => Some((a@, b@)),
        None => None,
    }
}

/// Reads `text` as a tool-call reply with `serde_json::from_str` and takes
/// out the call's `name` (a string) and `args` (written back with
/// `Value::to_string`).
#[verifier::external_body]
fn parse_tool_call_json(text: &str) -> (out: Option<(String, String)>)
    ensures
        pair_view(out) == tool_call_json(text@),
{
    let value = serde_json::from_str::<serde_json::Value>(text).ok()?;
    let call = value.get("tool_call")?;
    Some((call.get("name")?.as_str()?.to_string(), call.get("args")?.to_string()))
}

/// The tool call that a provider reply names: the reply is trimmed, taken
/// out of its code fence and read as a tool-call reply; the tool's name and
/// its arguments as JSON text.
pub fn parse_tool_call(content: &str) -> (out: Option<(String, String)>)
    ensures
        pair_view(out) == tool_call_json(fence_stripped(trim(content@))),
{
    let text = tool_call_text(content);
    parse_tool_call_json(text.as_str())
}

/// What an agent's turn ended with.
#[derive(Debug, Clone)]
pub struct AgentRunResult {
    pub session_id: String,
    pub response: String,
    pub turns: u32,
}

/// Who speaks in a chat message.
#[derive(Debug, Clone, Copy, PartialEq, Eq, Structural)]
pub enum ChatRole {
    System,
    User,
    Assistant,
}

/// One message sent to the provider.
#[derive(Debug, Clone)]
pub struct ChatMessage {
    pub role: ChatRole,
    pub content: String,
}

/// The kinds of events a session records.
#[derive(Debug, Clone, Copy, PartialEq, Eq, Structural)]
pub enum EventKind {
    User,
    Assistant,
    ToolCall,
    ToolResult,
    System,
    Error,
}

/// A session event as the messages read it: its kind, the text of its
/// `text` field where that is a string, the JSON text of its `result` field
/// where there is one, and its `name` field where that is a string.
#[derive(Debug, Clone)]
pub struct SessionEventView {
    pub kind: EventKind,
    pub text: Option<String>,
    pub result_json: Option<String>,
    pub name: Option<String>,
}

/// A message as plain values.
pub open spec fn message_view(m: ChatMessage) -> (ChatRole, Seq<char>) {
    (m.role, m.content@)
}

/// The message an event adds to the conversation, if any.
pub open spec fn event_message(e: SessionEventView) -> Option<(ChatRole, Seq<char>)> {
    match e.kind {
        EventKind::User => match e.text {
            Some(t) => Some((ChatRole::User, t@)),
            None => None,
        },
        EventKind::Assistant => match e.text {
            Some(t) => Some((ChatRole::Assistant, t@)),
            None => None,
        },
        EventKind::ToolResult => Some(
            (
                ChatRole::User,
                "TOOL_RESULT "@ + (match e.name {
                    Some(n) => n@,
                    None => "unknown_tool"@,
                }) + "\n"@ + (match e.result_json {
                    Some(r) => r@,
                    None => "{}"@,
                }),
            ),
        ),
        _ => None,
    }
}

/// The messages the events add, in order.
pub open spec fn event_messages(s: Seq<SessionEventView>) -> Seq<(ChatRole, Seq<char>)>
    decreases s.len(),
{
    if s.len() == 0 {
        Seq::<(ChatRole, Seq<char>)>::empty()
    } else {
        match event_message(s.last()) {
            Some(m) => event_messages(s.drop_last()).push(m),
            None => event_messages(s.drop_last()),
        }
    }
}

fn message_for(e: &SessionEventView) -> (out: Option<ChatMessage>)
    ensures
        match out {
            Some(m) => event_message(*e) == Some(message_view(m)),
            None => event_message(*e) is None,
        },
{
    match e.kind {
        EventKind::User => match &e.text {
            Some(t) => Some(ChatMessage { role: ChatRole::User, content: t.clone() }),
            None => None,
        },
        EventKind::Assistant => match &e.text {
            Some(t) => Some(ChatMessage { role: ChatRole::Assistant, content: t.clone() }),
            None => None,
        },
        EventKind::ToolResult => {
            let name = match &e.name {
                Some(n) => n.clone(),
                None => owned("unknown_tool"),
            };
            let text = match &e.result_json {
                Some(r) => r.clone(),
                None => owned("{}"),
            };
            let mut content = cat("TOOL_RESULT ", name.as_str());
            content.append("\n");
            content.append(text.as_str());
            Some(ChatMessage { role: ChatRole::User, content })
        },
        _ => None,
    }
}

/// The conversation sent to the provider: the system prompt, then what the
/// session's events say, in order.
pub fn build_messages_for_session(system_prompt: &str, events: &Vec<SessionEventView>) -> (out: Vec<
    ChatMessage,
>)
    ensures
        out@.map_values(|m: ChatMessage| message_view(m)) == seq![(ChatRole::System, system_prompt@)]
            + event_messages(events@),
{
    let mut out: Vec<ChatMessage> = Vec::new();
    out.push(ChatMessage { role: ChatRole::System, content: owned(system_prompt) });
    let ghost head = seq![(ChatRole::System, system_prompt@)];
    assert(out@.map_values(|m: ChatMessage| message_view(m)) =~= head + event_messages(events@.take(0)));
    let mut i: usize = 0;
    while i < events.len()
        invariant
            i <= events.len(),
            head == seq![(ChatRole::System, system_prompt@)],
            out@.map_values(|m: ChatMessage| message_view(m)) == head + event_messages(events@.take(i as int)),
        decreases events.len() - i,
    {
        proof {
            assert(events@.take(i + 1).drop_last() =~= events@.take(i as int));
            assert(events@.take(i + 1).last() == events@[i as int]);
        }
        let ghost prev = out@;
        match message_for(&events[i]) {
            Some(m) => {
                out.push(m);
                assert(out@.map_values(|m: ChatMessage| message_view(m)) =~= prev.map_values(|m: ChatMessage| message_view(m)).push(message_view(m)));
            },
            None => {},
        }
        i += 1;
    }
    assert(events@.take(events.len() as int) =~= events@);
    out
}

/// What the loop does after the provider answers.
#[derive(Debug, Clone)]
pub enum AskStep {
    /// Run the named tool, then ask again.
    RunTool { name: String, args_json: String },
    /// Record the reply and finish.
    Finish(AgentRunResult),
}

/// Decides the step after a reply: a tool call found in it is run, else the
/// reply ends the run after `turns` turns.
pub fn ask_step(session_id: &str, content: &str, tool_call: Option<(String, String)>, turns: u32) -> (out:
    AskStep)
    ensures
        match tool_call {
            Some((n, a)) => out matches AskStep::RunTool { name, args_json } && name@ == n@ && args_json@
                == a@,
            None => out matches AskStep::Finish(r) && r.session_id@ == session_id@ && r.response@
                == content@ && r.turns == turns,
        },
{
    match tool_call {
        Some((name, args_json)) => AskStep::RunTool { name, args_json },
        None => AskStep::Finish(
            AgentRunResult { session_id: owned(session_id), response: owned(content), turns },
        ),
    }
}

/// Whether a tool's run is audited as a command.
pub fn is_command_tool(name: &str) -> (b: bool)
    ensures
        b == (name@ == "run_cmd"@),
{
    crate::text::str_eq(name, "run_cmd")
}

} // verus!
