//! Asking and chatting: the commands of the chat prompt, the labels it
//! shows, and where a prompt comes from.
use vstd::prelude::*;
use crate::error::{MosaicError, fails_with};
use crate::sorting::views;
use crate::text::{lines_of, owned, split_lines, str_eq, trim, trim_str};

verus! {

/// What a line typed at the chat prompt asks for.
#[derive(Debug, Clone, Copy, PartialEq, Eq)]
pub enum ChatReplCommand<'a> {
    Exit,
    Help,
    Session,
    New,
    Status,
    Agent,
    Prompt(&'a str),
}

/// Reads a line typed at the chat prompt: `/exit` (or `exit`, `quit`),
/// `/help`, `/session`, `/new`, `/status`, `/agent`, else a prompt.
pub fn parse_chat_repl_command<'a>(prompt: &'a str) -> (c: ChatReplCommand<'a>)
    ensures
        c == (if prompt@ == "/exit"@ || prompt@ == "exit"@ || prompt@ == "quit"@ {
            ChatReplCommand::Exit
        } else if prompt@ == "/help"@ {
            ChatReplCommand::Help
        } else if prompt@ == "/session"@ {
            ChatReplCommand::Session
        } else if prompt@ == "/new"@ {
            ChatReplCommand::New
        } else if prompt@ == "/status"@ {
            ChatReplCommand::Status
        } else if prompt@ == "/agent"@ {
            ChatReplCommand::Agent
        } else {
            ChatReplCommand::Prompt(prompt)
        }),
{
    if str_eq(prompt, "/exit") || str_eq(prompt, "exit") || str_eq(prompt, "quit") {
        ChatReplCommand::Exit
    } else if str_eq(prompt, "/help") {
        ChatReplCommand::Help
    } else if str_eq(prompt, "/session") {
        ChatReplCommand::Session
    } else if str_eq(prompt, "/new") {
        ChatReplCommand::New
    } else if str_eq(prompt, "/status") {
        ChatReplCommand::Status
    } else if str_eq(prompt, "/agent") {
        ChatReplCommand::Agent
    } else {
        ChatReplCommand::Prompt(prompt)
    }
}

/// The label of a chat session: its id, or `<new session>`.
pub fn format_chat_session(session_id: Option<&str>) -> (s: String)
    ensures
        s@ == match session_id {
            Some(id) => id@,
            None => "<new session>"@,
        },
{
    match session_id {
        Some(id) => owned(id),
        None => owned("<new session>"),
    }
}

/// The label of the chat's agent: its id, or `<none>`.
pub fn format_chat_agent(agent_id: Option<&str>) -> (s: String)
    ensures
        s@ == match agent_id {
            Some(id) => id@,
            None => "<none>"@,
        },
{
    match agent_id {
        Some(id) => owned(id),
        None => owned("<none>"),
    }
}

/// Where a prompt comes from.
#[derive(Debug, PartialEq, Eq)]
pub enum PromptSource {
    Text(String),
    File(String),
}

/// The one source of a prompt: its text or a file, not both; a prompt is
/// required.
pub fn resolve_prompt_source(prompt: Option<String>, prompt_file: Option<String>) -> (out: Result<
    PromptSource,
    MosaicError,
>)
    ensures
        match (prompt, prompt_file) {
            (Some(p), None) => out matches Ok(PromptSource::Text(t)) && t@ == p@,
            (None, Some(f)) => out matches Ok(PromptSource::File(t)) && t@ == f@,
            (Some(_), Some(_)) => fails_with(
                out,
                "provide either prompt text or --prompt-file, not both"@,
            ),
            (None, None) => fails_with(out, "prompt is required"@),
        },
{
    match (prompt, prompt_file) {
        (Some(p), None) => Ok(PromptSource::Text(p)),
        (None, Some(f)) => Ok(PromptSource::File(f)),
        (Some(_), Some(_)) => Err(
            MosaicError::Validation(owned("provide either prompt text or --prompt-file, not both")),
        ),
        (None, None) => Err(MosaicError::Validation(owned("prompt is required"))),
    }
}

/// The source of an optional prompt: none, its text or a file, not both.
pub fn resolve_prompt_source_optional(prompt: Option<String>, prompt_file: Option<String>) -> (out:
    Result<Option<PromptSource>, MosaicError>)
    ensures
        match (prompt, prompt_file) {
            (Some(p), None) => out matches Ok(Some(PromptSource::Text(t))) && t@ == p@,
            (None, Some(f)) => out matches Ok(Some(PromptSource::File(t))) && t@ == f@,
            (Some(_), Some(_)) => fails_with(
                out,
                "provide either prompt text or --prompt-file, not both"@,
            ),
            (None, None) => out matches Ok(None),
        },
{
    match (prompt, prompt_file) {
        (None, None) => Ok(None),
        (Some(p), None) => Ok(Some(PromptSource::Text(p))),
        (None, Some(f)) => Ok(Some(PromptSource::File(f))),
        (Some(_), Some(_)) => Err(
            MosaicError::Validation(owned("provide either prompt text or --prompt-file, not both")),
        ),
    }
}

/// A prompt given as text: the text itself, or a request to read it from
/// standard input (`-`).
#[derive(Debug, PartialEq, Eq)]
pub enum PromptInput {
    Text(String),
    ReadStdin,
}

/// Checks a prompt given as text: `-` asks for standard input; other text
/// must not be blank and is kept as it is.
pub fn resolve_prompt_input(prompt: String) -> (out: Result<PromptInput, MosaicError>)
    ensures
        prompt@ == "-"@ ==> out == Ok::<PromptInput, MosaicError>(PromptInput::ReadStdin),
        prompt@ != "-"@ && trim(prompt@).len() == 0 ==> fails_with(out, "prompt cannot be empty"@),
        prompt@ != "-"@ && trim(prompt@).len() > 0 ==> (out matches Ok(PromptInput::Text(t)) && t@
            == prompt@),
{
    if str_eq(prompt.as_str(), "-") {
        return Ok(PromptInput::ReadStdin);
    }
    if crate::text::is_blank_str(prompt.as_str()) {
        return Err(MosaicError::Validation(owned("prompt cannot be empty")));
    }
    Ok(PromptInput::Text(prompt))
}

/// A prompt read from standard input: trimmed, not blank.
pub fn stdin_prompt(source: &str) -> (out: Result<String, MosaicError>)
    ensures
        trim(source@).len() == 0 ==> fails_with(out, "stdin prompt is empty; provide content via pipe"@),
        trim(source@).len() > 0 ==> (out matches Ok(t) && t@ == trim(source@)),
{
    let t = trim_str(source);
    if t.as_str().is_empty() {
        return Err(MosaicError::Validation(owned("stdin prompt is empty; provide content via pipe")));
    }
    Ok(t)
}

/// A prompt read from a file: trimmed, not blank.
pub fn prompt_file_text(source: &str) -> (out: Result<String, MosaicError>)
    ensures
        trim(source@).len() == 0 ==> fails_with(out, "prompt file is empty"@),
        trim(source@).len() > 0 ==> (out matches Ok(t) && t@ == trim(source@)),
{
    let t = trim_str(source);
    if t.as_str().is_empty() {
        return Err(MosaicError::Validation(owned("prompt file is empty")));
    }
    Ok(t)
}

/// The trimmed lines that are not blank, in order.
pub open spec fn nonblank_lines(lines: Seq<Seq<char>>) -> Seq<Seq<char>>
    decreases lines.len(),
{
    if lines.len() == 0 {
        Seq::<Seq<char>>::empty()
    } else if trim(lines.last()).len() == 0 {
        nonblank_lines(lines.drop_last())
    } else {
        nonblank_lines(lines.drop_last()).push(trim(lines.last()))
    }
}

/// The prompts of a script: its trimmed lines that are not blank; a script
/// without any is refused.
pub fn resolve_script_prompts(source: &str) -> (out: Result<Vec<String>, MosaicError>)
    ensures
        nonblank_lines(split_lines(source@)).len() == 0 ==> fails_with(
            out,
            "script is empty; provide at least one non-empty line"@,
        ),
        nonblank_lines(split_lines(source@)).len() > 0 ==> (out matches Ok(v) && views(v@)
            == nonblank_lines(split_lines(source@))),
{
    let lines = lines_of(source);
    let ghost all = views(lines@);
    let mut out: Vec<String> = Vec::new();
    let mut k: usize = 0;
    while k < lines.len()
        invariant
            k <= lines.len(),
            all == views(lines@),
            views(out@) == nonblank_lines(all.take(k as int)),
        decreases lines.len() - k,
    {
        proof {
            assert(all.take(k + 1).drop_last() =~= all.take(k as int));
            assert(all.take(k + 1).last() == lines@[k as int]@);
        }
        let t = trim_str(lines[k].as_str());
        if !t.as_str().is_empty() {
            let ghost before = views(out@);
            out.push(t);
            assert(views(out@) =~= before.push(out@.last()@));
        }
        k += 1;
    }
    assert(all.take(lines.len() as int) =~= all);
    if out.len() == 0 {
        return Err(
            MosaicError::Validation(owned("script is empty; provide at least one non-empty line")),
        );
    }
    Ok(out)
}

} // verus!
