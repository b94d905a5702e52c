//! Running a plugin hook: the command line it runs, the output kept of it,
//! when the run is stopped, and what the run is judged to be.
use vstd::prelude::*;
use crate::channels::message::{join, join_strings};
use crate::error::{MosaicError, fails_with};
use crate::paths::{extension, extension_of, file_name, file_name_of, parent, parent_path};
use crate::plugins::limits::PluginResourceLimits;
use crate::sorting::views;
use crate::text::{
    lines_of, split_lines, ascii_lower, ascii_lowercase, cat, cat3, cat5, chars_of, decimal, i64_to_string, is_ascii_alnum,
    owned, signed_decimal, str_eq, string_of, u64_to_string,
};

verus! {

/// How many characters of a hook's output a preview shows.
pub const MAX_PLUGIN_OUTPUT_PREVIEW_CHARS: usize = 240;

/// The first `limit` characters of `s` and `...` when it is longer, else
/// `s`.
pub open spec fn preview(s: Seq<char>, limit: nat) -> Seq<char> {
    if s.len() <= limit {
        s
    } else {
        s.take(limit as int) + "..."@
    }
}

/// A preview of `text`: its first `limit` characters, and `...` when there
/// are more.
pub fn text_preview(text: &str, limit: usize) -> (out: String)
    ensures
        out@ == preview(text@, limit as nat),
{
    let v = chars_of(text);
    if v.len() <= limit {
        return owned(text);
    }
    let mut out: Vec<char> = Vec::new();
    let mut i: usize = 0;
    while i < limit
        invariant
            i <= limit < v@.len(),
            out@ == v@.take(i as int),
        decreases limit - i,
    {
        out.push(v[i]);
        i += 1;
        assert(out@ =~= v@.take(i as int));
    }
    out.push('.');
    out.push('.');
    out.push('.');
    proof {
        reveal_strlit("...");
    }
    assert(out@ =~= v@.take(limit as int) + "..."@);
    string_of(out.as_slice())
}

/// A character that needs no quoting in a shell word.
pub open spec fn shell_safe(c: char) -> bool {
    is_ascii_alnum(c) || c == '_' || c == '-' || c == '.' || c == '/' || c == ':'
}

/// `s` with each `'` written as `'"'"'`.
pub open spec fn quote_body(s: Seq<char>) -> Seq<char>
    decreases s.len(),
{
    if s.len() == 0 {
        Seq::<char>::empty()
    } else {
        quote_body(s.drop_last()) + if s.last() == '\'' {
            seq!['\'', '"', '\'', '"', '\'']
        } else {
            seq![s.last()]
        }
    }
}

/// `s` as one shell word: as it is when every character is safe, else in
/// single quotes.
pub open spec fn shell_word(s: Seq<char>) -> Seq<char> {
    if forall|i: int| 0 <= i < s.len() ==> shell_safe(#[trigger] s[i]) {
        s
    } else {
        seq!['\''] + quote_body(s) + seq!['\'']
    }
}

/// Quotes a value for a shell, when it needs it.
pub fn shell_escape(value: &str) -> (out: String)
    ensures
        out@ == shell_word(value@),
{
    let v = chars_of(value);
    let mut safe = true;
    let mut i: usize = 0;
    while i < v.len()
        invariant
            i <= v.len(),
            v@ == value@,
            safe == forall|j: int| 0 <= j < i ==> shell_safe(#[trigger] v@[j]),
        decreases v.len() - i,
    {
        let c = v[i];
        let ok = ('a' <= c && c <= 'z') || ('A' <= c && c <= 'Z') || ('0' <= c && c <= '9') || c
            == '_' || c == '-' || c == '.' || c == '/' || c == ':';
        if !ok {
            safe = false;
        }
        i += 1;
    }
    if safe {
        return owned(value);
    }
    let mut out: Vec<char> = Vec::new();
    out.push('\'');
    let mut k: usize = 0;
    while k < v.len()
        invariant
            k <= v.len(),
            out@ == seq!['\''] + quote_body(v@.take(k as int)),
        decreases v.len() - k,
    {
        proof {
            assert(v@.take(k + 1).drop_last() =~= v@.take(k as int));
        }
        if v[k] == '\'' {
            out.push('\'');
            out.push('"');
            out.push('\'');
            out.push('"');
            out.push('\'');
        } else {
            out.push(v[k]);
        }
        k += 1;
        assert(out@ =~= seq!['\''] + quote_body(v@.take(k as int)));
    }
    out.push('\'');
    assert(v@.take(v.len() as int) =~= v@);
    assert(out@ =~= shell_word(value@));
    string_of(out.as_slice())
}

/// The words of a command line: the program, then its arguments.
pub open spec fn command_words(program: Seq<char>, args: Seq<String>) -> Seq<Seq<char>> {
    seq![shell_word(program)] + args.map_values(|a: String| shell_word(a@))
}

/// A command line for display, each word quoted for a shell when it needs
/// it.
pub fn render_shell_command(program: &str, args: &Vec<String>) -> (out: String)
    ensures
        out@ == join(command_words(program@, args@), " "@),
{
    let mut parts: Vec<String> = Vec::new();
    parts.push(shell_escape(program));
    assert(parts@.map_values(|p: String| p@) =~= command_words(program@, args@.take(0)));
    let mut i: usize = 0;
    while i < args.len()
        invariant
            i <= args.len(),
            parts@.map_values(|p: String| p@) == command_words(program@, args@.take(i as int)),
        decreases args.len() - i,
    {
        let ghost before = parts@.map_values(|p: String| p@);
        let w = shell_escape(args[i].as_str());
        parts.push(w);
        assert(parts@.map_values(|p: String| p@) =~= before.push(shell_word(args@[i as int]@)));
        assert(args@.take(i + 1).map_values(|a: String| shell_word(a@)) =~= args@.take(
            i as int,
        ).map_values(|a: String| shell_word(a@)).push(shell_word(args@[i as int]@)));
        i += 1;
        assert(parts@.map_values(|p: String| p@) =~= command_words(program@, args@.take(i as int)));
    }
    assert(args@.take(args.len() as int) =~= args@);
    proof {
        reveal_strlit(" ");
    }
    join_strings(&parts, " ")
}

/// The command that runs a hook.
#[derive(Debug)]
pub struct PluginHookCommand {
    pub program: String,
    pub args: Vec<String>,
    pub rendered: String,
}

/// The lower-cased extension of a hook file.
pub open spec fn hook_extension(hook_path: Seq<char>) -> Option<Seq<char>> {
    match extension(hook_path) {
        Some(e) => Some(ascii_lower(e)),
        None => None,
    }
}

fn lower_extension(hook_path: &str) -> (out: Option<String>)
    ensures
        match out {
            Some(s) => hook_extension(hook_path@) == Some(s@),
            None => hook_extension(hook_path@) is None,
        },
{
    match extension_of(hook_path) {
        Some(e) => Some(ascii_lowercase(e.as_str())),
        None => None,
    }
}

/// How a hook file is run: shell scripts (`.sh`, `.bash`) by `sh`, Python
/// scripts (`.py`) by the given interpreter (`python3` by default), other
/// files directly; then the given arguments.
pub open spec fn hook_command_is(
    hook_path: Seq<char>,
    args: Seq<String>,
    python: Option<Seq<char>>,
    c: PluginHookCommand,
) -> bool {
    let ext = hook_extension(hook_path);
    let (program, lead) = if ext == Some("sh"@) || ext == Some("bash"@) {
        ("sh"@, seq![hook_path])
    } else if ext == Some("py"@) {
        (
            match python {
                Some(p) => p,
                None => "python3"@,
            },
            seq![hook_path],
        )
    } else {
        (hook_path, Seq::<Seq<char>>::empty())
    };
    &&& c.program@ == program
    &&& c.args@.map_values(|a: String| a@) == lead + args.map_values(|a: String| a@)
    &&& c.rendered@ == join(command_words(program, c.args@), " "@)
}

/// The command that runs a hook file with the given arguments; `python`
/// is the interpreter the environment names for Python scripts.
pub fn build_plugin_hook_command(hook_path: &str, args: &Vec<String>, python: Option<String>) -> (c:
    PluginHookCommand)
    ensures
        hook_command_is(
            hook_path@,
            args@,
            match python {
                Some(p) => Some(p@),
                None => None,
            },
            c,
        ),
{
    let ext = lower_extension(hook_path);
    let is_shell = match &ext {
        Some(e) => str_eq(e.as_str(), "sh") || str_eq(e.as_str(), "bash"),
        None => false,
    };
    let is_python = match &ext {
        Some(e) => str_eq(e.as_str(), "py"),
        None => false,
    };
    let mut command_args: Vec<String> = Vec::new();
    let program = if is_shell {
        command_args.push(owned(hook_path));
        assert(command_args@.map_values(|a: String| a@) =~= seq![hook_path@]);
        owned("sh")
    } else if is_python {
        command_args.push(owned(hook_path));
        assert(command_args@.map_values(|a: String| a@) =~= seq![hook_path@]);
        match python {
            Some(p) => p,
            None => owned("python3"),
        }
    } else {
        assert(command_args@.map_values(|a: String| a@) =~= Seq::<Seq<char>>::empty());
        owned(hook_path)
    };
    let ghost lead = command_args@.map_values(|a: String| a@);
    assert(command_args@.map_values(|a: String| a@) =~= lead + args@.take(0).map_values(
        |a: String| a@,
    ));
    let mut i: usize = 0;
    while i < args.len()
        invariant
            i <= args.len(),
            command_args@.map_values(|a: String| a@) == lead + args@.take(i as int).map_values(
                |a: String| a@,
            ),
        decreases args.len() - i,
    {
        let ghost before = command_args@.map_values(|a: String| a@);
        let a = args[i].clone();
        command_args.push(a);
        assert(command_args@.map_values(|a: String| a@) =~= before.push(args@[i as int]@));
        assert(args@.take(i + 1).map_values(|a: String| a@) =~= args@.take(i as int).map_values(
            |a: String| a@,
        ).push(args@[i as int]@));
        i += 1;
        assert(command_args@.map_values(|a: String| a@) =~= lead + args@.take(i as int).map_values(
            |a: String| a@,
        ));
    }
    assert(args@.take(args.len() as int) =~= args@);
    proof {
        reveal_strlit("sh");
        reveal_strlit("bash");
        reveal_strlit("py");
    }
    let rendered = render_shell_command(program.as_str(), &command_args);
    PluginHookCommand { program, args: command_args, rendered }
}

/// Whether a hook file is a shell script: by its extension (`sh`, `bash`),
/// or, without one, by lying in a directory named `hooks`.
pub open spec fn is_shell_script(hook_path: Seq<char>) -> bool {
    let ext = hook_extension(hook_path);
    ext == Some("sh"@) || ext == Some("bash"@) || (ext is None && match parent_path(hook_path) {
        Some(dir) => file_name(dir) == Some("hooks"@),
        None => false,
    })
}

/// Whether a hook file is a shell script.
pub fn hook_is_shell_script(hook_path: &str) -> (b: bool)
    ensures
        b == is_shell_script(hook_path@),
{
    let ext = lower_extension(hook_path);
    match ext {
        Some(e) => str_eq(e.as_str(), "sh") || str_eq(e.as_str(), "bash"),
        None => match parent(hook_path) {
            None => false,
            Some(dir) => match file_name_of(dir.as_str()) {
                Some(name) => str_eq(name.as_str(), "hooks"),
                None => false,
            },
        },
    }
}

/// The lines of a shell script that a sandbox check reads: trimmed, with
/// their line numbers (from 1), leaving out blank lines and comments.
#[derive(Debug)]
pub struct ScriptLine {
    pub number: usize,
    pub text: String,
}

/// The lines that a sandbox check reads, in order.
pub open spec fn checked_lines(lines: Seq<Seq<char>>) -> Seq<(nat, Seq<char>)>
    decreases lines.len(),
{
    if lines.len() == 0 {
        Seq::<(nat, Seq<char>)>::empty()
    } else {
        let prev = checked_lines(lines.drop_last());
        let t = crate::text::trim(lines.last());
        if t.len() == 0 || t[0] == '#' {
            prev
        } else {
            prev.push((lines.len() as nat, t))
        }
    }
}

/// The lines of a hook script that a sandbox check reads.
pub fn sandbox_script_lines(raw: &str) -> (out: Vec<ScriptLine>)
    ensures
        out@.map_values(|l: ScriptLine| (l.number as nat, l.text@)) == checked_lines(split_lines(raw@)),
{
    let lines = lines_of(raw);
    let ghost all = views(lines@);
    let mut out: Vec<ScriptLine> = Vec::new();
    let mut k: usize = 0;
    while k < lines.len()
        invariant
            k <= lines.len(),
            all == views(lines@),
            all == split_lines(raw@),
            out@.map_values(|l: ScriptLine| (l.number as nat, l.text@)) == checked_lines(
                all.take(k as int),
            ),
        decreases lines.len() - k,
    {
        proof {
            assert(all.take(k + 1).drop_last() =~= all.take(k as int));
            assert(all.take(k + 1).last() == lines@[k as int]@);
        }
        let t = crate::text::trim_chars(&chars_of(lines[k].as_str()));
        if !(t.len() == 0 || t[0] == '#') {
            let ghost before = out@.map_values(|l: ScriptLine| (l.number as nat, l.text@));
            out.push(ScriptLine { number: k + 1, text: string_of(t.as_slice()) });
            assert(out@.map_values(|l: ScriptLine| (l.number as nat, l.text@)) =~= before.push(
                ((k + 1) as nat, t@),
            ));
        }
        k += 1;
    }
    assert(all.take(lines.len() as int) =~= all);
    out
}

/// What is kept of a hook's output stream: how much is captured, how much
/// was read in all, and whether some was left out.
#[derive(Debug, Clone, Copy)]
pub struct OutputCapture {
    pub captured: usize,
    pub total_bytes: u64,
    pub truncated: bool,
}

impl OutputCapture {
    /// Nothing read yet.
    pub fn new() -> (c: Self)
        ensures
            c.captured == 0 && c.total_bytes == 0 && !c.truncated,
    {
        OutputCapture { captured: 0, total_bytes: 0, truncated: false }
    }

    /// Takes in a chunk of `read_size` bytes; how many of them to keep: as
    /// many as fit under `max_output_bytes`.
    pub fn accept(&mut self, read_size: usize, max_output_bytes: usize) -> (take: usize)
        requires
            old(self).captured <= max_output_bytes,
        ensures
            take == if old(self).captured < max_output_bytes {
                if max_output_bytes - old(self).captured < read_size {
                    (max_output_bytes - old(self).captured) as usize
                } else {
                    read_size
                }
            } else {
                0
            },
            final(self).captured == old(self).captured + take,
            final(self).captured <= max_output_bytes,
            final(self).total_bytes == if old(self).total_bytes + read_size > u64::MAX {
                u64::MAX as int
            } else {
                old(self).total_bytes + read_size
            },
            final(self).truncated == (old(self).truncated || take < read_size),
    {
        self.total_bytes = if (read_size as u64) > u64::MAX - self.total_bytes {
            u64::MAX
        } else {
            self.total_bytes + (read_size as u64)
        };
        let take = if self.captured < max_output_bytes {
            let remaining = max_output_bytes - self.captured;
            if remaining < read_size {
                remaining
            } else {
                read_size
            }
        } else {
            0
        };
        self.captured = self.captured + take;
        if take < read_size {
            self.truncated = true;
        }
        take
    }

    /// Closes the stream: more read than the limit means some was left out.
    pub fn finish(&mut self, max_output_bytes: usize)
        ensures
            final(self).captured == old(self).captured,
            final(self).total_bytes == old(self).total_bytes,
            final(self).truncated == (old(self).truncated || old(self).total_bytes > max_output_bytes),
    {
        if self.total_bytes > (max_output_bytes as u64) {
            self.truncated = true;
        }
    }
}

/// What to do while a hook runs, `elapsed_ms` after it started.
#[derive(Debug, Clone, Copy, PartialEq, Eq, Structural)]
pub enum HookWait {
    KeepWaiting,
    StopTimedOut,
    StopWatchdog,
}

/// What to do while a hook runs: stop it at its timeout, or at the
/// watchdog's budget, else keep waiting.
pub fn hook_wait_action(elapsed_ms: u64, timeout_ms: u64, watchdog_budget_ms: Option<u64>) -> (a:
    HookWait)
    ensures
        a == if elapsed_ms >= timeout_ms {
            HookWait::StopTimedOut
        } else if watchdog_budget_ms matches Some(b) && elapsed_ms >= b {
            HookWait::StopWatchdog
        } else {
            HookWait::KeepWaiting
        },
{
    if elapsed_ms >= timeout_ms {
        HookWait::StopTimedOut
    } else {
        match watchdog_budget_ms {
            Some(b) => if elapsed_ms >= b {
                HookWait::StopWatchdog
            } else {
                HookWait::KeepWaiting
            },
            None => HookWait::KeepWaiting,
        }
    }
}

/// Why the watchdog stopped a hook.
pub fn watchdog_message(
    plugin_id: &str,
    elapsed_ms: u64,
    budget_ms: Option<u64>,
    limits: PluginResourceLimits,
) -> (m: String)
    ensures
        m@ == "plugin '"@ + plugin_id@ + "' hook resource watchdog exceeded: elapsed_wall_ms="@
            + decimal(elapsed_ms as nat) + "ms > budget_ms="@ + decimal(
            match budget_ms {
                Some(b) => b as nat,
                None => 0,
            },
        ) + " (derived from max_cpu_ms="@ + decimal(
            match limits.max_cpu_ms {
                Some(c) => c as nat,
                None => 0,
            },
        ) + "ms)"@,
{
    let budget = match budget_ms {
        Some(b) => b,
        None => 0,
    };
    let cpu = match limits.max_cpu_ms {
        Some(c) => c,
        None => 0,
    };
    let e = u64_to_string(elapsed_ms);
    let b = u64_to_string(budget);
    let c = u64_to_string(cpu);
    let head = cat3("plugin '", plugin_id, "' hook resource watchdog exceeded: elapsed_wall_ms=");
    let mid = cat5(head.as_str(), e.as_str(), "ms > budget_ms=", b.as_str(), " (derived from max_cpu_ms=");
    cat3(mid.as_str(), c.as_str(), "ms)")
}

/// The exit code of a hook: its own, else 124 when it timed out, else -1.
pub fn hook_exit_code(code: Option<i32>, timed_out: bool) -> (c: i32)
    ensures
        c == match code {
            Some(v) => v,
            None => if timed_out {
                124i32
            } else {
                -1i32
            },
        },
{
    match code {
        Some(v) => v,
        None => if timed_out {
            124
        } else {
            -1
        },
    }
}

/// Checks a hook run's timeout and output limit before it starts.
pub fn validate_hook_run(timeout_ms: u64, max_output_bytes: u64) -> (out: Result<(), MosaicError>)
    ensures
        timeout_ms == 0 ==> fails_with(out, "--timeout-ms must be greater than 0"@),
        timeout_ms > 0 && max_output_bytes == 0 ==> fails_with(
            out,
            "plugin runtime max_output_bytes must be greater than 0"@,
        ),
        timeout_ms > 0 && max_output_bytes > 0 ==> out is Ok,
{
    if timeout_ms == 0 {
        return Err(MosaicError::Validation(owned("--timeout-ms must be greater than 0")));
    }
    if max_output_bytes == 0 {
        return Err(
            MosaicError::Validation(owned("plugin runtime max_output_bytes must be greater than 0")),
        );
    }
    Ok(())
}

/// How a hook run is judged.
#[derive(Debug)]
pub struct PluginRunVerdict {
    pub ok: bool,
    pub resource_limit_error: Option<String>,
    pub event_error: Option<String>,
}

/// How a hook run is judged: a breach is the watchdog's, else the one the
/// limit check found; the run succeeded when it exited with 0, in time and
/// without a breach; the logged error says why not.
pub fn judge_plugin_run(
    exit_code: i32,
    timed_out: bool,
    timeout_ms: u64,
    watchdog_error: Option<String>,
    limit_error: Option<String>,
) -> (v: PluginRunVerdict)
    ensures
        ({
            let breach = match watchdog_error {
                Some(w) => Some(w@),
                None => match limit_error {
                    Some(l) => Some(l@),
                    None => None,
                },
            };
            &&& match v.resource_limit_error {
                Some(r) => breach == Some(r@),
                None => breach is None,
            }
            &&& v.ok == (exit_code == 0 && !timed_out && breach is None)
            &&& match v.event_error {
                Some(e) => if timed_out {
                    e@ == "execution timed out after "@ + decimal(timeout_ms as nat) + "ms"@
                } else if breach is Some {
                    breach == Some(e@)
                } else {
                    exit_code != 0 && e@ == "hook exited with code "@ + signed_decimal(
                        exit_code as int,
                    )
                },
                None => !timed_out && breach is None && exit_code == 0,
            }
        }),
{
    let breach = match watchdog_error {
        Some(w) => Some(w),
        None => limit_error,
    };
    let ok = exit_code == 0 && !timed_out && breach.is_none();
    let event_error = if timed_out {
        let t = u64_to_string(timeout_ms);
        Some(cat3("execution timed out after ", t.as_str(), "ms"))
    } else if let Some(r) = &breach {
        Some(r.clone())
    } else if exit_code != 0 {
        let c = i64_to_string(exit_code as i64);
        Some(cat("hook exited with code ", c.as_str()))
    } else {
        None
    };
    PluginRunVerdict { ok, resource_limit_error: breach, event_error }
}

/// The outcome that a judged hook run gives the command: a tool error when
/// it timed out, breached a limit or exited with another code than 0.
pub fn plugin_run_result(
    plugin_id: &str,
    hook: &str,
    exit_code: i32,
    timed_out: bool,
    timeout_ms: u64,
    resource_limit_error: Option<String>,
) -> (out: Result<(), MosaicError>)
    ensures
        timed_out ==> (out matches Err(MosaicError::Tool(m)) && m@ == "plugin '"@ + plugin_id@
            + "' hook '"@ + hook@ + "' timed out after "@ + decimal(timeout_ms as nat) + "ms"@),
        !timed_out && resource_limit_error is Some ==> (out matches Err(MosaicError::Tool(m)) && m@
            == resource_limit_error->0@),
        !timed_out && resource_limit_error is None && exit_code != 0 ==> (out matches Err(
            MosaicError::Tool(m),
        ) && m@ == "plugin '"@ + plugin_id@ + "' hook '"@ + hook@ + "' failed with exit code "@
            + signed_decimal(exit_code as int)),
        !timed_out && resource_limit_error is None && exit_code == 0 ==> out is Ok,
{
    if timed_out {
        let t = u64_to_string(timeout_ms);
        let head = cat5("plugin '", plugin_id, "' hook '", hook, "' timed out after ");
        return Err(MosaicError::Tool(cat3(head.as_str(), t.as_str(), "ms")));
    }
    if let Some(r) = resource_limit_error {
        return Err(MosaicError::Tool(r));
    }
    if exit_code != 0 {
        let c = i64_to_string(exit_code as i64);
        let head = cat5("plugin '", plugin_id, "' hook '", hook, "' failed with exit code ");
        return Err(MosaicError::Tool(cat(head.as_str(), c.as_str())));
    }
    Ok(())
}

} // verus!
