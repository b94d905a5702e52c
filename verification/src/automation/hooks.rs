//! Hooks: commands run when an event fires, their runs and the errors that
//! failed runs report.
//!
//! Times are Unix timestamps in milliseconds.
use vstd::prelude::*;
use crate::automation::registry::{Identified, Subscribed, first_record_at, has_record, position_of};
use crate::error::{MosaicError, fails_with};
use crate::text::{
    cat, cat3, i64_to_string, is_blank_str, opt_view, owned, signed_decimal, str_eq, trim, trim_str,
};

verus! {

/// What a hook's last run gave.
#[derive(Debug)]
pub struct HookLastResult {
    pub ok: bool,
    pub exit_code: Option<i32>,
    pub duration_ms: Option<u64>,
    pub approved_by: Option<String>,
    pub error_code: Option<String>,
    pub error: Option<String>,
}

/// A hook: a command run when its event fires.
#[derive(Debug)]
pub struct HookRecord {
    pub id: String,
    pub name: String,
    pub event: String,
    pub command: String,
    pub enabled: bool,
    pub created_at: i64,
    pub updated_at: i64,
    pub last_triggered_at: Option<i64>,
    pub last_result: Option<HookLastResult>,
}

impl Identified for HookRecord {
    open spec fn id_view(&self) -> Seq<char> {
        self.id@
    }

    fn id_str(&self) -> (s: &str) {
        self.id.as_str()
    }
}

impl Subscribed for HookRecord {
    open spec fn event_view(&self) -> Seq<char> {
        self.event@
    }

    fn event_str(&self) -> (s: &str) {
        self.event.as_str()
    }
}

/// What running a hook reported.
#[derive(Debug)]
pub struct HookExecutionReport {
    pub hook_id: String,
    pub hook_name: String,
    pub event: String,
    pub trigger: String,
    pub command: String,
    pub ok: bool,
    pub exit_code: Option<i32>,
    pub duration_ms: Option<u64>,
    pub approved_by: Option<String>,
    pub error_code: Option<String>,
    pub error: Option<String>,
    pub stdout: Option<String>,
    pub stderr: Option<String>,
}

fn clone_opt(o: &Option<String>) -> (r: Option<String>)
    ensures
        r == *o,
{
    crate::channels::store::clone_opt_string(o)
}

/// What adding a hook yields: the trimmed name, event and command must not
/// be empty.
pub open spec fn hook_added(
    name: Seq<char>,
    event: Seq<char>,
    command: Seq<char>,
    disabled: bool,
    id: Seq<char>,
    now: i64,
    out: Result<HookRecord, MosaicError>,
) -> bool {
    if trim(name).len() == 0 {
        fails_with(out, "hook name cannot be empty"@)
    } else if trim(event).len() == 0 {
        fails_with(out, "hook event cannot be empty"@)
    } else if trim(command).len() == 0 {
        fails_with(out, "hook command cannot be empty"@)
    } else {
        out matches Ok(h) && h.id@ == id && h.name@ == trim(name) && h.event@ == trim(event)
            && h.command@ == trim(command) && h.enabled == !disabled && h.created_at == now
            && h.updated_at == now && h.last_triggered_at is None && h.last_result is None
    }
}

/// A new hook with the given id, created at `now`.
pub fn new_hook(name: &str, event: &str, command: &str, disabled: bool, id: String, now: i64) -> (out:
    Result<HookRecord, MosaicError>)
    ensures
        hook_added(name@, event@, command@, disabled, id@, now, out),
{
    let name = trim_str(name);
    if name.as_str().is_empty() {
        return Err(MosaicError::Validation(owned("hook name cannot be empty")));
    }
    let event = trim_str(event);
    if event.as_str().is_empty() {
        return Err(MosaicError::Validation(owned("hook event cannot be empty")));
    }
    let command = trim_str(command);
    if command.as_str().is_empty() {
        return Err(MosaicError::Validation(owned("hook command cannot be empty")));
    }
    Ok(
        HookRecord {
            id,
            name,
            event,
            command,
            enabled: !disabled,
            created_at: now,
            updated_at: now,
            last_triggered_at: None,
            last_result: None,
        },
    )
}

/// The message for a hook id that matches no hook.
pub open spec fn hook_not_found(id: Seq<char>) -> Seq<char> {
    "hook '"@ + id + "' not found"@
}

/// The position of the first hook with the given id.
pub fn find_hook(hooks: &Vec<HookRecord>, id: &str) -> (out: Result<usize, MosaicError>)
    ensures
        match out {
            Ok(i) => first_record_at(hooks@, id@, i as int),
            Err(e) => !has_record(hooks@, id@) && fails_with(Err::<(), MosaicError>(e), hook_not_found(id@)),
        },
{
    match position_of(hooks, id) {
        Some(i) => Ok(i),
        None => Err(MosaicError::Validation(cat3("hook '", id, "' not found"))),
    }
}

/// Enables or disables the first hook with the given id, at `now`.
pub fn set_hook_enabled(hooks: &mut Vec<HookRecord>, id: &str, enabled: bool, now: i64) -> (out:
    Result<usize, MosaicError>)
    ensures
        match out {
            Ok(i) => first_record_at(old(hooks)@, id@, i as int) && final(hooks)@.len() == old(
                hooks,
            )@.len() && (forall|j: int|
                0 <= j < old(hooks)@.len() && j != i ==> final(hooks)@[j] == old(hooks)@[j]) && ({
                let (a, b) = (old(hooks)@[i as int], final(hooks)@[i as int]);
                &&& b.enabled == enabled
                &&& b.updated_at == now
                &&& b.id == a.id && b.name == a.name && b.event == a.event && b.command == a.command
                &&& b.created_at == a.created_at && b.last_triggered_at == a.last_triggered_at
                &&& b.last_result == a.last_result
            }),
            Err(e) => final(hooks)@ == old(hooks)@ && !has_record(old(hooks)@, id@) && fails_with(
                Err::<(), MosaicError>(e),
                hook_not_found(id@),
            ),
        },
{
    let i = match find_hook(hooks, id) {
        Ok(i) => i,
        Err(e) => return Err(e),
    };
    let mut h = hooks.remove(i);
    h.enabled = enabled;
    h.updated_at = now;
    hooks.insert(i, h);
    Ok(i)
}

/// The positions of the enabled hooks that listen to `event_name`, in
/// order: those a system event runs.
pub fn hooks_to_run(hooks: &Vec<HookRecord>, event_name: &str) -> (out: Vec<usize>)
    ensures
        forall|k: int| 0 <= k < out@.len() ==> (#[trigger] out@[k]) < hooks@.len(),
        forall|k: int, l: int| 0 <= k < l < out@.len() ==> out@[k] < out@[l],
        forall|j: int|
            0 <= j < hooks@.len() ==> (out@.contains(j as usize) <==> ((#[trigger] hooks@[j]).enabled
                && hooks@[j].event@ == event_name@)),
{
    let mut out: Vec<usize> = Vec::new();
    let mut i: usize = 0;
    while i < hooks.len()
        invariant
            i <= hooks.len(),
            forall|k: int| 0 <= k < out@.len() ==> (#[trigger] out@[k]) < i,
            forall|k: int, l: int| 0 <= k < l < out@.len() ==> out@[k] < out@[l],
            forall|j: int|
                0 <= j < i ==> (out@.contains(j as usize) <==> ((#[trigger] hooks@[j]).enabled
                    && hooks@[j].event@ == event_name@)),
        decreases hooks.len() - i,
    {
        let keep = hooks[i].enabled && str_eq(hooks[i].event.as_str(), event_name);
        let ghost before = out@;
        if keep {
            out.push(i);
        }
        proof {
            assert forall|j: int| 0 <= j < i + 1 implies (out@.contains(j as usize) <==> ((
            #[trigger] hooks@[j]).enabled && hooks@[j].event@ == event_name@)) by {
                if j < i {
                    if before.contains(j as usize) {
                        let k = choose|k: int| 0 <= k < before.len() && before[k] == j as usize;
                        assert(out@[k] == before[k]);
                    }
                    if out@.contains(j as usize) {
                        let k = choose|k: int| 0 <= k < out@.len() && out@[k] == j as usize;
                        if k < before.len() {
                            assert(before[k] == out@[k]);
                        }
                    }
                } else if keep {
                    assert(out@[before.len() as int] == i);
                } else {
                    if out@.contains(j as usize) {
                        let k = choose|k: int| 0 <= k < out@.len() && out@[k] == j as usize;
                        assert(before[k] < i);
                    }
                }
            }
        }
        i += 1;
    }
    out
}

/// The report of a hook whose command ran and exited with `exit_code`: a
/// failure (of code `tool`) unless the status is 0.  The duration is capped
/// at `u64::MAX` milliseconds.
pub open spec fn command_report(
    hook: HookRecord,
    trigger: Seq<char>,
    command: Seq<char>,
    exit_code: i32,
    duration_ms: u128,
    approved_by: Seq<char>,
    stdout: Seq<char>,
    stderr: Seq<char>,
    r: HookExecutionReport,
) -> bool {
    let ok = exit_code == 0;
    &&& r.hook_id == hook.id && r.hook_name == hook.name && r.event == hook.event
    &&& r.trigger@ == trigger && r.command@ == command
    &&& r.ok == ok
    &&& r.exit_code == Some(exit_code)
    &&& r.duration_ms == Some(if duration_ms > u64::MAX {
        u64::MAX
    } else {
        duration_ms as u64
    })
    &&& opt_view(r.approved_by) == Some(approved_by)
    &&& (if ok {
        r.error_code is None && r.error is None
    } else {
        opt_view(r.error_code) == Some("tool"@) && opt_view(r.error) == Some(
            "command exited with status "@ + signed_decimal(exit_code as int),
        )
    })
    &&& opt_view(r.stdout) == Some(stdout) && opt_view(r.stderr) == Some(stderr)
}

/// The report of a hook whose command ran.
pub fn report_from_command(
    hook: &HookRecord,
    trigger: &str,
    command: String,
    exit_code: i32,
    duration_ms: u128,
    approved_by: String,
    stdout: String,
    stderr: String,
) -> (r: HookExecutionReport)
    ensures
        command_report(
            *hook,
            trigger@,
            command@,
            exit_code,
            duration_ms,
            approved_by@,
            stdout@,
            stderr@,
            r,
        ),
{
    let ok = exit_code == 0;
    let duration: u64 = if duration_ms > (u64::MAX as u128) {
        u64::MAX
    } else {
        duration_ms as u64
    };
    let (error_code, error) = if ok {
        (None, None)
    } else {
        let status = i64_to_string(exit_code as i64);
        (Some(owned("tool")), Some(cat("command exited with status ", status.as_str())))
    };
    HookExecutionReport {
        hook_id: hook.id.clone(),
        hook_name: hook.name.clone(),
        event: hook.event.clone(),
        trigger: owned(trigger),
        command,
        ok,
        exit_code: Some(exit_code),
        duration_ms: Some(duration),
        approved_by: Some(approved_by),
        error_code,
        error,
        stdout: Some(stdout),
        stderr: Some(stderr),
    }
}

/// The report of a hook whose command could not run: the error's code and
/// message, with the hook's own command.
pub fn report_from_failure(hook: &HookRecord, trigger: &str, code: String, message: String) -> (r:
    HookExecutionReport)
    ensures
        r.hook_id == hook.id && r.hook_name == hook.name && r.event == hook.event && r.command
            == hook.command,
        r.trigger@ == trigger@,
        !r.ok && r.exit_code is None && r.duration_ms is None && r.approved_by is None,
        opt_view(r.error_code) == Some(code@) && opt_view(r.error) == Some(message@),
        r.stdout is None && r.stderr is None,
{
    HookExecutionReport {
        hook_id: hook.id.clone(),
        hook_name: hook.name.clone(),
        event: hook.event.clone(),
        trigger: owned(trigger),
        command: hook.command.clone(),
        ok: false,
        exit_code: None,
        duration_ms: None,
        approved_by: None,
        error_code: Some(code),
        error: Some(message),
        stdout: None,
        stderr: None,
    }
}

/// The delivery status written for a run.
pub fn delivery_status(ok: bool) -> (s: &'static str)
    ensures
        s@ == if ok {
            "success"@
        } else {
            "failed"@
        },
{
    if ok {
        "success"
    } else {
        "failed"
    }
}

/// Records a run's report as the last result of the first hook with its
/// id, triggered at `now`; other hooks are unchanged.
pub fn apply_hook_last_result(
    hooks: &mut Vec<HookRecord>,
    hook_id: &str,
    report: &HookExecutionReport,
    now: i64,
)
    ensures
        final(hooks)@.len() == old(hooks)@.len(),
        !has_record(old(hooks)@, hook_id@) ==> final(hooks)@ == old(hooks)@,
        forall|i: int|
            first_record_at(old(hooks)@, hook_id@, i) ==> {
                let (a, b) = (old(hooks)@[i], final(hooks)@[i]);
                &&& forall|j: int| 0 <= j < old(hooks)@.len() && j != i ==> final(hooks)@[j] == old(
                    hooks,
                )@[j]
                &&& b.id == a.id && b.name == a.name && b.event == a.event && b.command == a.command
                &&& b.enabled == a.enabled && b.created_at == a.created_at
                &&& b.updated_at == now && b.last_triggered_at == Some(now)
                &&& b.last_result matches Some(l) && l.ok == report.ok && l.exit_code
                    == report.exit_code && l.duration_ms == report.duration_ms && l.approved_by
                    == report.approved_by && l.error_code == report.error_code && l.error
                    == report.error
            },
{
    match position_of(hooks, hook_id) {
        None => {},
        Some(i) => {
            let mut h = hooks.remove(i);
            h.updated_at = now;
            h.last_triggered_at = Some(now);
            h.last_result = Some(
                HookLastResult {
                    ok: report.ok,
                    exit_code: report.exit_code,
                    duration_ms: report.duration_ms,
                    approved_by: clone_opt(&report.approved_by),
                    error_code: clone_opt(&report.error_code),
                    error: clone_opt(&report.error),
                },
            );
            hooks.insert(i, h);
        },
    }
}

/// An error code that names an error kind.
pub open spec fn known_error_code(code: Seq<char>) -> bool {
    code == "config"@ || code == "auth"@ || code == "network"@ || code == "io"@ || code
        == "validation"@ || code == "gateway_unavailable"@ || code == "gateway_protocol"@ || code
        == "channel_unsupported"@ || code == "approval_required"@ || code == "sandbox_denied"@
}

/// `e` is the error of kind `code` with message `message`.
pub open spec fn coded_error(e: MosaicError, code: Seq<char>, message: Seq<char>) -> bool {
    if code == "config"@ {
        e matches MosaicError::Config(m) && m@ == message
    } else if code == "auth"@ {
        e matches MosaicError::Auth(m) && m@ == message
    } else if code == "network"@ {
        e matches MosaicError::Network(m) && m@ == message
    } else if code == "io"@ {
        e matches MosaicError::Io(m) && m@ == message
    } else if code == "validation"@ {
        e matches MosaicError::Validation(m) && m@ == message
    } else if code == "gateway_unavailable"@ {
        e matches MosaicError::GatewayUnavailable(m) && m@ == message
    } else if code == "gateway_protocol"@ {
        e matches MosaicError::GatewayProtocol(m) && m@ == message
    } else if code == "channel_unsupported"@ {
        e matches MosaicError::ChannelUnsupported(m) && m@ == message
    } else if code == "approval_required"@ {
        e matches MosaicError::ApprovalRequired(m) && m@ == message
    } else if code == "sandbox_denied"@ {
        e matches MosaicError::SandboxDenied(m) && m@ == message
    } else {
        false
    }
}

/// The error of the kind named by `code`, if it names one.
pub fn error_for_code(code: &str, message: String) -> (e: Option<MosaicError>)
    ensures
        match e {
            Some(e) => known_error_code(code@) && coded_error(e, code@, message@),
            None => !known_error_code(code@),
        },
{
    if str_eq(code, "config") {
        Some(MosaicError::Config(message))
    } else if str_eq(code, "auth") {
        Some(MosaicError::Auth(message))
    } else if str_eq(code, "network") {
        Some(MosaicError::Network(message))
    } else if str_eq(code, "io") {
        Some(MosaicError::Io(message))
    } else if str_eq(code, "validation") {
        Some(MosaicError::Validation(message))
    } else if str_eq(code, "gateway_unavailable") {
        Some(MosaicError::GatewayUnavailable(message))
    } else if str_eq(code, "gateway_protocol") {
        Some(MosaicError::GatewayProtocol(message))
    } else if str_eq(code, "channel_unsupported") {
        Some(MosaicError::ChannelUnsupported(message))
    } else if str_eq(code, "approval_required") {
        Some(MosaicError::ApprovalRequired(message))
    } else if str_eq(code, "sandbox_denied") {
        Some(MosaicError::SandboxDenied(message))
    } else {
        None
    }
}

/// The message of a failed run: its error, or that the run of `id` failed
/// (`prefix` names what ran, as in `hook '`).
pub open spec fn run_message(error: Option<Seq<char>>, prefix: Seq<char>, id: Seq<char>) -> Seq<
    char,
> {
    match error {
        Some(m) => m,
        None => prefix + id + "' execution failed"@,
    }
}

/// The error that a failed hook run reports: of the kind its error code
/// names; else a tool error, saying with which status the command exited
/// when it did.
pub open spec fn hook_error_is(e: MosaicError, hook_id: Seq<char>, report: HookExecutionReport) -> bool {
    let message = run_message(opt_view(report.error), "hook '"@, hook_id);
    let code = opt_view(report.error_code);
    if code is Some && known_error_code(code->0) {
        coded_error(e, code->0, message)
    } else {
        match report.exit_code {
            Some(c) => e matches MosaicError::Tool(m) && m@ == "hook '"@ + hook_id
                + "' exited with status "@ + signed_decimal(c as int),
            None => e matches MosaicError::Tool(m) && m@ == message,
        }
    }
}

/// The error that a failed hook run reports.
pub fn hook_execution_error(hook_id: &str, report: &HookExecutionReport) -> (e: MosaicError)
    ensures
        hook_error_is(e, hook_id@, *report),
{
    let message = match &report.error {
        Some(m) => m.clone(),
        None => cat3("hook '", hook_id, "' execution failed"),
    };
    if let Some(code) = &report.error_code {
        let mapped = error_for_code(code.as_str(), message.clone());
        if let Some(e) = mapped {
            return e;
        }
    }
    match report.exit_code {
        Some(c) => {
            let status = i64_to_string(c as i64);
            let head = cat3("hook '", hook_id, "' exited with status ");
            MosaicError::Tool(cat(head.as_str(), status.as_str()))
        },
        None => MosaicError::Tool(message),
    }
}

} // verus!
