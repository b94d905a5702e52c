//! Webhooks: routes (a method and a path) that fire an event, the secret
//! that guards them and the reports of their runs.
//!
//! Times are Unix timestamps in milliseconds.
use vstd::prelude::*;
use crate::automation::cron::{count_ok, count_successes, failed_hooks_error, failed_hooks_message};
use crate::automation::hooks::{coded_error, error_for_code, known_error_code, run_message};
use crate::automation::registry::{Identified, Subscribed, first_record_at, has_record, position_of};
use crate::error::{MosaicError, auth_error, fails_with};
use crate::text::{
    cat, cat3, cat5, chars_of, is_ascii_alnum, is_ascii_alpha, opt_view, owned, str_eq, string_of,
    trim, trim_chars, trim_str,
};

verus! {

/// The HTTP method of a webhook.
#[derive(Debug, Clone, Copy, PartialEq, Eq, Structural)]
pub enum WebhookMethod {
    Get,
    Post,
    Put,
    Patch,
    Delete,
}

/// The name of a method, in upper case.
pub open spec fn method_label(m: WebhookMethod) -> Seq<char> {
    match m {
        WebhookMethod::Get => "GET"@,
        WebhookMethod::Post => "POST"@,
        WebhookMethod::Put => "PUT"@,
        WebhookMethod::Patch => "PATCH"@,
        WebhookMethod::Delete => "DELETE"@,
    }
}

/// The name of a method, in upper case.
pub fn method_name(m: WebhookMethod) -> (s: &'static str)
    ensures
        s@ == method_label(m),
{
    match m {
        WebhookMethod::Get => "GET",
        WebhookMethod::Post => "POST",
        WebhookMethod::Put => "PUT",
        WebhookMethod::Patch => "PATCH",
        WebhookMethod::Delete => "DELETE",
    }
}

/// What a webhook's last run gave.
#[derive(Debug)]
pub struct WebhookLastResult {
    pub ok: bool,
    pub hooks_triggered: usize,
    pub hooks_ok: usize,
    pub hooks_failed: usize,
    pub error_code: Option<String>,
    pub error: Option<String>,
}

/// A webhook.
#[derive(Debug)]
pub struct WebhookRecord {
    pub id: String,
    pub name: String,
    pub event: String,
    pub path: String,
    pub method: WebhookMethod,
    pub secret_env: Option<String>,
    pub enabled: bool,
    pub created_at: i64,
    pub updated_at: i64,
    pub last_triggered_at: Option<i64>,
    pub last_result: Option<WebhookLastResult>,
}

impl Identified for WebhookRecord {
    open spec fn id_view(&self) -> Seq<char> {
        self.id@
    }

    fn id_str(&self) -> (s: &str) {
        self.id.as_str()
    }
}

impl Subscribed for WebhookRecord {
    open spec fn event_view(&self) -> Seq<char> {
        self.event@
    }

    fn event_str(&self) -> (s: &str) {
        self.event.as_str()
    }
}

/// What running a webhook reported.
#[derive(Debug)]
pub struct WebhookExecutionReport {
    pub webhook_id: String,
    pub webhook_name: String,
    pub trigger: String,
    pub event: String,
    pub path: String,
    pub method: WebhookMethod,
    pub ok: bool,
    pub hooks_triggered: usize,
    pub hooks_ok: usize,
    pub hooks_failed: usize,
    pub error_code: Option<String>,
    pub error: Option<String>,
}

/// A name of an environment variable: an ASCII letter or `_`, then ASCII
/// letters, digits and `_`.
pub open spec fn valid_env_name(name: Seq<char>) -> bool {
    &&& name.len() > 0
    &&& (name[0] == '_' || is_ascii_alpha(name[0]))
    &&& forall|i: int| 1 <= i < name.len() ==> (#[trigger] name[i]) == '_' || is_ascii_alnum(name[i])
}

fn valid_env_chars(v: &Vec<char>) -> (b: bool)
    ensures
        b == valid_env_name(v@),
{
    if v.len() == 0 {
        return false;
    }
    let first = v[0];
    if !(first == '_' || ('a' <= first && first <= 'z') || ('A' <= first && first <= 'Z')) {
        return false;
    }
    let mut i: usize = 1;
    while i < v.len()
        invariant
            1 <= i <= v.len(),
            forall|j: int| 1 <= j < i ==> (#[trigger] v@[j]) == '_' || is_ascii_alnum(v@[j]),
        decreases v.len() - i,
    {
        let c = v[i];
        if !(c == '_' || ('a' <= c && c <= 'z') || ('A' <= c && c <= 'Z') || ('0' <= c && c
            <= '9')) {
            return false;
        }
        i += 1;
    }
    true
}

/// Whether `name` can name an environment variable.
pub fn is_valid_env_name(name: &str) -> (b: bool)
    ensures
        b == valid_env_name(name@),
{
    valid_env_chars(&chars_of(name))
}

/// What checking a webhook path yields: the trimmed path with a leading
/// `/`, or the message of the validation error.
pub open spec fn webhook_path_check(path: Seq<char>) -> Result<Seq<char>, Seq<char>> {
    let p = trim(path);
    if p.len() == 0 {
        Err("webhook path cannot be empty"@)
    } else if p.contains(' ') || p.contains('\t') || p.contains('\n') || p.contains('\r') {
        Err("webhook path cannot contain whitespace"@)
    } else if p[0] == '/' {
        Ok(p)
    } else {
        Ok("/"@ + p)
    }
}

fn has_blank_char(v: &Vec<char>) -> (b: bool)
    ensures
        b == (v@.contains(' ') || v@.contains('\t') || v@.contains('\n') || v@.contains('\r')),
{
    let mut i: usize = 0;
    while i < v.len()
        invariant
            i <= v.len(),
            forall|j: int| 0 <= j < i ==> (#[trigger] v@[j]) != ' ' && v@[j] != '\t' && v@[j] != '\n'
                && v@[j] != '\r',
        decreases v.len() - i,
    {
        let c = v[i];
        if c == ' ' || c == '\t' || c == '\n' || c == '\r' {
            assert(v@[i as int] == c);
            return true;
        }
        i += 1;
    }
    false
}

/// Checks a webhook path and makes it start with `/`.
pub fn normalize_webhook_path(path: &str) -> (out: Result<String, MosaicError>)
    ensures
        match webhook_path_check(path@) {
            Ok(p) => out matches Ok(s) && s@ == p,
            Err(m) => fails_with(out, m),
        },
{
    let v = trim_chars(&chars_of(path));
    if v.len() == 0 {
        return Err(MosaicError::Validation(owned("webhook path cannot be empty")));
    }
    if has_blank_char(&v) {
        return Err(MosaicError::Validation(owned("webhook path cannot contain whitespace")));
    }
    let p = string_of(v.as_slice());
    if v[0] == '/' {
        Ok(p)
    } else {
        proof {
            reveal_strlit("/");
        }
        Ok(cat("/", p.as_str()))
    }
}

/// What checking an optional secret variable yields.
pub open spec fn secret_env_check(secret_env: Option<Seq<char>>) -> Result<
    Option<Seq<char>>,
    Seq<char>,
> {
    match secret_env {
        None => Ok(None),
        Some(v) => {
            let t = trim(v);
            if t.len() == 0 {
                Err("webhook secret env cannot be empty"@)
            } else if !valid_env_name(t) {
                Err("invalid webhook secret env '"@ + t + "'"@)
            } else {
                Ok(Some(t))
            }
        },
    }
}

/// Checks the name of the variable that holds a webhook's secret.
pub fn normalize_optional_secret_env(secret_env: Option<String>) -> (out: Result<
    Option<String>,
    MosaicError,
>)
    ensures
        match secret_env_check(opt_view(secret_env)) {
            Ok(v) => out matches Ok(o) && opt_view(o) == v,
            Err(m) => fails_with(out, m),
        },
{
    match secret_env {
        None => Ok(None),
        Some(value) => {
            let t = trim_str(value.as_str());
            if t.as_str().is_empty() {
                return Err(MosaicError::Validation(owned("webhook secret env cannot be empty")));
            }
            if !is_valid_env_name(t.as_str()) {
                return Err(
                    MosaicError::Validation(cat3("invalid webhook secret env '", t.as_str(), "'")),
                );
            }
            Ok(Some(t))
        },
    }
}

/// What adding a webhook yields.
pub open spec fn webhook_added(
    name: Seq<char>,
    event: Seq<char>,
    path: Seq<char>,
    method: WebhookMethod,
    secret_env: Option<Seq<char>>,
    disabled: bool,
    id: Seq<char>,
    now: i64,
    out: Result<WebhookRecord, MosaicError>,
) -> bool {
    if trim(name).len() == 0 {
        fails_with(out, "webhook name cannot be empty"@)
    } else if trim(event).len() == 0 {
        fails_with(out, "webhook event cannot be empty"@)
    } else {
        match webhook_path_check(path) {
            Err(m) => fails_with(out, m),
            Ok(p) => match secret_env_check(secret_env) {
                Err(m) => fails_with(out, m),
                Ok(env) => out matches Ok(w) && w.id@ == id && w.name@ == trim(name) && w.event@
                    == trim(event) && w.path@ == p && w.method == method && opt_view(w.secret_env)
                    == env && w.enabled == !disabled && w.created_at == now && w.updated_at == now
                    && w.last_triggered_at is None && w.last_result is None,
            },
        }
    }
}

/// A new webhook with the given id, created at `now`.
pub fn new_webhook(
    name: &str,
    event: &str,
    path: &str,
    method: WebhookMethod,
    secret_env: Option<String>,
    disabled: bool,
    id: String,
    now: i64,
) -> (out: Result<WebhookRecord, MosaicError>)
    ensures
        webhook_added(name@, event@, path@, method, opt_view(secret_env), disabled, id@, now, out),
{
    let name = trim_str(name);
    if name.as_str().is_empty() {
        return Err(MosaicError::Validation(owned("webhook name cannot be empty")));
    }
    let event = trim_str(event);
    if event.as_str().is_empty() {
        return Err(MosaicError::Validation(owned("webhook event cannot be empty")));
    }
    let path = match normalize_webhook_path(path) {
        Ok(p) => p,
        Err(e) => return Err(e),
    };
    let secret_env = match normalize_optional_secret_env(secret_env) {
        Ok(s) => s,
        Err(e) => return Err(e),
    };
    Ok(
        WebhookRecord {
            id,
            name,
            event,
            path,
            method,
            secret_env,
            enabled: !disabled,
            created_at: now,
            updated_at: now,
            last_triggered_at: None,
            last_result: None,
        },
    )
}

/// The message for a webhook id that matches no webhook.
pub open spec fn webhook_not_found(id: Seq<char>) -> Seq<char> {
    "webhook '"@ + id + "' not found"@
}

/// The position of the first webhook with the given id.
pub fn find_webhook(webhooks: &Vec<WebhookRecord>, id: &str) -> (out: Result<usize, MosaicError>)
    ensures
        match out {
            Ok(i) => first_record_at(webhooks@, id@, i as int),
            Err(e) => !has_record(webhooks@, id@) && fails_with(
                Err::<(), MosaicError>(e),
                webhook_not_found(id@),
            ),
        },
{
    match position_of(webhooks, id) {
        Some(i) => Ok(i),
        None => Err(MosaicError::Validation(cat3("webhook '", id, "' not found"))),
    }
}

/// Enables or disables the first webhook with the given id, at `now`.
pub fn set_webhook_enabled(webhooks: &mut Vec<WebhookRecord>, id: &str, enabled: bool, now: i64) -> (out:
    Result<usize, MosaicError>)
    ensures
        match out {
            Ok(i) => first_record_at(old(webhooks)@, id@, i as int) && final(webhooks)@.len() == old(
                webhooks,
            )@.len() && (forall|j: int|
                0 <= j < old(webhooks)@.len() && j != i ==> final(webhooks)@[j] == old(webhooks)@[j])
                && ({
                let (a, b) = (old(webhooks)@[i as int], final(webhooks)@[i as int]);
                &&& b.enabled == enabled && b.updated_at == now
                &&& b.id == a.id && b.name == a.name && b.event == a.event && b.path == a.path
                &&& b.method == a.method && b.secret_env == a.secret_env
                &&& b.created_at == a.created_at && b.last_triggered_at == a.last_triggered_at
                &&& b.last_result == a.last_result
            }),
            Err(e) => final(webhooks)@ == old(webhooks)@ && !has_record(old(webhooks)@, id@)
                && fails_with(Err::<(), MosaicError>(e), webhook_not_found(id@)),
        },
{
    let i = match find_webhook(webhooks, id) {
        Ok(i) => i,
        Err(e) => return Err(e),
    };
    let mut w = webhooks.remove(i);
    w.enabled = enabled;
    w.updated_at = now;
    webhooks.insert(i, w);
    Ok(i)
}

/// The webhook that a request with this path and method reaches: the first
/// enabled one with the checked path and the method.
pub fn resolve_webhook(webhooks: &Vec<WebhookRecord>, path: &str, method: WebhookMethod) -> (out:
    Result<usize, MosaicError>)
    ensures
        match webhook_path_check(path@) {
            Err(m) => fails_with(out, m),
            Ok(p) => match out {
                Ok(i) => i < webhooks@.len() && webhooks@[i as int].enabled && webhooks@[i as int].path@
                    == p && webhooks@[i as int].method == method && forall|j: int|
                    0 <= j < i ==> !((#[trigger] webhooks@[j]).enabled && webhooks@[j].path@ == p
                        && webhooks@[j].method == method),
                Err(e) => (forall|j: int|
                    0 <= j < webhooks@.len() ==> !((#[trigger] webhooks@[j]).enabled
                        && webhooks@[j].path@ == p && webhooks@[j].method == method)) && fails_with(
                    Err::<(), MosaicError>(e),
                    "no enabled webhook matched "@ + method_label(method) + " "@ + p,
                ),
            },
        },
{
    let p = match normalize_webhook_path(path) {
        Ok(p) => p,
        Err(e) => return Err(e),
    };
    assert(webhook_path_check(path@) == Ok::<Seq<char>, Seq<char>>(p@));
    let mut i: usize = 0;
    while i < webhooks.len()
        invariant
            i <= webhooks.len(),
            webhook_path_check(path@) == Ok::<Seq<char>, Seq<char>>(p@),
            forall|j: int|
                0 <= j < i ==> !((#[trigger] webhooks@[j]).enabled && webhooks@[j].path@ == p@
                    && webhooks@[j].method == method),
        decreases webhooks.len() - i,
    {
        let w = &webhooks[i];
        let same_method = w.method == method;
        if w.enabled && str_eq(w.path.as_str(), p.as_str()) && same_method {
            return Ok(i);
        }
        i += 1;
    }
    Err(
        MosaicError::Validation(
            cat3(
                cat("no enabled webhook matched ", method_name(method)).as_str(),
                " ",
                p.as_str(),
            ),
        ),
    )
}

/// What checking the secret of a request to `webhook` yields, given the
/// value of its secret variable (none when unset) and the secret the request
/// gave.  All errors are authentication errors; this is their message.
pub open spec fn secret_check(
    webhook: WebhookRecord,
    secret_value: Option<Seq<char>>,
    provided: Option<Seq<char>>,
) -> Result<(), Seq<char>> {
    match webhook.secret_env {
        None => Ok(()),
        Some(env) => match secret_value {
            None => Err("webhook '"@ + webhook.id@ + "' requires secret env '"@ + env@
                + "' to be set"@),
            Some(expected) => if expected.len() == 0 {
                Err("webhook '"@ + webhook.id@ + "' secret env '"@ + env@ + "' is empty"@)
            } else {
                match provided {
                    None => Err("webhook '"@ + webhook.id@ + "' requires --secret to trigger"@),
                    Some(p) => if p != expected {
                        Err("webhook '"@ + webhook.id@ + "' secret mismatch"@)
                    } else {
                        Ok(())
                    },
                }
            },
        },
    }
}

/// Checks the secret of a request to `webhook`; `secret_value` is the value
/// of its secret variable, none when the variable is unset.
pub fn verify_webhook_secret(
    webhook: &WebhookRecord,
    secret_value: Option<String>,
    provided_secret: Option<&str>,
) -> (out: Result<(), MosaicError>)
    ensures
        match secret_check(
            *webhook,
            opt_view(secret_value),
            match provided_secret {
                Some(p) => Some(p@),
                None => None,
            },
        ) {
            Ok(_) => out is Ok,
            Err(m) => out matches Err(e) && auth_error(e, m),
        },
{
    let env = match &webhook.secret_env {
        None => return Ok(()),
        Some(env) => env,
    };
    let expected = match secret_value {
        None => {
            return Err(
                MosaicError::Auth(
                    cat5(
                        "webhook '",
                        webhook.id.as_str(),
                        "' requires secret env '",
                        env.as_str(),
                        "' to be set",
                    ),
                ),
            );
        },
        Some(v) => v,
    };
    if expected.as_str().is_empty() {
        return Err(
            MosaicError::Auth(
                cat5("webhook '", webhook.id.as_str(), "' secret env '", env.as_str(), "' is empty"),
            ),
        );
    }
    let provided = match provided_secret {
        None => {
            return Err(
                MosaicError::Auth(
                    cat3("webhook '", webhook.id.as_str(), "' requires --secret to trigger"),
                ),
            );
        },
        Some(p) => p,
    };
    if !str_eq(provided, expected.as_str()) {
        return Err(MosaicError::Auth(cat3("webhook '", webhook.id.as_str(), "' secret mismatch")));
    }
    Ok(())
}

/// The report of a webhook run whose event fired the hooks with these
/// outcomes: it succeeded when no hook failed, else it failed with code
/// `tool`.
pub fn webhook_report_from_hooks(webhook: &WebhookRecord, trigger: &str, hook_oks: &Vec<bool>) -> (r:
    WebhookExecutionReport)
    ensures
        r.webhook_id == webhook.id && r.webhook_name == webhook.name && r.event == webhook.event,
        r.path == webhook.path && r.method == webhook.method,
        r.trigger@ == trigger@,
        r.hooks_triggered == hook_oks@.len(),
        r.hooks_ok == count_ok(hook_oks@),
        r.hooks_failed == hook_oks@.len() - count_ok(hook_oks@),
        r.ok == (r.hooks_failed == 0),
        r.hooks_failed == 0 ==> r.error is None && r.error_code is None,
        r.hooks_failed > 0 ==> opt_view(r.error) == Some(failed_hooks_message(r.hooks_failed as nat))
            && opt_view(r.error_code) == Some("tool"@),
{
    let triggered = hook_oks.len();
    let ok = count_successes(hook_oks);
    let failed = triggered - ok;
    WebhookExecutionReport {
        webhook_id: webhook.id.clone(),
        webhook_name: webhook.name.clone(),
        trigger: owned(trigger),
        event: webhook.event.clone(),
        path: webhook.path.clone(),
        method: webhook.method,
        ok: failed == 0,
        hooks_triggered: triggered,
        hooks_ok: ok,
        hooks_failed: failed,
        error_code: if failed == 0 {
            None
        } else {
            Some(owned("tool"))
        },
        error: failed_hooks_error(failed),
    }
}

/// The report of a webhook run that failed before its event fired: the
/// error's code and message.
pub fn webhook_report_from_error(webhook: &WebhookRecord, trigger: &str, error: &MosaicError) -> (r:
    WebhookExecutionReport)
    ensures
        r.webhook_id == webhook.id && r.webhook_name == webhook.name && r.event == webhook.event,
        r.path == webhook.path && r.method == webhook.method,
        r.trigger@ == trigger@,
        !r.ok && r.hooks_triggered == 0 && r.hooks_ok == 0 && r.hooks_failed == 0,
        opt_view(r.error_code) == Some(error.code_spec()),
        opt_view(r.error) == Some(error.message()),
{
    WebhookExecutionReport {
        webhook_id: webhook.id.clone(),
        webhook_name: webhook.name.clone(),
        trigger: owned(trigger),
        event: webhook.event.clone(),
        path: webhook.path.clone(),
        method: webhook.method,
        ok: false,
        hooks_triggered: 0,
        hooks_ok: 0,
        hooks_failed: 0,
        error_code: Some(owned(error.code())),
        error: Some(error.message_text()),
    }
}

/// Records a run's report as the webhook's last result, triggered at `now`.
pub fn apply_webhook_last_result(webhook: &mut WebhookRecord, report: &WebhookExecutionReport, now: i64)
    ensures
        final(webhook).updated_at == now,
        final(webhook).last_triggered_at == Some(now),
        final(webhook).last_result matches Some(l) && l.ok == report.ok && l.hooks_triggered
            == report.hooks_triggered && l.hooks_ok == report.hooks_ok && l.hooks_failed
            == report.hooks_failed && l.error_code == report.error_code && l.error == report.error,
        final(webhook).id == old(webhook).id,
        final(webhook).name == old(webhook).name,
        final(webhook).event == old(webhook).event,
        final(webhook).path == old(webhook).path,
        final(webhook).method == old(webhook).method,
        final(webhook).secret_env == old(webhook).secret_env,
        final(webhook).enabled == old(webhook).enabled,
        final(webhook).created_at == old(webhook).created_at,
{
    webhook.updated_at = now;
    webhook.last_triggered_at = Some(now);
    webhook.last_result = Some(
        WebhookLastResult {
            ok: report.ok,
            hooks_triggered: report.hooks_triggered,
            hooks_ok: report.hooks_ok,
            hooks_failed: report.hooks_failed,
            error_code: crate::channels::store::clone_opt_string(&report.error_code),
            error: crate::channels::store::clone_opt_string(&report.error),
        },
    );
}

/// The error that a failed webhook run reports: of the kind its error code
/// names, else a tool error.
pub open spec fn webhook_error_is(
    e: MosaicError,
    webhook_id: Seq<char>,
    report: WebhookExecutionReport,
) -> bool {
    let message = run_message(opt_view(report.error), "webhook '"@, webhook_id);
    let code = opt_view(report.error_code);
    if code is Some && known_error_code(code->0) {
        coded_error(e, code->0, message)
    } else {
        e matches MosaicError::Tool(m) && m@ == message
    }
}

/// The error that a failed webhook run reports.
pub fn webhook_execution_error(webhook_id: &str, report: &WebhookExecutionReport) -> (e: MosaicError)
    ensures
        webhook_error_is(e, webhook_id@, *report),
{
    let message = match &report.error {
        Some(m) => m.clone(),
        None => cat3("webhook '", webhook_id, "' execution failed"),
    };
    if let Some(code) = &report.error_code {
        let mapped = error_for_code(code.as_str(), message.clone());
        if let Some(e) = mapped {
            return e;
        }
    }
    MosaicError::Tool(message)
}

} // verus!
