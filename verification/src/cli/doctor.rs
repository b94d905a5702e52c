//! The checks `doctor` reports, built from what was found on disk, in the
//! environment and from the provider.
use vstd::prelude::*;
use crate::agents::catalog::AgentIntegrityReport;
use crate::plugins::policy::SandboxProfile;
use crate::text::{cat, decimal, owned, u64_to_string};

verus! {

/// One check: its name, whether it passed, and what it found.
#[derive(Debug, Clone)]
pub struct DoctorCheck {
    pub name: String,
    pub ok: bool,
    pub detail: String,
}

/// A check as plain values.
pub type CheckView = (Seq<char>, bool, Seq<char>);

impl DoctorCheck {
    pub open spec fn check_view(&self) -> CheckView {
        (self.name@, self.ok, self.detail@)
    }
}

/// The checks as plain values.
pub open spec fn check_views(s: Seq<DoctorCheck>) -> Seq<CheckView> {
    s.map_values(|c: DoctorCheck| c.check_view())
}

/// A check's status: `ok` when it passed, else `warn`.
pub open spec fn check_status(ok: bool) -> Seq<char> {
    if ok {
        "ok"@
    } else {
        "warn"@
    }
}

/// A check with a name, an outcome and a detail.
pub fn run_check(name: &str, ok: bool, detail: &str) -> (c: DoctorCheck)
    ensures
        c.check_view() == (name@, ok, detail@),
{
    DoctorCheck { name: owned(name), ok, detail: owned(detail) }
}

/// The status text of a check.
pub fn check_status_text(ok: bool) -> (s: &'static str)
    ensures
        s@ == check_status(ok),
{
    if ok {
        "ok"
    } else {
        "warn"
    }
}

/// How commands are approved.
#[derive(Debug, Clone, Copy, PartialEq, Eq, Structural)]
pub enum ApprovalMode {
    Deny,
    Confirm,
    Allowlist,
}

/// The name of an approval mode as `Debug` writes it.
pub open spec fn approval_mode_debug(m: ApprovalMode) -> Seq<char> {
    match m {
        ApprovalMode::Deny => "Deny"@,
        ApprovalMode::Confirm => "Confirm"@,
        ApprovalMode::Allowlist => "Allowlist"@,
    }
}

/// The name of a sandbox profile as `Debug` writes it.
pub open spec fn sandbox_profile_debug(p: SandboxProfile) -> Seq<char> {
    match p {
        SandboxProfile::Restricted => "Restricted"@,
        SandboxProfile::Standard => "Standard"@,
        SandboxProfile::Elevated => "Elevated"@,
    }
}

/// What the provider's health probe answered.
#[derive(Debug, Clone)]
pub struct ProviderHealth {
    pub ok: bool,
    pub detail: String,
}

/// What was found of the configuration: no file, or the environment
/// variable of the API key and, when that variable is set, the provider's
/// answer.
#[derive(Debug, Clone)]
pub enum ConfigFacts {
    Missing,
    Present { api_key_env: String, provider: Option<ProviderHealth> },
}

/// The approvals policy as loaded.
#[derive(Debug, Clone)]
pub struct ApprovalsFacts {
    pub mode: ApprovalMode,
    pub allowlist_size: usize,
    pub path: String,
}

/// The sandbox policy as loaded.
#[derive(Debug, Clone)]
pub struct SandboxFacts {
    pub profile: SandboxProfile,
    pub path: String,
}

/// The memory index's status.
#[derive(Debug, Clone)]
pub struct MemoryFacts {
    pub indexed_documents: usize,
    pub index_path: String,
}

/// The outcome of checking plugins or skills.
#[derive(Debug, Clone)]
pub struct CheckCounts {
    pub ok: bool,
    pub checked: usize,
    pub failed: usize,
}

/// The sizes of a security baseline's ignore lists.
#[derive(Debug, Clone)]
pub struct BaselineFacts {
    pub fingerprints: usize,
    pub categories: usize,
    pub paths: usize,
}

/// The summary of a security audit.
#[derive(Debug, Clone)]
pub struct AuditFacts {
    pub findings: usize,
    pub high: usize,
    pub medium: usize,
    pub low: usize,
    pub scanned_files: usize,
}

/// Everything `doctor` found, as plain values; each `Err` holds the text of
/// the error that stopped a look.
#[derive(Debug)]
pub struct DoctorFacts {
    pub config_exists: bool,
    pub state_writable: bool,
    pub rg_available: bool,
    pub config: ConfigFacts,
    pub channel_checks: Result<Vec<DoctorCheck>, String>,
    pub approvals: Result<ApprovalsFacts, String>,
    pub sandbox: Result<SandboxFacts, String>,
    pub memory: Result<MemoryFacts, String>,
    pub agents: Result<AgentIntegrityReport, String>,
    pub plugins: Result<CheckCounts, String>,
    pub skills: Result<CheckCounts, String>,
    pub baseline_path: String,
    pub baseline: Result<Option<BaselineFacts>, String>,
    pub audit: Result<AuditFacts, String>,
}

/// The checks of the configuration: the API key's variable, then the
/// provider's connectivity.
pub open spec fn config_checks(c: ConfigFacts) -> Seq<CheckView> {
    match c {
        ConfigFacts::Missing => Seq::<CheckView>::empty(),
        ConfigFacts::Present { api_key_env, provider } => {
            let found = provider is Some;
            seq![
                ("api_key_env"@, found, "environment variable "@ + api_key_env@ + " "@ + (if found {
                    "found"@
                } else {
                    "missing"@
                })),
                match provider {
                    Some(h) => ("provider_connectivity"@, h.ok, h.detail@),
                    None => ("provider_connectivity"@, false, "skipped because API key env is missing"@),
                },
            ]
        },
    }
}

/// The checks of the channels.
pub open spec fn channel_section(r: Result<Vec<DoctorCheck>, String>) -> Seq<CheckView> {
    match r {
        Ok(cs) => check_views(cs@),
        Err(e) => seq![("channels_file"@, false, "failed to inspect channels: "@ + e@)],
    }
}

pub open spec fn approvals_check(r: Result<ApprovalsFacts, String>) -> CheckView {
    match r {
        Ok(p) => (
            "approvals_policy"@,
            true,
            "mode="@ + approval_mode_debug(p.mode) + " allowlist_size="@ + decimal(
                p.allowlist_size as nat,
            ) + " path="@ + p.path@,
        ),
        Err(e) => ("approvals_policy"@, false, "failed to load approvals policy: "@ + e@),
    }
}

pub open spec fn sandbox_check(r: Result<SandboxFacts, String>) -> CheckView {
    match r {
        Ok(p) => (
            "sandbox_policy"@,
            true,
            "profile="@ + sandbox_profile_debug(p.profile) + " path="@ + p.path@,
        ),
        Err(e) => ("sandbox_policy"@, false, "failed to load sandbox policy: "@ + e@),
    }
}

pub open spec fn memory_check(r: Result<MemoryFacts, String>) -> CheckView {
    match r {
        Ok(m) => (
            "memory_index"@,
            true,
            "indexed_documents="@ + decimal(m.indexed_documents as nat) + " index_path="@
                + m.index_path@,
        ),
        Err(e) => ("memory_index"@, false, "failed to load memory status: "@ + e@),
    }
}

pub open spec fn agents_check(r: Result<AgentIntegrityReport, String>) -> CheckView {
    match r {
        Ok(a) => (
            "agents_integrity"@,
            a.ok,
            "agents="@ + decimal(a.agents_count as nat) + " routes="@ + decimal(
                a.routes_count as nat,
            ) + " default="@ + (match a.default_agent_id {
                Some(d) => d@,
                None => "-"@,
            }),
        ),
        Err(e) => ("agents_integrity"@, false, "failed to inspect agents: "@ + e@),
    }
}

pub open spec fn counts_check(name: Seq<char>, what: Seq<char>, r: Result<CheckCounts, String>) -> CheckView {
    match r {
        Ok(c) => (
            name,
            c.ok,
            "checked="@ + decimal(c.checked as nat) + " failed="@ + decimal(c.failed as nat),
        ),
        Err(e) => (name, false, "failed to run "@ + what + " checks: "@ + e@),
    }
}

pub open spec fn baseline_check(path: Seq<char>, r: Result<Option<BaselineFacts>, String>) -> CheckView {
    match r {
        Ok(Some(b)) => (
            "security_baseline"@,
            true,
            "path="@ + path + " fingerprints="@ + decimal(b.fingerprints as nat) + " categories="@
                + decimal(b.categories as nat) + " paths="@ + decimal(b.paths as nat),
        ),
        Ok(None) => ("security_baseline"@, true, "path="@ + path + " (not configured)"@),
        Err(e) => ("security_baseline"@, false, "failed to load security baseline: "@ + e@),
    }
}

pub open spec fn audit_check(r: Result<AuditFacts, String>) -> CheckView {
    match r {
        Ok(a) => (
            "security_audit"@,
            a.high == 0,
            "findings="@ + decimal(a.findings as nat) + " high="@ + decimal(a.high as nat)
                + " medium="@ + decimal(a.medium as nat) + " low="@ + decimal(a.low as nat)
                + " scanned="@ + decimal(a.scanned_files as nat),
        ),
        Err(e) => ("security_audit"@, false, "failed to run security audit: "@ + e@),
    }
}

/// The checks `doctor` reports for what it found, in order.
pub open spec fn doctor_list(f: DoctorFacts) -> Seq<CheckView> {
    seq![
        ("config_exists"@, f.config_exists, "config file presence"@),
        ("state_writable"@, f.state_writable, "state directories writable"@),
        ("rg_binary"@, f.rg_available, "ripgrep available for search_text tool"@),
    ] + config_checks(f.config) + channel_section(f.channel_checks) + seq![
        approvals_check(f.approvals),
        sandbox_check(f.sandbox),
        memory_check(f.memory),
        agents_check(f.agents),
        counts_check("plugins_check"@, "plugin"@, f.plugins),
        counts_check("skills_check"@, "skill"@, f.skills),
        baseline_check(f.baseline_path@, f.baseline),
        audit_check(f.audit),
    ]
}

fn num(n: usize) -> (out: String)
    ensures
        out@ == decimal(n as nat),
{
    u64_to_string(n as u64)
}

/// The name of an approval mode as `Debug` writes it.
pub fn approval_mode_name(m: ApprovalMode) -> (s: &'static str)
    ensures
        s@ == approval_mode_debug(m),
{
    match m {
        ApprovalMode::Deny => "Deny",
        ApprovalMode::Confirm => "Confirm",
        ApprovalMode::Allowlist => "Allowlist",
    }
}

/// The name of a sandbox profile as `Debug` writes it.
pub fn sandbox_profile_name(p: SandboxProfile) -> (s: &'static str)
    ensures
        s@ == sandbox_profile_debug(p),
{
    match p {
        SandboxProfile::Restricted => "Restricted",
        SandboxProfile::Standard => "Standard",
        SandboxProfile::Elevated => "Elevated",
    }
}

fn failed(name: &str, what: &str, e: &String) -> (c: DoctorCheck)
    ensures
        c.check_view() == (name@, false, what@ + e@),
{
    DoctorCheck { name: owned(name), ok: false, detail: cat(what, e.as_str()) }
}

fn push_config_checks(out: &mut Vec<DoctorCheck>, c: &ConfigFacts)
    ensures
        check_views(final(out)@) == check_views(old(out)@) + config_checks(*c),
{
    let ghost before = out@;
    match c {
        ConfigFacts::Missing => {
            assert(check_views(out@) =~= check_views(before) + config_checks(*c));
        },
        ConfigFacts::Present { api_key_env, provider } => {
            let found = provider.is_some();
            let mut d = cat("environment variable ", api_key_env.as_str());
            d.append(" ");
            d.append(if found { "found" } else { "missing" });
            out.push(DoctorCheck { name: owned("api_key_env"), ok: found, detail: d });
            match provider {
                Some(h) => out.push(
                    DoctorCheck { name: owned("provider_connectivity"), ok: h.ok, detail: h.detail.clone() },
                ),
                None => out.push(
                    run_check("provider_connectivity", false, "skipped because API key env is missing"),
                ),
            }
            assert(check_views(out@) =~= check_views(before) + config_checks(*c));
        },
    }
}

fn push_channel_checks(out: &mut Vec<DoctorCheck>, r: &Result<Vec<DoctorCheck>, String>)
    ensures
        check_views(final(out)@) == check_views(old(out)@) + channel_section(*r),
{
    let ghost before = out@;
    match r {
        Ok(cs) => {
            let mut i: usize = 0;
            while i < cs.len()
                invariant
                    i <= cs.len(),
                    check_views(out@) == check_views(before) + check_views(cs@.take(i as int)),
                decreases cs.len() - i,
            {
                let c = DoctorCheck { name: cs[i].name.clone(), ok: cs[i].ok, detail: cs[i].detail.clone() };
                assert(c.check_view() == cs@[i as int].check_view());
                let ghost prev = out@;
                out.push(c);
                assert(check_views(out@) =~= check_views(prev).push(c.check_view()));
                assert(check_views(cs@.take(i + 1)) =~= check_views(cs@.take(i as int)).push(cs@[i as int].check_view()));
                i += 1;
            }
            assert(cs@.take(cs.len() as int) =~= cs@);
        },
        Err(e) => {
            out.push(failed("channels_file", "failed to inspect channels: ", e));
            assert(check_views(out@) =~= check_views(before) + channel_section(*r));
        },
    }
}

fn approvals_entry(r: &Result<ApprovalsFacts, String>) -> (c: DoctorCheck)
    ensures
        c.check_view() == approvals_check(*r),
{
    match r {
        Ok(p) => {
            let mut d = cat("mode=", approval_mode_name(p.mode));
            d.append(" allowlist_size=");
            d.append(num(p.allowlist_size).as_str());
            d.append(" path=");
            d.append(p.path.as_str());
            DoctorCheck { name: owned("approvals_policy"), ok: true, detail: d }
        },
        Err(e) => failed("approvals_policy", "failed to load approvals policy: ", e),
    }
}

fn sandbox_entry(r: &Result<SandboxFacts, String>) -> (c: DoctorCheck)
    ensures
        c.check_view() == sandbox_check(*r),
{
    match r {
        Ok(p) => {
            let mut d = cat("profile=", sandbox_profile_name(p.profile));
            d.append(" path=");
            d.append(p.path.as_str());
            DoctorCheck { name: owned("sandbox_policy"), ok: true, detail: d }
        },
        Err(e) => failed("sandbox_policy", "failed to load sandbox policy: ", e),
    }
}

fn memory_entry(r: &Result<MemoryFacts, String>) -> (c: DoctorCheck)
    ensures
        c.check_view() == memory_check(*r),
{
    match r {
        Ok(m) => {
            let mut d = cat("indexed_documents=", num(m.indexed_documents).as_str());
            d.append(" index_path=");
            d.append(m.index_path.as_str());
            DoctorCheck { name: owned("memory_index"), ok: true, detail: d }
        },
        Err(e) => failed("memory_index", "failed to load memory status: ", e),
    }
}

fn agents_entry(r: &Result<AgentIntegrityReport, String>) -> (c: DoctorCheck)
    ensures
        c.check_view() == agents_check(*r),
{
    match r {
        Ok(a) => {
            let mut d = cat("agents=", num(a.agents_count).as_str());
            d.append(" routes=");
            d.append(num(a.routes_count).as_str());
            d.append(" default=");
            match &a.default_agent_id {
                Some(id) => d.append(id.as_str()),
                None => {
                    proof {
                        reveal_strlit("-");
                    }
                    d.append("-")
                },
            }
            DoctorCheck { name: owned("agents_integrity"), ok: a.ok, detail: d }
        },
        Err(e) => failed("agents_integrity", "failed to inspect agents: ", e),
    }
}

fn counts_entry(name: &str, what: &str, r: &Result<CheckCounts, String>) -> (c: DoctorCheck)
    ensures
        c.check_view() == counts_check(name@, what@, *r),
{
    match r {
        Ok(k) => {
            let mut d = cat("checked=", num(k.checked).as_str());
            d.append(" failed=");
            d.append(num(k.failed).as_str());
            DoctorCheck { name: owned(name), ok: k.ok, detail: d }
        },
        Err(e) => {
            let mut d = cat("failed to run ", what);
            d.append(" checks: ");
            d.append(e.as_str());
            DoctorCheck { name: owned(name), ok: false, detail: d }
        },
    }
}

fn baseline_entry(path: &String, r: &Result<Option<BaselineFacts>, String>) -> (c: DoctorCheck)
    ensures
        c.check_view() == baseline_check(path@, *r),
{
    match r {
        Ok(Some(b)) => {
            let mut d = cat("path=", path.as_str());
            d.append(" fingerprints=");
            d.append(num(b.fingerprints).as_str());
            d.append(" categories=");
            d.append(num(b.categories).as_str());
            d.append(" paths=");
            d.append(num(b.paths).as_str());
            DoctorCheck { name: owned("security_baseline"), ok: true, detail: d }
        },
        Ok(None) => {
            let mut d = cat("path=", path.as_str());
            d.append(" (not configured)");
            DoctorCheck { name: owned("security_baseline"), ok: true, detail: d }
        },
        Err(e) => failed("security_baseline", "failed to load security baseline: ", e),
    }
}

fn audit_entry(r: &Result<AuditFacts, String>) -> (c: DoctorCheck)
    ensures
        c.check_view() == audit_check(*r),
{
    match r {
        Ok(a) => {
            let mut d = cat("findings=", num(a.findings).as_str());
            d.append(" high=");
            d.append(num(a.high).as_str());
            d.append(" medium=");
            d.append(num(a.medium).as_str());
            d.append(" low=");
            d.append(num(a.low).as_str());
            d.append(" scanned=");
            d.append(num(a.scanned_files).as_str());
            DoctorCheck { name: owned("security_audit"), ok: a.high == 0, detail: d }
        },
        Err(e) => failed("security_audit", "failed to run security audit: ", e),
    }
}

/// The checks `doctor` reports for what it found: the configuration and
/// state, the channels, the policies, the memory index, the agents, the
/// extensions and the security baseline and audit, in that order.
pub fn collect_doctor_checks(facts: &DoctorFacts) -> (out: Vec<DoctorCheck>)
    ensures
        check_views(out@) == doctor_list(*facts),
{
    let mut out: Vec<DoctorCheck> = Vec::new();
    out.push(run_check("config_exists", facts.config_exists, "config file presence"));
    out.push(run_check("state_writable", facts.state_writable, "state directories writable"));
    out.push(run_check("rg_binary", facts.rg_available, "ripgrep available for search_text tool"));
    let ghost head = check_views(out@);
    assert(head =~= seq![
        ("config_exists"@, facts.config_exists, "config file presence"@),
        ("state_writable"@, facts.state_writable, "state directories writable"@),
        ("rg_binary"@, facts.rg_available, "ripgrep available for search_text tool"@),
    ]);
    push_config_checks(&mut out, &facts.config);
    push_channel_checks(&mut out, &facts.channel_checks);
    let ghost mid = check_views(out@);
    out.push(approvals_entry(&facts.approvals));
    out.push(sandbox_entry(&facts.sandbox));
    out.push(memory_entry(&facts.memory));
    out.push(agents_entry(&facts.agents));
    out.push(counts_entry("plugins_check", "plugin", &facts.plugins));
    out.push(counts_entry("skills_check", "skill", &facts.skills));
    out.push(baseline_entry(&facts.baseline_path, &facts.baseline));
    out.push(audit_entry(&facts.audit));
    assert(check_views(out@) =~= mid + seq![
        approvals_check(facts.approvals),
        sandbox_check(facts.sandbox),
        memory_check(facts.memory),
        agents_check(facts.agents),
        counts_check("plugins_check"@, "plugin"@, facts.plugins),
        counts_check("skills_check"@, "skill"@, facts.skills),
        baseline_check(facts.baseline_path@, facts.baseline),
        audit_check(facts.audit),
    ]);
    out
}

/// The line a check prints: `[OK]` or `[WARN]`, its name and its detail.
pub open spec fn check_line_text(c: CheckView) -> Seq<char> {
    "["@ + (if c.1 {
        "OK"@
    } else {
        "WARN"@
    }) + "] "@ + c.0 + ": "@ + c.2
}

/// The line a check prints.
pub fn check_line(check: &DoctorCheck) -> (out: String)
    ensures
        out@ == check_line_text(check.check_view()),
{
    let mut out = cat("[", if check.ok {
        "OK"
    } else {
        "WARN"
    });
    out.append("] ");
    out.append(check.name.as_str());
    out.append(": ");
    out.append(check.detail.as_str());
    out
}

/// What `health` found: whether the state directories could be made and
/// written, and, when a configuration exists, the provider's answer and how
/// long it took.
#[derive(Debug, Clone)]
pub struct HealthFacts {
    pub state_dirs_ready: bool,
    pub state_writable: bool,
    pub provider: Option<(ProviderHealth, Option<u64>)>,
}

/// The checks `health` reports.
pub open spec fn health_list(f: HealthFacts) -> Seq<CheckView> {
    seq![
        ("state_dirs"@, f.state_dirs_ready, "state paths ready"@),
        ("state_writable"@, f.state_writable, "state paths writable"@),
    ] + match f.provider {
        Some((h, latency)) => seq![
            ("config"@, true, "config valid"@),
            ("provider"@, h.ok, h.detail@ + " (latency="@ + decimal(
                (match latency {
                    Some(ms) => ms,
                    None => 0,
                }) as nat,
            ) + "ms)"@),
        ],
        None => seq![("config"@, false, "run `mosaic setup` first"@)],
    }
}

/// The checks `health` reports for what it found.
pub fn collect_health_checks(facts: &HealthFacts) -> (out: Vec<DoctorCheck>)
    ensures
        check_views(out@) == health_list(*facts),
{
    let mut out: Vec<DoctorCheck> = Vec::new();
    out.push(run_check("state_dirs", facts.state_dirs_ready, "state paths ready"));
    out.push(run_check("state_writable", facts.state_writable, "state paths writable"));
    match &facts.provider {
        Some((h, latency)) => {
            out.push(run_check("config", true, "config valid"));
            let ms = match latency {
                Some(ms) => *ms,
                None => 0,
            };
            let mut d = cat(h.detail.as_str(), " (latency=");
            d.append(u64_to_string(ms).as_str());
            d.append("ms)");
            out.push(DoctorCheck { name: owned("provider"), ok: h.ok, detail: d });
        },
        None => {
            out.push(run_check("config", false, "run `mosaic setup` first"));
        },
    }
    assert(check_views(out@) =~= health_list(*facts));
    out
}

} // verus!
