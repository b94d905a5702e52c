//! Replaying failed automation runs (hooks, cron jobs, webhooks): why a run
//! failed, which failures are picked for replay, how they are split into
//! batches, what the selection suggests, and the bookkeeping of applying it.
use vstd::prelude::*;
use crate::error::MosaicError;
use crate::sorting::{sorted_distinct_texts, sorted_set_of, views};
use crate::text::{
    cat, cat5, contains_sub, opt_view, str_contains, str_eq, to_lowercase, lowercase,
};

verus! {

/// A reason for which a failed run can be picked for replay.
#[derive(Debug, Clone, Copy, PartialEq, Eq, Structural)]
pub enum AutomationReplayReason {
    ApprovalRequired,
    SandboxDenied,
    Auth,
    Validation,
    Tool,
    HookFailures,
    Unknown,
}

/// The key of a replay reason.
pub open spec fn reason_key(r: AutomationReplayReason) -> Seq<char> {
    match r {
        AutomationReplayReason::ApprovalRequired => "approval_required"@,
        AutomationReplayReason::SandboxDenied => "sandbox_denied"@,
        AutomationReplayReason::Auth => "auth"@,
        AutomationReplayReason::Validation => "validation"@,
        AutomationReplayReason::Tool => "tool"@,
        AutomationReplayReason::HookFailures => "hook_failures"@,
        AutomationReplayReason::Unknown => "unknown"@,
    }
}

/// The key of a replay reason.
pub fn automation_reason_key(reason: AutomationReplayReason) -> (key: &'static str)
    ensures
        key@ == reason_key(reason),
{
    match reason {
        AutomationReplayReason::ApprovalRequired => "approval_required",
        AutomationReplayReason::SandboxDenied => "sandbox_denied",
        AutomationReplayReason::Auth => "auth",
        AutomationReplayReason::Validation => "validation",
        AutomationReplayReason::Tool => "tool",
        AutomationReplayReason::HookFailures => "hook_failures",
        AutomationReplayReason::Unknown => "unknown",
    }
}

/// Failures of these reasons may succeed when run again.
pub open spec fn retryable_reason(reason: Seq<char>) -> bool {
    reason == "tool"@ || reason == "hook_failures"@
}

/// Whether a failure of this reason may succeed when run again.
pub fn is_retryable_reason(reason: &str) -> (b: bool)
    ensures
        b == retryable_reason(reason@),
{
    str_eq(reason, "tool") || str_eq(reason, "hook_failures")
}

/// The reason of a failure reported with an error code: the code when it is
/// one of the known ones, else `unknown`.
pub open spec fn code_reason(code: Seq<char>) -> Seq<char> {
    if code == "approval_required"@ || code == "sandbox_denied"@ || code == "auth"@ || code
        == "validation"@ || code == "tool"@ {
        code
    } else {
        "unknown"@
    }
}

fn reason_of_code(code: &str) -> (r: &'static str)
    ensures
        r@ == code_reason(code@),
{
    if str_eq(code, "approval_required") {
        "approval_required"
    } else if str_eq(code, "sandbox_denied") {
        "sandbox_denied"
    } else if str_eq(code, "auth") {
        "auth"
    } else if str_eq(code, "validation") {
        "validation"
    } else if str_eq(code, "tool") {
        "tool"
    } else {
        "unknown"
    }
}

/// Why a hook run failed: by its error code, or, without one, `tool` when
/// the command exited with a status other than 0.
pub open spec fn hook_replay_reason(error_code: Option<Seq<char>>, exit_code: Option<i32>) -> Seq<
    char,
> {
    match error_code {
        Some(code) => code_reason(code),
        None => if exit_code is Some && exit_code->0 != 0 {
            "tool"@
        } else {
            "unknown"@
        },
    }
}

/// The view of an optional text.
pub open spec fn opt_text(o: Option<&str>) -> Option<Seq<char>> {
    match o {
        Some(s) => Some(s@),
        None => None,
    }
}

/// Why a hook run failed.
pub fn classify_hook_replay_reason(error_code: Option<&str>, exit_code: Option<i32>) -> (r:
    &'static str)
    ensures
        r@ == hook_replay_reason(opt_text(error_code), exit_code),
{
    match error_code {
        Some(code) => reason_of_code(code),
        None => {
            let status = match exit_code {
                Some(c) => c,
                None => 0,
            };
            if status != 0 {
                "tool"
            } else {
                "unknown"
            }
        },
    }
}

/// Why a cron run failed: `hook_failures` when a hook failed, else by the
/// words of its lower-cased error.
pub open spec fn cron_replay_reason(hooks_failed: usize, error: Option<Seq<char>>) -> Seq<char> {
    if hooks_failed > 0 {
        "hook_failures"@
    } else {
        match error {
            None => "unknown"@,
            Some(message) => {
                let lower = lowercase(message);
                if contains_sub(lower, "approval required"@) {
                    "approval_required"@
                } else if contains_sub(lower, "sandbox denied"@) {
                    "sandbox_denied"@
                } else if contains_sub(lower, "auth"@) {
                    "auth"@
                } else if contains_sub(lower, "validation"@) {
                    "validation"@
                } else if contains_sub(lower, "tool"@) || contains_sub(lower, "exit status"@) {
                    "tool"@
                } else {
                    "unknown"@
                }
            },
        }
    }
}

/// Why a cron run failed.
pub fn classify_cron_replay_reason(hooks_failed: usize, error: Option<&str>) -> (r: &'static str)
    ensures
        r@ == cron_replay_reason(hooks_failed, opt_text(error)),
{
    if hooks_failed > 0 {
        return "hook_failures";
    }
    let message = match error {
        Some(m) => m,
        None => return "unknown",
    };
    let lower = to_lowercase(message);
    let l = lower.as_str();
    if str_contains(l, "approval required") {
        "approval_required"
    } else if str_contains(l, "sandbox denied") {
        "sandbox_denied"
    } else if str_contains(l, "auth") {
        "auth"
    } else if str_contains(l, "validation") {
        "validation"
    } else if str_contains(l, "tool") || str_contains(l, "exit status") {
        "tool"
    } else {
        "unknown"
    }
}

/// Why a webhook run failed: `hook_failures` when a hook failed, else by its
/// error code.
pub open spec fn webhook_replay_reason(hooks_failed: usize, error_code: Option<Seq<char>>) -> Seq<
    char,
> {
    if hooks_failed > 0 {
        "hook_failures"@
    } else {
        match error_code {
            Some(code) => code_reason(code),
            None => "unknown"@,
        }
    }
}

/// Why a webhook run failed.
pub fn classify_webhook_replay_reason(hooks_failed: usize, error_code: Option<&str>) -> (r:
    &'static str)
    ensures
        r@ == webhook_replay_reason(hooks_failed, opt_text(error_code)),
{
    if hooks_failed > 0 {
        return "hook_failures";
    }
    match error_code {
        Some(code) => reason_of_code(code),
        None => "unknown",
    }
}

/// Checks what a replay is asked with; `command` names it in the messages
/// (such as `hooks replay`).  Applying needs `--yes`.
pub fn validate_replay_request(
    command: &str,
    limit: usize,
    batch_size: Option<usize>,
    max_apply: Option<usize>,
    apply: bool,
    yes: bool,
) -> (out: Result<(), MosaicError>)
    ensures
        limit == 0 ==> (out matches Err(MosaicError::Validation(m)) && m@ == command@
            + " --limit must be greater than 0"@),
        limit > 0 && batch_size == Some(0usize) ==> (out matches Err(MosaicError::Validation(m))
            && m@ == command@ + " --batch-size must be greater than 0"@),
        limit > 0 && batch_size != Some(0usize) && max_apply == Some(0usize) ==> (out matches Err(
            MosaicError::Validation(m),
        ) && m@ == command@ + " --max-apply must be greater than 0"@),
        limit > 0 && batch_size != Some(0usize) && max_apply != Some(0usize) && apply && !yes ==> (
        out matches Err(MosaicError::ApprovalRequired(m)) && m@ == command@
            + " --apply requires --yes in non-interactive mode"@),
        limit > 0 && batch_size != Some(0usize) && max_apply != Some(0usize) && (!apply || yes)
            ==> out is Ok,
{
    if limit == 0 {
        return Err(MosaicError::Validation(cat(command, " --limit must be greater than 0")));
    }
    if batch_size == Some(0usize) {
        return Err(MosaicError::Validation(cat(command, " --batch-size must be greater than 0")));
    }
    if max_apply == Some(0usize) {
        return Err(MosaicError::Validation(cat(command, " --max-apply must be greater than 0")));
    }
    if apply && !yes {
        return Err(
            MosaicError::ApprovalRequired(
                cat(command, " --apply requires --yes in non-interactive mode"),
            ),
        );
    }
    Ok(())
}

/// The command that replays a failed hook run by hand, with the run's data
/// as JSON text.
pub fn hook_replay_command(hook_id: &str, data_json: &str) -> (c: String)
    ensures
        c@ == "mosaic --project-state --yes hooks run "@ + hook_id@ + " --data '"@ + data_json@
            + "'"@,
{
    cat5("mosaic --project-state --yes hooks run ", hook_id, " --data '", data_json, "'")
}

/// The command that replays a failed cron run by hand, with the run's data
/// as JSON text.
pub fn cron_replay_command(job_id: &str, data_json: &str) -> (c: String)
    ensures
        c@ == "mosaic --project-state --yes cron run "@ + job_id@ + " --data '"@ + data_json@
            + "'"@,
{
    cat5("mosaic --project-state --yes cron run ", job_id, " --data '", data_json, "'")
}

/// The command that replays a failed webhook delivery by hand, with the
/// delivery's data as JSON text; a webhook with a secret takes it from its
/// variable.
pub fn webhook_replay_command(webhook_id: &str, data_json: &str, secret_env: Option<&str>) -> (c:
    String)
    ensures
        c@ == "mosaic --project-state --yes webhooks trigger "@ + webhook_id@ + " --data '"@
            + data_json@ + "'"@ + match secret_env {
            Some(env) => " --secret \"${"@ + env@ + "}\""@,
            None => Seq::<char>::empty(),
        },
{
    let mut c = cat5("mosaic --project-state --yes webhooks trigger ", webhook_id, " --data '", data_json, "'");
    match secret_env {
        Some(env) => {
            let tail = crate::text::cat3(" --secret \"${", env, "}\"");
            c.append(tail.as_str());
        },
        None => {},
    }
    c
}

/// A run as replay selection sees it: whether it succeeded and, if not, the
/// reason it failed.
#[derive(Debug)]
pub struct ReplayFacts {
    pub ok: bool,
    pub reason: String,
}

/// Whether a failure of `reason` passes the reason filters (an empty list
/// passes all).
pub open spec fn reason_wanted(filters: Seq<AutomationReplayReason>, reason: Seq<char>) -> bool {
    filters.len() == 0 || exists|i: int| 0 <= i < filters.len() && reason_key(#[trigger] filters[i]) == reason
}

/// Whether a run is a failure that the filters pick.
pub open spec fn replay_wanted(
    e: ReplayFacts,
    filters: Seq<AutomationReplayReason>,
    retryable_only: bool,
) -> bool {
    !e.ok && reason_wanted(filters, e.reason@) && (!retryable_only || retryable_reason(e.reason@))
}

/// The positions from `i` on of the runs that the filters pick, latest
/// first.
pub open spec fn wanted_from(
    s: Seq<ReplayFacts>,
    i: int,
    filters: Seq<AutomationReplayReason>,
    retryable_only: bool,
) -> Seq<int>
    decreases s.len() - i,
{
    if i >= s.len() || i < 0 {
        Seq::<int>::empty()
    } else {
        let later = wanted_from(s, i + 1, filters, retryable_only);
        if replay_wanted(s[i], filters, retryable_only) {
            later.push(i)
        } else {
            later
        }
    }
}

/// A run picked for replay: its position, its reason and whether the reason
/// is retryable.
#[derive(Debug)]
pub struct SelectedReplay {
    pub index: usize,
    pub reason: String,
    pub retryable: bool,
}

/// The picked runs are the first `limit` of `wanted`, each with its reason.
pub open spec fn selection_is(
    out: Seq<SelectedReplay>,
    s: Seq<ReplayFacts>,
    wanted: Seq<int>,
    limit: nat,
) -> bool {
    &&& out.len() == if wanted.len() < limit {
        wanted.len()
    } else {
        limit
    }
    &&& forall|k: int|
        0 <= k < out.len() ==> (#[trigger] out[k]).index == wanted[k] && out[k].reason@
            == s[wanted[k]].reason@ && out[k].retryable == retryable_reason(out[k].reason@)
}

fn reason_passes(filters: &Vec<AutomationReplayReason>, reason: &str) -> (b: bool)
    ensures
        b == reason_wanted(filters@, reason@),
{
    if filters.len() == 0 {
        return true;
    }
    let mut i: usize = 0;
    while i < filters.len()
        invariant
            i <= filters.len(),
            filters.len() > 0,
            forall|j: int| 0 <= j < i ==> reason_key(#[trigger] filters@[j]) != reason@,
        decreases filters.len() - i,
    {
        if str_eq(automation_reason_key(filters[i]), reason) {
            return true;
        }
        i += 1;
    }
    false
}

/// Picks the failed runs to replay: latest first, those whose reason passes
/// the filters (and is retryable, when only those are asked for), at most
/// `limit` of them.
pub fn select_replay_candidates(
    events: &Vec<ReplayFacts>,
    filters: &Vec<AutomationReplayReason>,
    retryable_only: bool,
    limit: usize,
) -> (out: Vec<SelectedReplay>)
    ensures
        selection_is(
            out@,
            events@,
            wanted_from(events@, 0, filters@, retryable_only),
            limit as nat,
        ),
{
    let ghost s = events@;
    let ghost fs = filters@;
    let mut out: Vec<SelectedReplay> = Vec::new();
    let mut i: usize = events.len();
    while i > 0 && out.len() < limit
        invariant
            i <= events.len(),
            s == events@,
            fs == filters@,
            out@.len() <= limit,
            out@.len() == wanted_from(s, i as int, fs, retryable_only).len(),
            forall|k: int|
                0 <= k < out@.len() ==> (#[trigger] out@[k]).index == wanted_from(
                    s,
                    i as int,
                    fs,
                    retryable_only,
                )[k] && out@[k].reason@ == s[wanted_from(s, i as int, fs, retryable_only)[k]].reason@
                    && out@[k].retryable == retryable_reason(out@[k].reason@),
        decreases i,
    {
        let e = &events[i - 1];
        let ghost before = out@;
        if !e.ok && reason_passes(filters, e.reason.as_str()) {
            let retryable = is_retryable_reason(e.reason.as_str());
            if !retryable_only || retryable {
                out.push(SelectedReplay { index: i - 1, reason: e.reason.clone(), retryable });
                proof {
                    let w = wanted_from(s, i as int, fs, retryable_only);
                    assert forall|k: int| 0 <= k < out@.len() implies (#[trigger] out@[k]).index
                        == w.push(i - 1)[k] by {
                        if k < before.len() {
                            assert(out@[k] == before[k]);
                        }
                    }
                }
            }
        }
        i -= 1;
    }
    proof {
        let w = wanted_from(s, 0, fs, retryable_only);
        if i > 0 {
            lemma_wanted_prefix(s, 0, i as int, fs, retryable_only);
            assert forall|k: int| 0 <= k < out@.len() implies (#[trigger] out@[k]).index == w[k] by {
                assert(wanted_from(s, i as int, fs, retryable_only)[k] == w[k]);
            }
        }
    }
    out
}

proof fn lemma_wanted_prefix(
    s: Seq<ReplayFacts>,
    a: int,
    b: int,
    fs: Seq<AutomationReplayReason>,
    retryable_only: bool,
)
    requires
        0 <= a <= b,
    ensures
        wanted_from(s, a, fs, retryable_only).len() >= wanted_from(s, b, fs, retryable_only).len(),
        forall|k: int|
            0 <= k < wanted_from(s, b, fs, retryable_only).len() ==> wanted_from(
                s,
                a,
                fs,
                retryable_only,
            )[k] == #[trigger] wanted_from(s, b, fs, retryable_only)[k],
    decreases b - a,
{
    if a < b {
        lemma_wanted_prefix(s, a + 1, b, fs, retryable_only);
    }
}

/// A picked run as the batch plan shows it: its time (as written in the
/// plan), its reason and whether that is retryable.
#[derive(Debug)]
pub struct ReplayPlanItem {
    pub ts: String,
    pub reason: String,
    pub retryable: bool,
}

fn copy_plan_item(x: &ReplayPlanItem) -> (c: ReplayPlanItem)
    ensures
        c == *x,
{
    ReplayPlanItem { ts: x.ts.clone(), reason: x.reason.clone(), retryable: x.retryable }
}

/// A batch of the replay plan.
#[derive(Debug)]
pub struct ReplayBatch {
    pub batch_index: usize,
    pub size: usize,
    pub first_ts: String,
    pub last_ts: String,
    pub retryable_only: bool,
    pub reasons: Vec<String>,
    pub items: Vec<ReplayPlanItem>,
}

/// The number of runs per batch: the requested size, or all of them, and at
/// least one.
pub open spec fn batch_width(n: nat, batch_size: Option<usize>) -> nat {
    let w = match batch_size {
        Some(b) => b as nat,
        None => n,
    };
    if w < 1 {
        1
    } else {
        w
    }
}

/// `s` cut into consecutive pieces of `w` elements, the last one possibly
/// shorter.
pub open spec fn chunks<T>(s: Seq<T>, w: nat) -> Seq<Seq<T>>
    decreases s.len(),
{
    if s.len() == 0 || w == 0 {
        Seq::<Seq<T>>::empty()
    } else if s.len() <= w {
        seq![s]
    } else {
        seq![s.take(w as int)] + chunks(s.skip(w as int), w)
    }
}

/// The reasons of the plan items.
pub open spec fn plan_reasons(s: Seq<ReplayPlanItem>) -> Seq<Seq<char>> {
    s.map_values(|x: ReplayPlanItem| x.reason@)
}

/// The pieces of `cs`, one after the other.
pub open spec fn concat_all<T>(cs: Seq<Seq<T>>) -> Seq<T>
    decreases cs.len(),
{
    if cs.len() == 0 {
        Seq::<T>::empty()
    } else {
        cs[0] + concat_all(cs.drop_first())
    }
}

/// The batches of a plan hold every picked run once, in order, none of them
/// empty or over the batch size.
pub proof fn law_batches_cover_candidates<T>(s: Seq<T>, w: nat)
    requires
        w >= 1,
    ensures
        concat_all(chunks(s, w)) == s,
        forall|i: int|
            0 <= i < chunks(s, w).len() ==> 0 < (#[trigger] chunks(s, w)[i]).len() <= w,
    decreases s.len(),
{
    if s.len() == 0 {
        assert(s =~= Seq::<T>::empty());
    } else if s.len() <= w {
        assert(chunks(s, w).drop_first() =~= Seq::<Seq<T>>::empty());
        assert(concat_all(Seq::<Seq<T>>::empty()) =~= Seq::<T>::empty());
        assert(s + Seq::<T>::empty() =~= s);
    } else {
        let rest = s.skip(w as int);
        law_batches_cover_candidates(rest, w);
        assert(chunks(s, w).drop_first() =~= chunks(rest, w));
        assert(s.take(w as int) + rest =~= s);
        assert forall|i: int| 0 <= i < chunks(s, w).len() implies 0 < (#[trigger] chunks(
            s,
            w,
        )[i]).len() <= w by {
            if i > 0 {
                assert(chunks(s, w)[i] == chunks(rest, w)[i - 1]);
            }
        }
    }
}

/// `b` is the batch of number `index` (from 1) holding `chunk`.
pub open spec fn batch_holds(b: ReplayBatch, index: int, chunk: Seq<ReplayPlanItem>) -> bool {
    &&& b.batch_index == index
    &&& b.size == chunk.len()
    &&& b.items@ == chunk
    &&& b.first_ts@ == chunk[0].ts@
    &&& b.last_ts@ == chunk.last().ts@
    &&& b.retryable_only == forall|i: int| 0 <= i < chunk.len() ==> (#[trigger] chunk[i]).retryable
    &&& sorted_set_of(views(b.reasons@), plan_reasons(chunk))
}

fn make_batch(candidates: &Vec<ReplayPlanItem>, start: usize, end: usize, index: usize) -> (b:
    ReplayBatch)
    requires
        start < end <= candidates@.len(),
    ensures
        batch_holds(b, index as int, candidates@.subrange(start as int, end as int)),
{
    let ghost chunk = candidates@.subrange(start as int, end as int);
    let mut items: Vec<ReplayPlanItem> = Vec::new();
    let mut reasons: Vec<String> = Vec::new();
    let mut all_retryable = true;
    let mut k: usize = start;
    while k < end
        invariant
            start <= k <= end <= candidates@.len(),
            chunk == candidates@.subrange(start as int, end as int),
            items@ == chunk.take(k - start),
            views(reasons@) == plan_reasons(chunk.take(k - start)),
            all_retryable == forall|i: int| 0 <= i < k - start ==> (#[trigger] chunk[i]).retryable,
        decreases end - k,
    {
        let x = copy_plan_item(&candidates[k]);
        assert(chunk[k - start] == candidates@[k as int]);
        let ghost rb = reasons@;
        reasons.push(x.reason.clone());
        assert(views(reasons@) =~= views(rb).push(x.reason@));
        if !x.retryable {
            all_retryable = false;
        }
        items.push(x);
        k += 1;
        assert(items@ =~= chunk.take(k - start));
        assert(plan_reasons(chunk.take(k - start)) =~= plan_reasons(chunk.take(k - 1 - start)).push(
            x.reason@,
        ));
        assert(views(reasons@) =~= plan_reasons(chunk.take(k - start)));
    }
    assert(chunk.take(end - start) =~= chunk);
    let first_ts = candidates[start].ts.clone();
    let last_ts = candidates[end - 1].ts.clone();
    let reasons = sorted_distinct_texts(&reasons);
    ReplayBatch {
        batch_index: index,
        size: end - start,
        first_ts,
        last_ts,
        retryable_only: all_retryable,
        reasons,
        items,
    }
}

/// Splits the picked runs into batches of the requested size (all of them
/// in one batch when no size is given), numbered from 1.
pub fn build_automation_replay_batch_plan(
    candidates: &Vec<ReplayPlanItem>,
    batch_size: Option<usize>,
) -> (out: Vec<ReplayBatch>)
    ensures
        out@.len() == chunks(candidates@, batch_width(candidates@.len(), batch_size)).len(),
        forall|b: int|
            0 <= b < out@.len() ==> batch_holds(
                #[trigger] out@[b],
                b + 1,
                chunks(candidates@, batch_width(candidates@.len(), batch_size))[b],
            ),
{
    let ghost s = candidates@;
    let n = candidates.len();
    let w: usize = match batch_size {
        Some(b) => if b < 1 {
            1
        } else {
            b
        },
        None => if n < 1 {
            1
        } else {
            n
        },
    };
    let ghost all = chunks(s, w as nat);
    let mut out: Vec<ReplayBatch> = Vec::new();
    let mut start: usize = 0;
    assert(s.skip(0) =~= s);
    while start < n
        invariant
            n == s.len(),
            s == candidates@,
            w >= 1,
            all == chunks(s, w as nat),
            start <= n,
            out@.len() <= start,
            all.len() == out@.len() + chunks(s.skip(start as int), w as nat).len(),
            forall|b: int|
                0 <= b < out@.len() ==> batch_holds(#[trigger] out@[b], b + 1, all[b]),
            forall|b: int|
                0 <= b < chunks(s.skip(start as int), w as nat).len() ==> all[out@.len() + b]
                    == #[trigger] chunks(s.skip(start as int), w as nat)[b],
        decreases n - start,
    {
        let rest = n - start;
        let end = if rest <= w {
            n
        } else {
            start + w
        };
        let ghost tail = s.skip(start as int);
        let ghost next = s.skip(end as int);
        proof {
            if rest <= w {
                assert(chunks(tail, w as nat) == seq![tail]);
                assert(next.len() == 0);
                assert(tail =~= s.subrange(start as int, end as int));
            } else {
                assert(tail.skip(w as int) =~= next);
                assert(tail.take(w as int) =~= s.subrange(start as int, end as int));
                assert(chunks(tail, w as nat) == seq![tail.take(w as int)] + chunks(next, w as nat));
            }
            assert(chunks(tail, w as nat)[0] == s.subrange(start as int, end as int));
        }
        let index = out.len() + 1;
        let b = make_batch(candidates, start, end, index);
        let ghost before = out@;
        out.push(b);
        proof {
            assert(all[before.len() as int] == chunks(tail, w as nat)[0]);
            assert forall|k: int| 0 <= k < chunks(next, w as nat).len() implies all[out@.len() + k]
                == #[trigger] chunks(next, w as nat)[k] by {
                assert(chunks(next, w as nat)[k] == chunks(tail, w as nat)[k + 1]);
                assert(all[before.len() + (k + 1)] == chunks(tail, w as nat)[k + 1]);
            }
            assert forall|k: int| 0 <= k < out@.len() implies batch_holds(#[trigger] out@[k], k + 1, all[k]) by {
                if k < before.len() {
                    assert(out@[k] == before[k]);
                }
            }
        }
        start = end;
    }
    assert(all.len() == out@.len());
    assert(batch_width(n as nat, batch_size) == w as nat);
    out
}

/// A picked run as the diagnostics see it.
#[derive(Debug)]
pub struct ReplayDiagnosticInput {
    pub ts: i64,
    pub reason: String,
    pub retryable: bool,
}

/// What the picked runs suggest.
#[derive(Debug)]
pub struct ReplayDiagnostics {
    pub selected_candidates: usize,
    pub retryable_candidates: usize,
    pub non_retryable_candidates: usize,
    pub oldest_ts: Option<i64>,
    pub newest_ts: Option<i64>,
    pub oldest_candidate_age_minutes: Option<i64>,
    pub reason_histogram: Vec<crate::tally::Tally>,
    pub suggested_strategy: &'static str,
}

/// How many of the runs are retryable.
pub open spec fn retryable_count(s: Seq<ReplayDiagnosticInput>) -> nat
    decreases s.len(),
{
    if s.len() == 0 {
        0
    } else {
        retryable_count(s.drop_last()) + if s.last().retryable {
            1nat
        } else {
            0nat
        }
    }
}

proof fn lemma_retryable_count_le(s: Seq<ReplayDiagnosticInput>)
    ensures
        retryable_count(s) <= s.len(),
    decreases s.len(),
{
    if s.len() > 0 {
        lemma_retryable_count_le(s.drop_last());
    }
}

/// The earliest time of the runs.
pub open spec fn oldest_time(s: Seq<ReplayDiagnosticInput>) -> Option<i64>
    decreases s.len(),
{
    if s.len() == 0 {
        None
    } else {
        match oldest_time(s.drop_last()) {
            None => Some(s.last().ts),
            Some(t) => Some(if s.last().ts < t {
                s.last().ts
            } else {
                t
            }),
        }
    }
}

/// The latest time of the runs.
pub open spec fn newest_time(s: Seq<ReplayDiagnosticInput>) -> Option<i64>
    decreases s.len(),
{
    if s.len() == 0 {
        None
    } else {
        match newest_time(s.drop_last()) {
            None => Some(s.last().ts),
            Some(t) => Some(if s.last().ts > t {
                s.last().ts
            } else {
                t
            }),
        }
    }
}

/// The whole minutes from `ts` to `now` (`0` when `ts` is not earlier).
pub open spec fn minutes_since(ts: i64, now: i64) -> int {
    if now > ts {
        (now - ts) / 60_000
    } else {
        0
    }
}

/// What the picked runs suggest doing: nothing to do, look at those that
/// will not succeed when run again, apply in batches (20 runs or more), or
/// apply.
pub open spec fn suggested_strategy(n: nat, non_retryable: nat) -> Seq<char> {
    if n == 0 {
        "no_candidates"@
    } else if non_retryable > 0 {
        "inspect_non_retryable_first"@
    } else if n >= 20 {
        "apply_in_batches"@
    } else {
        "safe_to_apply"@
    }
}

/// The reasons of the runs.
pub open spec fn diagnostic_reasons(s: Seq<ReplayDiagnosticInput>) -> Seq<Seq<char>> {
    s.map_values(|x: ReplayDiagnosticInput| x.reason@)
}

/// Sums up the picked runs at time `now`: how many are retryable, their
/// time span and the age of the oldest in whole minutes, how many per
/// reason, and the suggested strategy.
pub fn build_automation_replay_diagnostics(selected: &Vec<ReplayDiagnosticInput>, now: i64) -> (d:
    ReplayDiagnostics)
    ensures
        d.selected_candidates == selected@.len(),
        d.retryable_candidates == retryable_count(selected@),
        d.non_retryable_candidates == selected@.len() - retryable_count(selected@),
        d.oldest_ts == oldest_time(selected@),
        d.newest_ts == newest_time(selected@),
        d.oldest_candidate_age_minutes == match oldest_time(selected@) {
            Some(t) => Some(minutes_since(t, now) as i64),
            None => None::<i64>,
        },
        crate::tally::tallies_of(d.reason_histogram@, diagnostic_reasons(selected@)),
        d.suggested_strategy@ == suggested_strategy(
            selected@.len(),
            (selected@.len() - retryable_count(selected@)) as nat,
        ),
{
    let ghost s = selected@;
    let mut retryable: usize = 0;
    let mut oldest: Option<i64> = None;
    let mut newest: Option<i64> = None;
    let mut reasons: Vec<String> = Vec::new();
    let mut i: usize = 0;
    while i < selected.len()
        invariant
            i <= selected.len(),
            s == selected@,
            retryable == retryable_count(s.take(i as int)),
            oldest == oldest_time(s.take(i as int)),
            newest == newest_time(s.take(i as int)),
            views(reasons@) == diagnostic_reasons(s.take(i as int)),
        decreases selected.len() - i,
    {
        proof {
            assert(s.take(i + 1).drop_last() =~= s.take(i as int));
            lemma_retryable_count_le(s.take(i as int));
        }
        let x = &selected[i];
        if x.retryable {
            retryable += 1;
        }
        oldest = match oldest {
            None => Some(x.ts),
            Some(t) => Some(if x.ts < t { x.ts } else { t }),
        };
        newest = match newest {
            None => Some(x.ts),
            Some(t) => Some(if x.ts > t { x.ts } else { t }),
        };
        let ghost rb = reasons@;
        reasons.push(x.reason.clone());
        assert(views(reasons@) =~= views(rb).push(x.reason@));
        i += 1;
        assert(diagnostic_reasons(s.take(i as int)) =~= diagnostic_reasons(s.take(i - 1)).push(
            x.reason@,
        ));
        assert(views(reasons@) =~= diagnostic_reasons(s.take(i as int)));
    }
    assert(s.take(selected.len() as int) =~= s);
    proof {
        lemma_retryable_count_le(s);
    }
    let non_retryable = selected.len() - retryable;
    let age = match oldest {
        Some(t) => {
            let elapsed: i128 = (now as i128) - (t as i128);
            let minutes: i128 = if elapsed > 0 {
                elapsed / 60_000
            } else {
                0
            };
            assert(minutes <= 0x7fff_ffff_ffff_ffff) by (nonlinear_arith)
                requires
                    elapsed <= 0xffff_ffff_ffff_ffff,
                    minutes == if elapsed > 0 {
                        elapsed / 60_000
                    } else {
                        0
                    },
            ;
            Some(minutes as i64)
        },
        None => None,
    };
    let histogram = crate::tally::tally_texts(&reasons);
    let strategy = if selected.len() == 0 {
        "no_candidates"
    } else if non_retryable > 0 {
        "inspect_non_retryable_first"
    } else if selected.len() >= 20 {
        "apply_in_batches"
    } else {
        "safe_to_apply"
    };
    ReplayDiagnostics {
        selected_candidates: selected.len(),
        retryable_candidates: retryable,
        non_retryable_candidates: non_retryable,
        oldest_ts: oldest,
        newest_ts: newest,
        oldest_candidate_age_minutes: age,
        reason_histogram: histogram,
        suggested_strategy: strategy,
    }
}

/// The progress of applying a replay, of automation runs or of a channel's
/// failed deliveries: those picked and planned, those left out by the apply
/// limit, and the outcome of those attempted so far.
#[derive(Debug)]
pub struct ReplayApplyProgress {
    pub selected: usize,
    pub planned_attempts: usize,
    pub skipped_due_to_apply_limit: usize,
    pub attempted: usize,
    pub succeeded: usize,
    pub failed: usize,
    pub stopped_early: bool,
}

impl ReplayApplyProgress {
    /// The counts agree: planned and skipped make up the selection, the
    /// attempts are within the plan and each succeeded or failed, and a stop
    /// follows a failure.
    pub open spec fn consistent(&self) -> bool {
        &&& self.planned_attempts + self.skipped_due_to_apply_limit == self.selected
        &&& self.attempted <= self.planned_attempts
        &&& self.succeeded + self.failed == self.attempted
        &&& self.stopped_early ==> self.failed > 0
    }

    /// Plans applying a replay of `selected` runs, at most `max_apply` of
    /// them.
    pub fn start(selected: usize, max_apply: Option<usize>) -> (p: Self)
        ensures
            p.consistent(),
            p.selected == selected,
            p.planned_attempts == match max_apply {
                Some(m) => if m < selected {
                    m
                } else {
                    selected
                },
                None => selected,
            },
            p.attempted == 0,
            p.succeeded == 0,
            p.failed == 0,
            !p.stopped_early,
    {
        let cap = match max_apply {
            Some(m) => m,
            None => selected,
        };
        let planned = if cap < selected {
            cap
        } else {
            selected
        };
        ReplayApplyProgress {
            selected,
            planned_attempts: planned,
            skipped_due_to_apply_limit: selected - planned,
            attempted: 0,
            succeeded: 0,
            failed: 0,
            stopped_early: false,
        }
    }

    /// The position in the selection of the next run to replay: the runs
    /// are replayed oldest first (the selection holds them latest first);
    /// none once the plan is done or stopped.
    pub fn next_index(&self) -> (i: Option<usize>)
        requires
            self.consistent(),
        ensures
            match i {
                Some(k) => !self.stopped_early && self.attempted < self.planned_attempts && k
                    == self.selected - 1 - self.attempted,
                None => self.stopped_early || self.attempted == self.planned_attempts,
            },
    {
        if self.stopped_early || self.attempted >= self.planned_attempts {
            None
        } else {
            Some(self.selected - 1 - self.attempted)
        }
    }

    /// Records the outcome of the next replayed run; a failure stops the
    /// replay when asked to.
    pub fn record(&mut self, ok: bool, stop_on_error: bool)
        requires
            old(self).consistent(),
            !old(self).stopped_early,
            old(self).attempted < old(self).planned_attempts,
        ensures
            final(self).consistent(),
            final(self).selected == old(self).selected,
            final(self).planned_attempts == old(self).planned_attempts,
            final(self).skipped_due_to_apply_limit == old(self).skipped_due_to_apply_limit,
            final(self).attempted == old(self).attempted + 1,
            final(self).succeeded == old(self).succeeded + if ok {
                1int
            } else {
                0int
            },
            final(self).failed == old(self).failed + if ok {
                0int
            } else {
                1int
            },
            final(self).stopped_early == (stop_on_error && !ok),
    {
        self.attempted = self.attempted + 1;
        if ok {
            self.succeeded = self.succeeded + 1;
        } else {
            self.failed = self.failed + 1;
            if stop_on_error {
                self.stopped_early = true;
            }
        }
    }

    /// The planned runs left out because the replay stopped early.
    pub fn skipped_due_to_stop_on_error(&self) -> (n: usize)
        requires
            self.consistent(),
        ensures
            n == if self.stopped_early {
                self.planned_attempts - self.attempted
            } else {
                0
            },
    {
        if self.stopped_early {
            self.planned_attempts - self.attempted
        } else {
            0
        }
    }
}

/// Once a replay is over, every picked run was attempted or skipped, for the
/// apply limit or for stopping early.
pub proof fn law_replay_accounts_for_every_run(p: ReplayApplyProgress)
    requires
        p.consistent(),
        p.stopped_early || p.attempted == p.planned_attempts,
    ensures
        p.attempted + (if p.stopped_early {
            p.planned_attempts - p.attempted
        } else {
            0
        }) + p.skipped_due_to_apply_limit == p.selected,
        p.succeeded + p.failed == p.attempted,
{
}

} // verus!
