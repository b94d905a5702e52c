//! Whether a replay of failed deliveries may be applied: the token variable
//! it is given, and the readiness issues that still block it.
use vstd::prelude::*;
use crate::error::{MosaicError, auth_error, fails_with};
use crate::sorting::views;
use crate::text::{cat, cat3, contains_sub, owned, trim, trim_str};
use super::message::{join, join_strings};
use super::reports::is_token_env_issue;

verus! {

/// The token variable given to a replay, trimmed; a blank one is refused.
pub fn replay_token_override(raw: Option<&str>) -> (out: Result<Option<String>, MosaicError>)
    ensures
        match raw {
            None => out matches Ok(None),
            Some(r) => if trim(r@).len() == 0 {
                fails_with(out, "channels replay --token-env cannot be empty"@)
            } else {
                out matches Ok(Some(t)) && t@ == trim(r@)
            },
        },
{
    match raw {
        None => Ok(None),
        Some(r) => {
            let t = trim_str(r);
            if t.as_str().is_empty() {
                Err(MosaicError::Validation(owned("channels replay --token-env cannot be empty")))
            } else {
                Ok(Some(t))
            }
        },
    }
}

/// A token variable given to an applied replay must be set (`is_set`, as
/// read from the environment).
pub fn check_override_env(env: &str, is_set: bool) -> (out: Result<(), MosaicError>)
    ensures
        is_set ==> out is Ok,
        !is_set ==> (out matches Err(e) && auth_error(
            e,
            "channels replay --apply requires environment variable "@ + env@,
        )),
{
    if is_set {
        Ok(())
    } else {
        Err(MosaicError::Auth(cat("channels replay --apply requires environment variable ", env)))
    }
}

/// The issues that still block a replay: all of them, or, when a token
/// variable is given, those that do not concern the token variable.
pub open spec fn blocking_issues(issues: Seq<Seq<char>>, has_override: bool) -> Seq<Seq<char>>
    decreases issues.len(),
{
    if issues.len() == 0 {
        issues
    } else if has_override && contains_sub(issues.last(), "token env"@) {
        blocking_issues(issues.drop_last(), has_override)
    } else {
        blocking_issues(issues.drop_last(), has_override).push(issues.last())
    }
}

/// The hint that points at a channel's diagnostics.
pub open spec fn diagnostics_hint(channel_id: Seq<char>) -> Seq<char> {
    "run `mosaic channels capabilities --target "@ + channel_id + "` to inspect diagnostics"@
}

/// Whether every issue concerns the token variable.
pub open spec fn all_token_issues(issues: Seq<Seq<char>>) -> bool {
    forall|i: int| 0 <= i < issues.len() ==> contains_sub(#[trigger] issues[i], "token env"@)
}

/// Decides whether the readiness issues of a channel block an applied
/// replay: none left is ready; only token-variable issues are an
/// authentication error that suggests `--token-env`; others a validation
/// error.
pub fn check_replay_blockers(channel_id: &str, issues: &Vec<String>, has_override: bool) -> (out:
    Result<(), MosaicError>)
    ensures
        ({
            let b = blocking_issues(views(issues@), has_override);
            let summary = join(b, "; "@);
            if b.len() == 0 {
                out is Ok
            } else if all_token_issues(b) {
                out matches Err(e) && auth_error(
                    e,
                    "channels replay --apply blocked: "@ + summary
                        + "; pass --token-env <ENV> with a set env var or "@ + diagnostics_hint(
                        channel_id@,
                    ),
                )
            } else {
                fails_with(
                    out,
                    "channels replay --apply blocked: "@ + summary + "; "@ + diagnostics_hint(
                        channel_id@,
                    ),
                )
            }
        }),
{
    let ghost all = views(issues@);
    let mut blocking: Vec<String> = Vec::new();
    let mut all_token = true;
    let mut i: usize = 0;
    while i < issues.len()
        invariant
            i <= issues.len(),
            all == views(issues@),
            views(blocking@) == blocking_issues(all.take(i as int), has_override),
            all_token == all_token_issues(views(blocking@)),
        decreases issues.len() - i,
    {
        proof {
            assert(all.take(i + 1).drop_last() =~= all.take(i as int));
            assert(all.take(i + 1).last() == issues@[i as int]@);
        }
        let token = is_token_env_issue(issues[i].as_str());
        if !(has_override && token) {
            let ghost before = views(blocking@);
            blocking.push(issues[i].clone());
            assert(views(blocking@) =~= before.push(issues@[i as int]@));
            all_token = all_token && token;
            proof {
                let nb = views(blocking@);
                if all_token {
                    assert forall|k: int| 0 <= k < nb.len() implies contains_sub(#[trigger] nb[k], "token env"@) by {
                        if k < before.len() {
                            assert(nb[k] == before[k]);
                        }
                    }
                } else {
                    if !token {
                        assert(!contains_sub(nb[nb.len() - 1], "token env"@));
                    } else {
                        let k = choose|k: int| 0 <= k < before.len() && !contains_sub(#[trigger] before[k], "token env"@);
                        assert(nb[k] == before[k]);
                    }
                }
            }
        }
        i += 1;
    }
    assert(all.take(issues.len() as int) =~= all);
    if blocking.len() == 0 {
        return Ok(());
    }
    let summary = join_strings(&blocking, "; ");
    assert(blocking@.map_values(|p: String| p@) =~= views(blocking@));
    let hint = cat3("run `mosaic channels capabilities --target ", channel_id, "` to inspect diagnostics");
    if all_token {
        let mut m = cat("channels replay --apply blocked: ", summary.as_str());
        m.append("; pass --token-env <ENV> with a set env var or ");
        m.append(hint.as_str());
        Err(MosaicError::Auth(m))
    } else {
        let mut m = cat("channels replay --apply blocked: ", summary.as_str());
        m.append("; ");
        m.append(hint.as_str());
        Err(MosaicError::Validation(m))
    }
}

} // verus!
