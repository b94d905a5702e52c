//! The sandbox profile and the approval that a plugin hook runs under.
use vstd::prelude::*;
use crate::error::{MosaicError, fails_with};
use crate::plugins::entry::PluginEntry;
use crate::text::{cat, cat3, cat5, decimal, owned, str_eq, u64_to_string};

verus! {

/// How much a sandbox lets a command do.
#[derive(Debug, Clone, Copy, PartialEq, Eq, Structural)]
pub enum SandboxProfile {
    Restricted,
    Standard,
    Elevated,
}

/// The name of a sandbox profile.
pub open spec fn profile_label(p: SandboxProfile) -> Seq<char> {
    match p {
        SandboxProfile::Restricted => "restricted"@,
        SandboxProfile::Standard => "standard"@,
        SandboxProfile::Elevated => "elevated"@,
    }
}

/// The name of a sandbox profile.
pub fn sandbox_profile_label(profile: SandboxProfile) -> (s: &'static str)
    ensures
        s@ == profile_label(profile),
{
    match profile {
        SandboxProfile::Restricted => "restricted",
        SandboxProfile::Standard => "standard",
        SandboxProfile::Elevated => "elevated",
    }
}

/// The sandbox profile a plugin's settings name, if any.
pub open spec fn runtime_profile(p: PluginEntry) -> Option<Seq<char>> {
    match p.runtime {
        Some(r) => match r.sandbox_profile {
            Some(s) => Some(s@),
            None => None,
        },
        None => None,
    }
}

/// The sandbox profile of a plugin's hooks: the one its settings name,
/// else `default_profile`; an unknown name is refused.
pub fn resolve_plugin_sandbox_profile(plugin: &PluginEntry, default_profile: SandboxProfile) -> (out:
    Result<SandboxProfile, MosaicError>)
    ensures
        match runtime_profile(*plugin) {
            None => out == Ok::<SandboxProfile, MosaicError>(default_profile),
            Some(name) => if name == "restricted"@ {
                out == Ok::<SandboxProfile, MosaicError>(SandboxProfile::Restricted)
            } else if name == "standard"@ {
                out == Ok::<SandboxProfile, MosaicError>(SandboxProfile::Standard)
            } else if name == "elevated"@ {
                out == Ok::<SandboxProfile, MosaicError>(SandboxProfile::Elevated)
            } else {
                fails_with(
                    out,
                    "plugin '"@ + plugin.id@ + "' has invalid runtime sandbox_profile '"@ + name
                        + "'"@,
                )
            },
        },
{
    let name = match &plugin.runtime {
        Some(r) => match &r.sandbox_profile {
            Some(s) => s,
            None => return Ok(default_profile),
        },
        None => return Ok(default_profile),
    };
    if str_eq(name.as_str(), "restricted") {
        Ok(SandboxProfile::Restricted)
    } else if str_eq(name.as_str(), "standard") {
        Ok(SandboxProfile::Standard)
    } else if str_eq(name.as_str(), "elevated") {
        Ok(SandboxProfile::Elevated)
    } else {
        Err(
            MosaicError::Validation(
                cat5(
                    "plugin '",
                    plugin.id.as_str(),
                    "' has invalid runtime sandbox_profile '",
                    name.as_str(),
                    "'",
                ),
            ),
        )
    }
}

/// The error for a script line that the sandbox blocks.
pub fn sandbox_line_denied(plugin_id: &str, hook_path: &str, line_number: usize, reason: &str) -> (e:
    MosaicError)
    ensures
        e matches MosaicError::SandboxDenied(m) && m@ == "plugin '"@ + plugin_id@ + "' hook '"@
            + hook_path@ + "' line "@ + decimal(line_number as nat) + " blocked: "@ + reason@,
{
    let n = u64_to_string(line_number as u64);
    let head = cat5("plugin '", plugin_id, "' hook '", hook_path, "' line ");
    MosaicError::SandboxDenied(cat3(cat(head.as_str(), n.as_str()).as_str(), " blocked: ", reason))
}

/// What the approval policy decides about a command.
#[derive(Debug)]
pub enum ApprovalDecision {
    Auto { approved_by: String },
    NeedsConfirmation { reason: String },
    Deny { reason: String },
}

/// Who approved a command: the policy, or the `--yes` flag where the policy
/// asks for confirmation; else the approval error.
pub fn approved_by_for(decision: ApprovalDecision, yes: bool) -> (out: Result<String, MosaicError>)
    ensures
        match decision {
            ApprovalDecision::Auto { approved_by } => out matches Ok(s) && s@ == approved_by@,
            ApprovalDecision::NeedsConfirmation { reason } => if yes {
                out matches Ok(s) && s@ == "flag_yes"@
            } else {
                out matches Err(MosaicError::ApprovalRequired(m)) && m@ == reason@
                    + ". rerun with --yes"@
            },
            ApprovalDecision::Deny { reason } => out matches Err(MosaicError::ApprovalRequired(m))
                && m@ == reason@,
        },
{
    match decision {
        ApprovalDecision::Auto { approved_by } => Ok(approved_by),
        ApprovalDecision::NeedsConfirmation { reason } => if yes {
            Ok(owned("flag_yes"))
        } else {
            Err(MosaicError::ApprovalRequired(cat(reason.as_str(), ". rerun with --yes")))
        },
        ApprovalDecision::Deny { reason } => Err(MosaicError::ApprovalRequired(reason)),
    }
}

} // verus!
