//! Installed plugins as the plugin commands see them: where they come from,
//! their runtime settings and their hooks.
use vstd::prelude::*;
use crate::error::{MosaicError, fails_with};
use crate::text::{cat, cat3, cat5, str_eq};

verus! {

/// Where an extension was found.
#[derive(Debug, Clone, Copy, PartialEq, Eq, Structural)]
pub enum ExtensionSource {
    Project,
    CodexHome,
    UserHome,
}

/// The source filter of a listing.
#[derive(Debug, Clone, Copy, PartialEq, Eq, Structural)]
pub enum ExtensionSourceFilterArg {
    All,
    Project,
    CodexHome,
    UserHome,
}

/// The source a filter asks for; none for all.
pub open spec fn filter_source(f: ExtensionSourceFilterArg) -> Option<ExtensionSource> {
    match f {
        ExtensionSourceFilterArg::All => None,
        ExtensionSourceFilterArg::Project => Some(ExtensionSource::Project),
        ExtensionSourceFilterArg::CodexHome => Some(ExtensionSource::CodexHome),
        ExtensionSourceFilterArg::UserHome => Some(ExtensionSource::UserHome),
    }
}

/// The source a filter asks for; none for all.
pub fn parse_extension_source_filter(source: ExtensionSourceFilterArg) -> (out: Option<
    ExtensionSource,
>)
    ensures
        out == filter_source(source),
{
    match source {
        ExtensionSourceFilterArg::All => None,
        ExtensionSourceFilterArg::Project => Some(ExtensionSource::Project),
        ExtensionSourceFilterArg::CodexHome => Some(ExtensionSource::CodexHome),
        ExtensionSourceFilterArg::UserHome => Some(ExtensionSource::UserHome),
    }
}

/// The name of a source filter.
pub fn extension_source_filter_name(source: ExtensionSourceFilterArg) -> (name: &'static str)
    ensures
        name@ == match source {
            ExtensionSourceFilterArg::All => "all"@,
            ExtensionSourceFilterArg::Project => "project"@,
            ExtensionSourceFilterArg::CodexHome => "codex_home"@,
            ExtensionSourceFilterArg::UserHome => "user_home"@,
        },
{
    match source {
        ExtensionSourceFilterArg::All => "all",
        ExtensionSourceFilterArg::Project => "project",
        ExtensionSourceFilterArg::CodexHome => "codex_home",
        ExtensionSourceFilterArg::UserHome => "user_home",
    }
}

/// Whether an extension from `actual` passes a filter for `requested`.
pub fn source_matches(requested: Option<ExtensionSource>, actual: ExtensionSource) -> (b: bool)
    ensures
        b == match requested {
            Some(expected) => expected == actual,
            None => true,
        },
{
    match requested {
        Some(expected) => expected == actual,
        None => true,
    }
}

/// The runtime settings of a plugin's manifest.
#[derive(Debug)]
pub struct PluginRuntimeConfig {
    pub run: Option<String>,
    pub doctor: Option<String>,
    pub timeout_ms: Option<u64>,
    pub sandbox_profile: Option<String>,
    pub max_cpu_ms: Option<u64>,
    pub max_rss_kb: Option<u64>,
    pub max_output_bytes: Option<u64>,
    pub cpu_watchdog_ms: Option<u64>,
}

/// An installed plugin.
#[derive(Debug)]
pub struct PluginEntry {
    pub id: String,
    pub name: String,
    pub version: Option<String>,
    pub description: Option<String>,
    pub source: ExtensionSource,
    pub path: String,
    pub manifest_path: String,
    pub manifest_exists: bool,
    pub manifest_valid: bool,
    pub manifest_error: Option<String>,
    pub runtime: Option<PluginRuntimeConfig>,
}

/// A hook that a plugin can run.
#[derive(Debug, Clone, Copy, PartialEq, Eq, Structural)]
pub enum PluginRuntimeHook {
    Run,
    Doctor,
}

/// The hook named on the command line.
#[derive(Debug, Clone, Copy, PartialEq, Eq, Structural)]
pub enum PluginHookArg {
    Run,
    Doctor,
}

impl PluginRuntimeHook {
    /// The hook the command line names.
    pub fn from_cli(value: PluginHookArg) -> (h: Self)
        ensures
            h == match value {
                PluginHookArg::Run => PluginRuntimeHook::Run,
                PluginHookArg::Doctor => PluginRuntimeHook::Doctor,
            },
    {
        match value {
            PluginHookArg::Run => PluginRuntimeHook::Run,
            PluginHookArg::Doctor => PluginRuntimeHook::Doctor,
        }
    }

    /// The hook's name.
    pub open spec fn name(self) -> Seq<char> {
        match self {
            PluginRuntimeHook::Run => "run"@,
            PluginRuntimeHook::Doctor => "doctor"@,
        }
    }

    /// The hook's name.
    pub fn as_str(self) -> (s: &'static str)
        ensures
            s@ == self.name(),
    {
        match self {
            PluginRuntimeHook::Run => "run",
            PluginRuntimeHook::Doctor => "doctor",
        }
    }
}

/// The hook file that a plugin's manifest names for `hook`, if any.
pub open spec fn manifest_hook(plugin: PluginEntry, hook: PluginRuntimeHook) -> Option<Seq<char>> {
    match plugin.runtime {
        Some(r) => match hook {
            PluginRuntimeHook::Run => match r.run {
                Some(p) => Some(p@),
                None => None,
            },
            PluginRuntimeHook::Doctor => match r.doctor {
                Some(p) => Some(p@),
                None => None,
            },
        },
        None => None,
    }
}

/// The files that may hold a plugin's hook, in the order they are tried:
/// the one its manifest names, else `hooks/<hook>`, `hooks/<hook>.sh` and
/// `hooks/<hook>.py` under the plugin.
pub open spec fn hook_candidates(plugin: PluginEntry, hook: PluginRuntimeHook) -> Seq<Seq<char>> {
    let root = plugin.path@;
    match manifest_hook(plugin, hook) {
        Some(p) => seq![crate::paths::join_path(root, p)],
        None => {
            let hooks = crate::paths::join_path(root, "hooks"@);
            seq![
                crate::paths::join_path(hooks, hook.name()),
                crate::paths::join_path(hooks, hook.name() + ".sh"@),
                crate::paths::join_path(hooks, hook.name() + ".py"@),
            ]
        },
    }
}

/// The files that may hold a plugin's hook, in the order they are tried.
pub fn plugin_hook_candidates(plugin: &PluginEntry, hook: PluginRuntimeHook) -> (out: Vec<String>)
    ensures
        out@.map_values(|s: String| s@) == hook_candidates(*plugin, hook),
{
    let manifest: Option<&String> = match &plugin.runtime {
        Some(r) => match hook {
            PluginRuntimeHook::Run => match &r.run {
                Some(p) => Some(p),
                None => None,
            },
            PluginRuntimeHook::Doctor => match &r.doctor {
                Some(p) => Some(p),
                None => None,
            },
        },
        None => None,
    };
    let mut out: Vec<String> = Vec::new();
    match manifest {
        Some(p) => {
            out.push(crate::paths::join(plugin.path.as_str(), p.as_str()));
        },
        None => {
            let hooks = crate::paths::join(plugin.path.as_str(), "hooks");
            let name = hook.as_str();
            out.push(crate::paths::join(hooks.as_str(), name));
            out.push(crate::paths::join(hooks.as_str(), cat(name, ".sh").as_str()));
            out.push(crate::paths::join(hooks.as_str(), cat(name, ".py").as_str()));
        },
    }
    assert(out@.map_values(|s: String| s@) =~= hook_candidates(*plugin, hook));
    out
}

/// The error for a hook that none of its candidate files holds.
pub open spec fn hook_missing_message(plugin: PluginEntry, hook: PluginRuntimeHook) -> Seq<char> {
    let id = plugin.id@;
    let name = hook.name();
    match manifest_hook(plugin, hook) {
        Some(p) => "plugin '"@ + id + "' runtime "@ + name + " hook not found at "@
            + crate::paths::join_path(plugin.path@, p),
        None => "plugin '"@ + id + "' has no "@ + name + " hook. add [runtime]."@ + name
            + " in plugin.toml or create hooks/"@ + name + ".sh"@,
    }
}

/// The error for a hook that none of its candidate files holds.
pub fn plugin_hook_not_found(plugin: &PluginEntry, hook: PluginRuntimeHook) -> (e: MosaicError)
    ensures
        fails_with(Err::<(), MosaicError>(e), hook_missing_message(*plugin, hook)),
{
    let name = hook.as_str();
    let manifest: Option<&String> = match &plugin.runtime {
        Some(r) => match hook {
            PluginRuntimeHook::Run => match &r.run {
                Some(p) => Some(p),
                None => None,
            },
            PluginRuntimeHook::Doctor => match &r.doctor {
                Some(p) => Some(p),
                None => None,
            },
        },
        None => None,
    };
    match manifest {
        Some(p) => {
            assert(manifest_hook(*plugin, hook) == Some(p@));
            let candidate = crate::paths::join(plugin.path.as_str(), p.as_str());
            let head = cat5("plugin '", plugin.id.as_str(), "' runtime ", name, " hook not found at ");
            let msg = cat(head.as_str(), candidate.as_str());
            assert(candidate@ == crate::paths::join_path(plugin.path@, p@));
            assert(msg@ == hook_missing_message(*plugin, hook));
            MosaicError::Validation(msg)
        },
        None => {
            let head = cat5("plugin '", plugin.id.as_str(), "' has no ", name, " hook. add [runtime].");
            let tail = cat3(" in plugin.toml or create hooks/", name, ".sh");
            let msg = cat3(head.as_str(), name, tail.as_str());
            assert(manifest_hook(*plugin, hook) is None);
            assert(msg@ =~= hook_missing_message(*plugin, hook));
            MosaicError::Validation(msg)
        },
    }
}

/// The error for running a disabled plugin.
pub fn plugin_disabled_error(plugin_id: &str) -> (e: MosaicError)
    ensures
        fails_with(
            Err::<(), MosaicError>(e),
            "plugin '"@ + plugin_id@ + "' is disabled. run `mosaic plugins enable "@ + plugin_id@
                + "` first"@,
        ),
{
    MosaicError::Validation(
        cat5("plugin '", plugin_id, "' is disabled. run `mosaic plugins enable ", plugin_id, "` first"),
    )
}

} // verus!
