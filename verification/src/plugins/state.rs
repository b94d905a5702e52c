//! Which plugins are disabled, and the plugin health check built on it.
use vstd::prelude::*;
use crate::plugins::entry::PluginEntry;
use crate::sorting::{lemma_sorted_set_unique, sorted_distinct_texts, sorted_set_of, text_le, views};
use crate::text::{is_blank_str, lemma_trim_idempotent, str_eq, trim, trim_str};

verus! {

/// The version of the plugin state file.
pub const PLUGIN_STATE_VERSION: u32 = 1;

/// The plugin state: the ids of the disabled plugins.
#[derive(Debug)]
pub struct PluginStateFile {
    pub version: u32,
    pub disabled_plugins: Vec<String>,
}

/// The trimmed ids that are not blank, in order.
pub open spec fn trimmed_ids(s: Seq<Seq<char>>) -> Seq<Seq<char>>
    decreases s.len(),
{
    if s.len() == 0 {
        Seq::<Seq<char>>::empty()
    } else if trim(s.last()).len() == 0 {
        trimmed_ids(s.drop_last())
    } else {
        trimmed_ids(s.drop_last()).push(trim(s.last()))
    }
}

/// `s` without the text `x`.
pub open spec fn without_text(s: Seq<Seq<char>>, x: Seq<char>) -> Seq<Seq<char>> {
    s.filter(|y: Seq<char>| y != x)
}

/// The trimmed texts that are not blank, in order.
pub fn trimmed_list(items: &Vec<String>) -> (out: Vec<String>)
    ensures
        views(out@) == trimmed_ids(views(items@)),
{
    let ghost s = views(items@);
    let mut out: Vec<String> = Vec::new();
    let mut i: usize = 0;
    while i < items.len()
        invariant
            i <= items.len(),
            s == views(items@),
            views(out@) == trimmed_ids(s.take(i as int)),
        decreases items.len() - i,
    {
        proof {
            assert(s.take(i + 1).drop_last() =~= s.take(i as int));
            assert(s.take(i + 1).last() == items@[i as int]@);
        }
        let t = trim_str(items[i].as_str());
        if !t.as_str().is_empty() {
            let ghost before = out@;
            out.push(t);
            assert(views(out@) =~= views(before).push(out@.last()@));
        }
        i += 1;
    }
    assert(s.take(items.len() as int) =~= s);
    out
}

impl PluginStateFile {
    /// No plugin is disabled.
    pub fn new() -> (s: Self)
        ensures
            s.version == PLUGIN_STATE_VERSION,
            s.disabled_plugins@.len() == 0,
    {
        PluginStateFile { version: PLUGIN_STATE_VERSION, disabled_plugins: Vec::new() }
    }

    /// The state as read from its file: version 0 counts as the current
    /// version, and the disabled ids are trimmed, blank ones dropped,
    /// sorted and kept once each.
    pub fn normalized(version: u32, disabled_plugins: Vec<String>) -> (s: Self)
        ensures
            s.version == if version == 0 {
                PLUGIN_STATE_VERSION
            } else {
                version
            },
            sorted_set_of(views(s.disabled_plugins@), trimmed_ids(views(disabled_plugins@))),
    {
        let trimmed = trimmed_list(&disabled_plugins);
        PluginStateFile {
            version: if version == 0 {
                PLUGIN_STATE_VERSION
            } else {
                version
            },
            disabled_plugins: sorted_distinct_texts(&trimmed),
        }
    }

    /// The plugin with this exact id is not disabled.
    pub open spec fn enabled(&self, plugin_id: Seq<char>) -> bool {
        !views(self.disabled_plugins@).contains(plugin_id)
    }

    /// Whether the plugin with this exact id is enabled.
    pub fn is_enabled(&self, plugin_id: &str) -> (b: bool)
        ensures
            b == self.enabled(plugin_id@),
    {
        let mut i: usize = 0;
        while i < self.disabled_plugins.len()
            invariant
                i <= self.disabled_plugins.len(),
                forall|j: int| 0 <= j < i ==> (#[trigger] self.disabled_plugins@[j])@ != plugin_id@,
            decreases self.disabled_plugins.len() - i,
        {
            if str_eq(self.disabled_plugins[i].as_str(), plugin_id) {
                assert(views(self.disabled_plugins@)[i as int] == plugin_id@);
                return false;
            }
            i += 1;
        }
        assert(!views(self.disabled_plugins@).contains(plugin_id@)) by {
            if views(self.disabled_plugins@).contains(plugin_id@) {
                let j = choose|j: int|
                    0 <= j < views(self.disabled_plugins@).len() && views(
                        self.disabled_plugins@,
                    )[j] == plugin_id@;
                assert(self.disabled_plugins@[j]@ == plugin_id@);
            }
        }
        true
    }

    /// Enables or disables a plugin by its trimmed id; whether that changed
    /// the state.  A blank id changes nothing.  The disabled ids are kept
    /// trimmed, sorted and once each.
    pub fn set_enabled(&mut self, plugin_id: &str, enabled: bool) -> (changed: bool)
        ensures
            final(self).version == old(self).version,
            trim(plugin_id@).len() == 0 ==> !changed && final(self).disabled_plugins@ == old(
                self,
            ).disabled_plugins@,
            trim(plugin_id@).len() > 0 ==> {
                let ids = trimmed_ids(views(old(self).disabled_plugins@));
                let n = trim(plugin_id@);
                &&& changed == if enabled {
                    ids.contains(n)
                } else {
                    !ids.contains(n)
                }
                &&& sorted_set_of(
                    views(final(self).disabled_plugins@),
                    if enabled {
                        without_text(ids, n)
                    } else {
                        ids.push(n)
                    },
                )
            },
    {
        let normalized = trim_str(plugin_id);
        if normalized.as_str().is_empty() {
            return false;
        }
        let trimmed = trimmed_list(&self.disabled_plugins);
        let ghost ids = views(trimmed@);
        let mut present = false;
        let mut kept: Vec<String> = Vec::new();
        let mut i: usize = 0;
        while i < trimmed.len()
            invariant
                i <= trimmed.len(),
                ids == views(trimmed@),
                views(kept@) == without_text(ids.take(i as int), normalized@),
                present == ids.take(i as int).contains(normalized@),
            decreases trimmed.len() - i,
        {
            let ghost t0 = ids.take(i as int);
            let ghost t1 = ids.take(i + 1);
            proof {
                assert(t1.drop_last() =~= t0);
                assert(t1 =~= t0.push(trimmed@[i as int]@));
                reveal(Seq::filter);
            }
            if str_eq(trimmed[i].as_str(), normalized.as_str()) {
                present = true;
                assert(t1[i as int] == normalized@);
            } else {
                let ghost before = kept@;
                kept.push(trimmed[i].clone());
                assert(views(kept@) =~= views(before).push(trimmed@[i as int]@));
            }
            proof {
                if t0.contains(normalized@) {
                    let k = choose|k: int| 0 <= k < t0.len() && #[trigger] t0[k] == normalized@;
                    assert(t1[k] == normalized@);
                }
                if t1.contains(normalized@) && !t0.contains(normalized@) {
                    let k = choose|k: int| 0 <= k < t1.len() && #[trigger] t1[k] == normalized@;
                    if k < i {
                        assert(t0[k] == normalized@);
                    }
                }
            }
            i += 1;
        }
        assert(ids.take(trimmed.len() as int) =~= ids);
        let changed = if enabled {
            present
        } else {
            !present
        };
        if enabled {
            self.disabled_plugins = sorted_distinct_texts(&kept);
        } else {
            let mut all = trimmed;
            let ghost before = all@;
            all.push(normalized);
            assert(views(all@) =~= views(before).push(all@.last()@));
            self.disabled_plugins = sorted_distinct_texts(&all);
        }
        changed
    }
}

impl Default for PluginStateFile {
    fn default() -> (s: Self)
        ensures
            s.version == PLUGIN_STATE_VERSION,
            s.disabled_plugins@.len() == 0,
    {
        PluginStateFile::new()
    }
}

/// Disabling a plugin makes it disabled, and enabling it makes it enabled,
/// under its trimmed id.
pub proof fn law_set_enabled_takes_effect(
    old_state: PluginStateFile,
    new_state: PluginStateFile,
    plugin_id: Seq<char>,
    enabled: bool,
)
    requires
        trim(plugin_id).len() > 0,
        sorted_set_of(
            views(new_state.disabled_plugins@),
            if enabled {
                without_text(trimmed_ids(views(old_state.disabled_plugins@)), trim(plugin_id))
            } else {
                trimmed_ids(views(old_state.disabled_plugins@)).push(trim(plugin_id))
            },
        ),
    ensures
        new_state.enabled(trim(plugin_id)) == enabled,
{
    let ids = trimmed_ids(views(old_state.disabled_plugins@));
    let n = trim(plugin_id);
    if enabled {
        reveal(Seq::filter);
        if without_text(ids, n).contains(n) {
            let k = choose|k: int| 0 <= k < without_text(ids, n).len() && without_text(ids, n)[k]
                == n;
            ids.lemma_filter_pred(|y: Seq<char>| y != n, k);
        }
    } else {
        assert(ids.push(n)[ids.len() as int] == n);
    }
}

/// What is left of `s` without `x`: the texts of `s` other than `x`.
proof fn lemma_without_text(s: Seq<Seq<char>>, x: Seq<char>)
    ensures
        forall|t: Seq<char>| #[trigger] without_text(s, x).contains(t) <==> (s.contains(t) && t != x),
    decreases s.len(),
{
    reveal(Seq::filter);
    if s.len() > 0 {
        let d = s.drop_last();
        lemma_without_text(d, x);
        let prev = without_text(d, x);
        assert(without_text(s, x) == if s.last() != x {
            prev.push(s.last())
        } else {
            prev
        });
        assert forall|t: Seq<char>| #[trigger] without_text(s, x).contains(t) <==> (s.contains(t) && t != x) by {
            let w = without_text(s, x);
            if w.contains(t) {
                let k = choose|k: int| 0 <= k < w.len() && w[k] == t;
                if k < prev.len() {
                    assert(prev[k] == t);
                    assert(prev.contains(t));
                    let i = choose|i: int| 0 <= i < d.len() && d[i] == t;
                    assert(s[i] == t);
                } else {
                    assert(s[s.len() - 1] == t);
                }
            }
            if s.contains(t) && t != x {
                let i = choose|i: int| 0 <= i < s.len() && s[i] == t;
                if i < s.len() - 1 {
                    assert(d[i] == t);
                    assert(d.contains(t));
                    assert(prev.contains(t));
                    let k = choose|k: int| 0 <= k < prev.len() && prev[k] == t;
                    assert(w[k] == t);
                } else {
                    assert(w[prev.len() as int] == t);
                }
            }
        }
    }
}

/// Every id that `trimmed_ids` keeps is trimmed and not empty.
proof fn lemma_trimmed_ids_clean(s: Seq<Seq<char>>)
    ensures
        forall|x: Seq<char>| #[trigger] trimmed_ids(s).contains(x) ==> trim(x) == x && x.len() > 0,
    decreases s.len(),
{
    if s.len() > 0 {
        lemma_trimmed_ids_clean(s.drop_last());
        lemma_trim_idempotent(s.last());
        let prev = trimmed_ids(s.drop_last());
        if trim(s.last()).len() != 0 {
            assert forall|x: Seq<char>| #[trigger] prev.push(trim(s.last())).contains(x) implies trim(x)
                == x && x.len() > 0 by {
                let i = choose|i: int| 0 <= i < prev.push(trim(s.last())).len() && prev.push(trim(s.last()))[i] == x;
                if i < prev.len() {
                    assert(prev[i] == x);
                    assert(prev.contains(x));
                }
            }
        }
    }
}

/// Ids that are all trimmed and not empty are kept as they are.
proof fn lemma_trimmed_ids_of_clean(v: Seq<Seq<char>>)
    requires
        forall|i: int| 0 <= i < v.len() ==> trim(#[trigger] v[i]) == v[i] && v[i].len() > 0,
    ensures
        trimmed_ids(v) == v,
    decreases v.len(),
{
    if v.len() > 0 {
        assert(v.last() == v[v.len() - 1]);
        lemma_trimmed_ids_of_clean(v.drop_last());
        assert(v.drop_last().push(v.last()) =~= v);
    }
}

/// Repeating a `set_enabled` call at once changes nothing: the second call
/// reports no change and leaves the disabled ids as the first call left
/// them.  `first` is the state after the first call and `second` after the
/// repeat, each as `set_enabled` states it.
pub proof fn law_set_enabled_repeat_changes_nothing(
    start: PluginStateFile,
    first: PluginStateFile,
    second: PluginStateFile,
    plugin_id: Seq<char>,
    enabled: bool,
    changed_again: bool,
)
    requires
        trim(plugin_id).len() > 0,
        sorted_set_of(
            views(first.disabled_plugins@),
            if enabled {
                without_text(trimmed_ids(views(start.disabled_plugins@)), trim(plugin_id))
            } else {
                trimmed_ids(views(start.disabled_plugins@)).push(trim(plugin_id))
            },
        ),
        changed_again == if enabled {
            trimmed_ids(views(first.disabled_plugins@)).contains(trim(plugin_id))
        } else {
            !trimmed_ids(views(first.disabled_plugins@)).contains(trim(plugin_id))
        },
        sorted_set_of(
            views(second.disabled_plugins@),
            if enabled {
                without_text(trimmed_ids(views(first.disabled_plugins@)), trim(plugin_id))
            } else {
                trimmed_ids(views(first.disabled_plugins@)).push(trim(plugin_id))
            },
        ),
    ensures
        !changed_again,
        views(second.disabled_plugins@) == views(first.disabled_plugins@),
{
    let n = trim(plugin_id);
    let ids0 = trimmed_ids(views(start.disabled_plugins@));
    let v1 = views(first.disabled_plugins@);
    lemma_trim_idempotent(plugin_id);
    lemma_trimmed_ids_clean(views(start.disabled_plugins@));
    lemma_without_text(ids0, n);
    assert forall|i: int| 0 <= i < v1.len() implies trim(#[trigger] v1[i]) == v1[i] && v1[i].len() > 0 by {
        assert(v1.contains(v1[i]));
        if !enabled {
            let w = ids0.push(n);
            assert(w.contains(v1[i]));
            let k = choose|k: int| 0 <= k < w.len() && w[k] == v1[i];
            if k < ids0.len() {
                assert(ids0[k] == w[k]);
                assert(ids0.contains(ids0[k]));
            }
        }
    }
    lemma_trimmed_ids_of_clean(v1);
    if enabled {
        lemma_without_text(v1, n);
        lemma_sorted_set_unique(views(second.disabled_plugins@), v1, without_text(v1, n), v1);
    } else {
        let w = ids0.push(n);
        assert(w[ids0.len() as int] == n);
        assert(w.contains(n));
        assert(v1.contains(n));
        let w2 = v1.push(n);
        assert forall|x: Seq<char>| w2.contains(x) <==> v1.contains(x) by {
            if w2.contains(x) {
                let k = choose|k: int| 0 <= k < w2.len() && w2[k] == x;
                if k < v1.len() {
                    assert(v1[k] == x);
                }
            }
            if v1.contains(x) {
                let j = choose|j: int| 0 <= j < v1.len() && v1[j] == x;
                assert(w2[j] == x);
            }
        }
        lemma_sorted_set_unique(views(second.disabled_plugins@), v1, w2, v1);
    }
}

/// On a state as loaded (its disabled ids trimmed, sorted and kept once,
/// as `normalized` makes them), enabling a plugin that is enabled, or
/// disabling one that is disabled, reports no change and leaves the
/// disabled ids as they were, so nothing needs saving.
pub proof fn law_set_enabled_when_already_so_changes_nothing(
    raw: Seq<Seq<char>>,
    state: PluginStateFile,
    after: PluginStateFile,
    plugin_id: Seq<char>,
    enabled: bool,
    changed: bool,
)
    requires
        sorted_set_of(views(state.disabled_plugins@), trimmed_ids(raw)),
        trim(plugin_id).len() > 0,
        state.enabled(trim(plugin_id)) == enabled,
        changed == if enabled {
            trimmed_ids(views(state.disabled_plugins@)).contains(trim(plugin_id))
        } else {
            !trimmed_ids(views(state.disabled_plugins@)).contains(trim(plugin_id))
        },
        sorted_set_of(
            views(after.disabled_plugins@),
            if enabled {
                without_text(trimmed_ids(views(state.disabled_plugins@)), trim(plugin_id))
            } else {
                trimmed_ids(views(state.disabled_plugins@)).push(trim(plugin_id))
            },
        ),
    ensures
        !changed,
        views(after.disabled_plugins@) == views(state.disabled_plugins@),
{
    let n = trim(plugin_id);
    let v = views(state.disabled_plugins@);
    lemma_trimmed_ids_clean(raw);
    assert forall|i: int| 0 <= i < v.len() implies trim(#[trigger] v[i]) == v[i] && v[i].len() > 0 by {
        assert(v.contains(v[i]));
        assert(trimmed_ids(raw).contains(v[i]));
    }
    lemma_trimmed_ids_of_clean(v);
    if enabled {
        lemma_without_text(v, n);
        lemma_sorted_set_unique(views(after.disabled_plugins@), v, without_text(v, n), v);
    } else {
        let w = v.push(n);
        assert forall|x: Seq<char>| w.contains(x) <==> v.contains(x) by {
            if w.contains(x) {
                let k = choose|k: int| 0 <= k < w.len() && w[k] == x;
                if k < v.len() {
                    assert(v[k] == x);
                }
            }
            if v.contains(x) {
                let j = choose|j: int| 0 <= j < v.len() && v[j] == x;
                assert(w[j] == x);
            }
        }
        lemma_sorted_set_unique(views(after.disabled_plugins@), v, w, v);
    }
}

/// A plugin as the health check sees it: its id and whether its run and
/// doctor hooks are missing.
#[derive(Debug)]
pub struct PluginDoctorInput {
    pub id: String,
    pub missing_run_hook: bool,
    pub missing_doctor_hook: bool,
}

/// The health check of the plugins.
#[derive(Debug)]
pub struct PluginDoctorSummary {
    pub enabled_plugins: usize,
    pub disabled_plugin_ids: Vec<String>,
    pub stale_disabled_ids: Vec<String>,
    pub runtime_missing_run_hooks: Vec<String>,
    pub runtime_missing_doctor_hooks: Vec<String>,
    pub runtime_runnable_plugins: usize,
    pub health_ok: bool,
}

/// The ids of the plugins that `disabled` disables, in order.
pub open spec fn disabled_ids(s: Seq<PluginDoctorInput>, disabled: Seq<Seq<char>>) -> Seq<Seq<char>>
    decreases s.len(),
{
    if s.len() == 0 {
        Seq::<Seq<char>>::empty()
    } else if disabled.contains(s.last().id@) {
        disabled_ids(s.drop_last(), disabled).push(s.last().id@)
    } else {
        disabled_ids(s.drop_last(), disabled)
    }
}

/// The ids of the enabled plugins whose run hook (`run`) or doctor hook is
/// missing, in order.
pub open spec fn missing_hooks(s: Seq<PluginDoctorInput>, disabled: Seq<Seq<char>>, run: bool) -> Seq<
    Seq<char>,
>
    decreases s.len(),
{
    if s.len() == 0 {
        Seq::<Seq<char>>::empty()
    } else {
        let p = s.last();
        let missing = if run {
            p.missing_run_hook
        } else {
            p.missing_doctor_hook
        };
        if !disabled.contains(p.id@) && missing {
            missing_hooks(s.drop_last(), disabled, run).push(p.id@)
        } else {
            missing_hooks(s.drop_last(), disabled, run)
        }
    }
}

/// The disabled ids of no installed plugin, in order.
pub open spec fn stale_ids(disabled: Seq<Seq<char>>, installed: Seq<Seq<char>>) -> Seq<Seq<char>> {
    disabled.filter(|d: Seq<char>| !installed.contains(d))
}

proof fn lemma_filtered_len(s: Seq<PluginDoctorInput>, disabled: Seq<Seq<char>>)
    ensures
        disabled_ids(s, disabled).len() <= s.len(),
        missing_hooks(s, disabled, true).len() + disabled_ids(s, disabled).len() <= s.len(),
        missing_hooks(s, disabled, false).len() + disabled_ids(s, disabled).len() <= s.len(),
    decreases s.len(),
{
    if s.len() > 0 {
        lemma_filtered_len(s.drop_last(), disabled);
    }
}

/// Checks the plugins' health: which are disabled, which disabled ids name
/// no installed plugin, which enabled plugins lack a run or doctor hook,
/// and whether all is well (the plugin report is, nothing is stale and no
/// run hook is missing).
pub fn summarize_plugin_doctor(
    plugins: &Vec<PluginDoctorInput>,
    state: &PluginStateFile,
    report_ok: bool,
) -> (out: PluginDoctorSummary)
    ensures
        ({
            let disabled = views(state.disabled_plugins@);
            let ids = plugins@.map_values(|p: PluginDoctorInput| p.id@);
            &&& views(out.disabled_plugin_ids@) == disabled_ids(plugins@, disabled)
            &&& out.enabled_plugins == plugins@.len() - disabled_ids(plugins@, disabled).len()
            &&& views(out.runtime_missing_run_hooks@) == missing_hooks(plugins@, disabled, true)
            &&& views(out.runtime_missing_doctor_hooks@) == missing_hooks(plugins@, disabled, false)
            &&& out.runtime_runnable_plugins == out.enabled_plugins - missing_hooks(
                plugins@,
                disabled,
                true,
            ).len()
            &&& views(out.stale_disabled_ids@) == stale_ids(disabled, ids)
            &&& out.health_ok == (report_ok && out.stale_disabled_ids@.len() == 0
                && out.runtime_missing_run_hooks@.len() == 0)
        }),
{
    let ghost disabled = views(state.disabled_plugins@);
    let ghost s = plugins@;
    let mut off: Vec<String> = Vec::new();
    let mut missing_run: Vec<String> = Vec::new();
    let mut missing_doctor: Vec<String> = Vec::new();
    let mut i: usize = 0;
    while i < plugins.len()
        invariant
            i <= plugins.len(),
            s == plugins@,
            disabled == views(state.disabled_plugins@),
            views(off@) == disabled_ids(s.take(i as int), disabled),
            views(missing_run@) == missing_hooks(s.take(i as int), disabled, true),
            views(missing_doctor@) == missing_hooks(s.take(i as int), disabled, false),
        decreases plugins.len() - i,
    {
        proof {
            assert(s.take(i + 1).drop_last() =~= s.take(i as int));
            assert(s.take(i + 1).last() == s[i as int]);
        }
        let p = &plugins[i];
        if !state.is_enabled(p.id.as_str()) {
            let ghost b = off@;
            off.push(p.id.clone());
            assert(views(off@) =~= views(b).push(p.id@));
        } else {
            if p.missing_run_hook {
                let ghost b = missing_run@;
                missing_run.push(p.id.clone());
                assert(views(missing_run@) =~= views(b).push(p.id@));
            }
            if p.missing_doctor_hook {
                let ghost b = missing_doctor@;
                missing_doctor.push(p.id.clone());
                assert(views(missing_doctor@) =~= views(b).push(p.id@));
            }
        }
        i += 1;
    }
    assert(s.take(plugins.len() as int) =~= s);
    proof {
        lemma_filtered_len(s, disabled);
    }
    let ghost ids = s.map_values(|p: PluginDoctorInput| p.id@);
    let mut stale: Vec<String> = Vec::new();
    let mut k: usize = 0;
    while k < state.disabled_plugins.len()
        invariant
            k <= state.disabled_plugins.len(),
            s == plugins@,
            disabled == views(state.disabled_plugins@),
            ids == s.map_values(|p: PluginDoctorInput| p.id@),
            views(stale@) == stale_ids(disabled.take(k as int), ids),
        decreases state.disabled_plugins.len() - k,
    {
        proof {
            assert(disabled.take(k + 1).drop_last() =~= disabled.take(k as int));
            reveal(Seq::filter);
        }
        let d = &state.disabled_plugins[k];
        let mut installed = false;
        let mut j: usize = 0;
        while j < plugins.len()
            invariant
                j <= plugins.len(),
                s == plugins@,
                ids == s.map_values(|p: PluginDoctorInput| p.id@),
                installed == ids.take(j as int).contains(d@),
            decreases plugins.len() - j,
        {
            let ghost t0 = ids.take(j as int);
            let ghost t1 = ids.take(j + 1);
            proof {
                assert(t1 =~= t0.push(s[j as int].id@));
            }
            if str_eq(plugins[j].id.as_str(), d.as_str()) {
                installed = true;
                assert(t1[j as int] == d@);
            }
            proof {
                if t0.contains(d@) {
                    let k = choose|k: int| 0 <= k < t0.len() && #[trigger] t0[k] == d@;
                    assert(t1[k] == d@);
                }
                if t1.contains(d@) && !t0.contains(d@) {
                    let k = choose|k: int| 0 <= k < t1.len() && #[trigger] t1[k] == d@;
                    if k < j {
                        assert(t0[k] == d@);
                    }
                }
            }
            j += 1;
        }
        assert(ids.take(plugins.len() as int) =~= ids);
        if !installed {
            let ghost b = stale@;
            stale.push(d.clone());
            assert(views(stale@) =~= views(b).push(d@));
        }
        k += 1;
    }
    assert(disabled.take(state.disabled_plugins.len() as int) =~= disabled);
    let enabled_plugins = plugins.len() - off.len();
    let runnable = enabled_plugins - missing_run.len();
    let health_ok = report_ok && stale.len() == 0 && missing_run.len() == 0;
    PluginDoctorSummary {
        enabled_plugins,
        disabled_plugin_ids: off,
        stale_disabled_ids: stale,
        runtime_missing_run_hooks: missing_run,
        runtime_missing_doctor_hooks: missing_doctor,
        runtime_runnable_plugins: runnable,
        health_ok,
    }
}

/// A plugin and whether it is enabled.
#[derive(Debug)]
pub struct PluginView {
    pub plugin: PluginEntry,
    pub enabled: bool,
}

/// Pairs each plugin with whether the state file enables it, in order.
pub fn plugin_views_with_state(plugins: Vec<PluginEntry>, plugin_state: &PluginStateFile) -> (out: Vec<
    PluginView,
>)
    ensures
        out@.len() == plugins@.len(),
        forall|i: int|
            0 <= i < out@.len() ==> (#[trigger] out@[i]).plugin == plugins@[i] && out@[i].enabled
                == plugin_state.enabled(plugins@[i].id@),
{
    let ghost all = plugins@;
    let mut out: Vec<PluginView> = Vec::new();
    for plugin in it: plugins
        invariant
            it.seq() == all,
            out@.len() == it.index(),
            forall|i: int|
                0 <= i < out@.len() ==> (#[trigger] out@[i]).plugin == all[i] && out@[i].enabled
                    == plugin_state.enabled(all[i].id@),
    {
        let enabled = plugin_state.is_enabled(plugin.id.as_str());
        out.push(PluginView { plugin, enabled });
    }
    out
}

} // verus!
