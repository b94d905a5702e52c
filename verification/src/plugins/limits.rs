//! The runtime limits of a plugin hook: its timeout, how much output is
//! kept, its CPU and memory limits with the watchdog that guards them, the
//! usage measured after a run and whether the run kept to its limits.
use vstd::prelude::*;
use crate::error::{MosaicError, fails_with};
use crate::plugins::entry::PluginEntry;
use crate::text::{cat, cat3, cat5, decimal, u64_to_string};

verus! {

/// The timeout of a hook when neither the command line nor the plugin sets
/// one.
pub const DEFAULT_PLUGIN_HOOK_TIMEOUT_MS: u64 = 15_000;

/// The output kept of a hook when the plugin sets no limit.
pub const DEFAULT_PLUGIN_MAX_OUTPUT_BYTES: u64 = 262_144;

/// The most output a plugin may ask to keep (16 MiB).
pub const MAX_PLUGIN_MAX_OUTPUT_BYTES: u64 = 16_777_216;

/// The wall-time budget per CPU millisecond that the watchdog allows.
pub const PLUGIN_CPU_WATCHDOG_MULTIPLIER: u64 = 4;

/// The smallest wall-time budget that the watchdog derives.
pub const PLUGIN_CPU_WATCHDOG_MIN_BUDGET_MS: u64 = 200;

/// The smallest memory limit that is set on the hook process (16 MiB);
/// smaller ones are only checked after the run.
pub const MIN_PLUGIN_MEMORY_RLIMIT_BYTES: u64 = 16_777_216;

/// The CPU and memory limits of a hook.
#[derive(Debug, Clone, Copy, PartialEq, Eq, Structural)]
pub struct PluginResourceLimits {
    pub max_cpu_ms: Option<u64>,
    pub max_rss_kb: Option<u64>,
}

impl PluginResourceLimits {
    /// Some limit is set.
    pub open spec fn configured(self) -> bool {
        self.max_cpu_ms is Some || self.max_rss_kb is Some
    }

    /// Whether some limit is set.
    pub fn is_configured(self) -> (b: bool)
        ensures
            b == self.configured(),
    {
        self.max_cpu_ms.is_some() || self.max_rss_kb.is_some()
    }

    /// The limits when some are set.
    pub fn as_option(self) -> (o: Option<Self>)
        ensures
            o == if self.configured() {
                Some(self)
            } else {
                None::<Self>
            },
    {
        if self.is_configured() {
            Some(self)
        } else {
            None
        }
    }
}

/// A runtime setting of the plugin, if it has runtime settings.
pub open spec fn runtime_timeout(p: PluginEntry) -> Option<u64> {
    match p.runtime {
        Some(r) => r.timeout_ms,
        None => None,
    }
}

/// The output limit the plugin sets.
pub open spec fn runtime_max_output(p: PluginEntry) -> Option<u64> {
    match p.runtime {
        Some(r) => r.max_output_bytes,
        None => None,
    }
}

/// The CPU limit the plugin sets.
pub open spec fn runtime_max_cpu(p: PluginEntry) -> Option<u64> {
    match p.runtime {
        Some(r) => r.max_cpu_ms,
        None => None,
    }
}

/// The memory limit the plugin sets.
pub open spec fn runtime_max_rss(p: PluginEntry) -> Option<u64> {
    match p.runtime {
        Some(r) => r.max_rss_kb,
        None => None,
    }
}

/// The watchdog budget the plugin sets.
pub open spec fn runtime_watchdog(p: PluginEntry) -> Option<u64> {
    match p.runtime {
        Some(r) => r.cpu_watchdog_ms,
        None => None,
    }
}

/// The timeout of a hook run: the command line's, else the plugin's, else
/// the default; zero is refused.
pub fn resolve_plugin_timeout_ms(plugin: &PluginEntry, cli_timeout_ms: Option<u64>) -> (out: Result<
    u64,
    MosaicError,
>)
    ensures
        ({
            let t = match cli_timeout_ms {
                Some(v) => v,
                None => match runtime_timeout(*plugin) {
                    Some(v) => v,
                    None => DEFAULT_PLUGIN_HOOK_TIMEOUT_MS,
                },
            };
            if t == 0 {
                fails_with(out, "plugin runtime timeout_ms must be greater than 0"@)
            } else {
                out == Ok::<u64, MosaicError>(t)
            }
        }),
{
    let from_plugin = match &plugin.runtime {
        Some(r) => r.timeout_ms,
        None => None,
    };
    let t = match cli_timeout_ms {
        Some(v) => v,
        None => match from_plugin {
            Some(v) => v,
            None => DEFAULT_PLUGIN_HOOK_TIMEOUT_MS,
        },
    };
    if t == 0 {
        return Err(
            MosaicError::Validation(
                crate::text::owned("plugin runtime timeout_ms must be greater than 0"),
            ),
        );
    }
    Ok(t)
}

/// How much of a hook's output is kept: the plugin's limit, else the
/// default; zero and more than 16 MiB are refused.
pub fn resolve_plugin_max_output_bytes(plugin: &PluginEntry) -> (out: Result<u64, MosaicError>)
    ensures
        ({
            let b = match runtime_max_output(*plugin) {
                Some(v) => v,
                None => DEFAULT_PLUGIN_MAX_OUTPUT_BYTES,
            };
            if b == 0 {
                fails_with(
                    out,
                    "plugin '"@ + plugin.id@ + "' runtime max_output_bytes must be greater than 0"@,
                )
            } else if b > MAX_PLUGIN_MAX_OUTPUT_BYTES {
                fails_with(
                    out,
                    "plugin '"@ + plugin.id@ + "' runtime max_output_bytes must be <= "@ + decimal(
                        MAX_PLUGIN_MAX_OUTPUT_BYTES as nat,
                    ),
                )
            } else {
                out == Ok::<u64, MosaicError>(b)
            }
        }),
{
    let b = match &plugin.runtime {
        Some(r) => match r.max_output_bytes {
            Some(v) => v,
            None => DEFAULT_PLUGIN_MAX_OUTPUT_BYTES,
        },
        None => DEFAULT_PLUGIN_MAX_OUTPUT_BYTES,
    };
    if b == 0 {
        return Err(
            MosaicError::Validation(
                cat3("plugin '", plugin.id.as_str(), "' runtime max_output_bytes must be greater than 0"),
            ),
        );
    }
    if b > MAX_PLUGIN_MAX_OUTPUT_BYTES {
        let max = u64_to_string(MAX_PLUGIN_MAX_OUTPUT_BYTES);
        let head = cat3("plugin '", plugin.id.as_str(), "' runtime max_output_bytes must be <= ");
        return Err(MosaicError::Validation(cat(head.as_str(), max.as_str())));
    }
    Ok(b)
}

/// The CPU and memory limits of a plugin's hooks; zero limits are refused.
pub fn resolve_plugin_resource_limits(plugin: &PluginEntry) -> (out: Result<
    PluginResourceLimits,
    MosaicError,
>)
    ensures
        runtime_max_cpu(*plugin) == Some(0u64) ==> fails_with(
            out,
            "plugin '"@ + plugin.id@ + "' runtime max_cpu_ms must be greater than 0"@,
        ),
        runtime_max_cpu(*plugin) != Some(0u64) && runtime_max_rss(*plugin) == Some(0u64)
            ==> fails_with(
            out,
            "plugin '"@ + plugin.id@ + "' runtime max_rss_kb must be greater than 0"@,
        ),
        runtime_max_cpu(*plugin) != Some(0u64) && runtime_max_rss(*plugin) != Some(0u64) ==> out
            == Ok::<PluginResourceLimits, MosaicError>(
            PluginResourceLimits {
                max_cpu_ms: runtime_max_cpu(*plugin),
                max_rss_kb: runtime_max_rss(*plugin),
            },
        ),
{
    let (max_cpu_ms, max_rss_kb) = match &plugin.runtime {
        Some(r) => (r.max_cpu_ms, r.max_rss_kb),
        None => (None, None),
    };
    if max_cpu_ms == Some(0u64) {
        return Err(
            MosaicError::Validation(
                cat3("plugin '", plugin.id.as_str(), "' runtime max_cpu_ms must be greater than 0"),
            ),
        );
    }
    if max_rss_kb == Some(0u64) {
        return Err(
            MosaicError::Validation(
                cat3("plugin '", plugin.id.as_str(), "' runtime max_rss_kb must be greater than 0"),
            ),
        );
    }
    Ok(PluginResourceLimits { max_cpu_ms, max_rss_kb })
}

/// The message for a memory limit where no memory usage can be measured.
pub open spec fn rss_unsupported_message(plugin_id: Seq<char>) -> Seq<char> {
    "plugin '"@ + plugin_id + "' runtime max_rss_kb requires unix-like metrics support"@
}

fn rss_unsupported(plugin_id: &str) -> (e: MosaicError)
    ensures
        fails_with(Err::<(), MosaicError>(e), rss_unsupported_message(plugin_id@)),
{
    MosaicError::Validation(
        cat3("plugin '", plugin_id, "' runtime max_rss_kb requires unix-like metrics support"),
    )
}

/// Checks that the platform can enforce the limits: a memory limit needs the
/// usage metrics of unix-like platforms (`metrics_supported`).
pub fn validate_plugin_resource_limits_platform(
    plugin: &PluginEntry,
    limits: PluginResourceLimits,
    metrics_supported: bool,
) -> (out: Result<(), MosaicError>)
    ensures
        !metrics_supported && limits.max_rss_kb is Some ==> fails_with(
            out,
            rss_unsupported_message(plugin.id@),
        ),
        metrics_supported || limits.max_rss_kb is None ==> out is Ok,
{
    if !metrics_supported && limits.max_rss_kb.is_some() {
        return Err(rss_unsupported(plugin.id.as_str()));
    }
    Ok(())
}

/// The watchdog budget that a plugin sets; zero is refused.
pub fn resolve_plugin_cpu_watchdog_ms(plugin: &PluginEntry) -> (out: Result<
    Option<u64>,
    MosaicError,
>)
    ensures
        runtime_watchdog(*plugin) == Some(0u64) ==> fails_with(
            out,
            "plugin '"@ + plugin.id@ + "' runtime cpu_watchdog_ms must be greater than 0"@,
        ),
        runtime_watchdog(*plugin) != Some(0u64) ==> out == Ok::<Option<u64>, MosaicError>(
            runtime_watchdog(*plugin),
        ),
{
    let w = match &plugin.runtime {
        Some(r) => r.cpu_watchdog_ms,
        None => None,
    };
    if w == Some(0u64) {
        return Err(
            MosaicError::Validation(
                cat3("plugin '", plugin.id.as_str(), "' runtime cpu_watchdog_ms must be greater than 0"),
            ),
        );
    }
    Ok(w)
}

/// The wall-time budget of the watchdog: the plugin's budget, else four
/// times the CPU limit (at least 200 ms); none without either, or when the
/// budget does not fall short of the timeout.
pub open spec fn watchdog_budget(
    timeout_ms: u64,
    limits: PluginResourceLimits,
    cpu_watchdog_ms: Option<u64>,
) -> Option<u64> {
    let raw = match cpu_watchdog_ms {
        Some(w) => Some(w as int),
        None => match limits.max_cpu_ms {
            Some(c) => {
                let scaled = if c * 4 > u64::MAX {
                    u64::MAX as int
                } else {
                    c * 4
                };
                Some(if scaled < 200 {
                    200
                } else {
                    scaled
                })
            },
            None => None,
        },
    };
    match raw {
        None => None,
        Some(b) => {
            let budget = if b < timeout_ms {
                b
            } else {
                timeout_ms as int
            };
            if budget < timeout_ms {
                Some(budget as u64)
            } else {
                None
            }
        },
    }
}

/// The wall-time budget of the CPU watchdog for a hook run.
pub fn resolve_plugin_cpu_watchdog_budget_ms(
    timeout_ms: u64,
    limits: PluginResourceLimits,
    cpu_watchdog_ms: Option<u64>,
) -> (out: Option<u64>)
    ensures
        out == watchdog_budget(timeout_ms, limits, cpu_watchdog_ms),
{
    let raw = match cpu_watchdog_ms {
        Some(w) => w,
        None => match limits.max_cpu_ms {
            Some(c) => {
                let scaled = if c > u64::MAX / PLUGIN_CPU_WATCHDOG_MULTIPLIER {
                    u64::MAX
                } else {
                    c * PLUGIN_CPU_WATCHDOG_MULTIPLIER
                };
                if scaled < PLUGIN_CPU_WATCHDOG_MIN_BUDGET_MS {
                    PLUGIN_CPU_WATCHDOG_MIN_BUDGET_MS
                } else {
                    scaled
                }
            },
            None => return None,
        },
    };
    let budget = if raw < timeout_ms {
        raw
    } else {
        timeout_ms
    };
    if budget < timeout_ms {
        Some(budget)
    } else {
        None
    }
}

/// Microseconds as whole milliseconds, rounded up, at most `u64::MAX`.
pub open spec fn micros_as_ms(value: u128) -> u64 {
    let rounded = (if value + 999 > u128::MAX {
        u128::MAX as int
    } else {
        value + 999
    }) / 1000;
    if rounded > u64::MAX {
        u64::MAX
    } else {
        rounded as u64
    }
}

/// Microseconds as whole milliseconds, rounded up.
pub fn micros_to_ms(value: u128) -> (ms: u64)
    ensures
        ms == micros_as_ms(value),
{
    let rounded = value.saturating_add(999) / 1_000;
    if rounded > (u64::MAX as u128) {
        u64::MAX
    } else {
        rounded as u64
    }
}

/// The CPU times (in microseconds) and the peak memory (in KiB) of the
/// finished child processes.
#[derive(Debug, Clone, Copy)]
pub struct ChildCpuUsage {
    pub user_micros: u128,
    pub system_micros: u128,
    pub max_rss_kb: u64,
}

/// The usage of a hook run.
#[derive(Debug, Clone, Copy, PartialEq, Eq, Structural)]
pub struct PluginResourceMetrics {
    pub cpu_user_ms: Option<u64>,
    pub cpu_system_ms: Option<u64>,
    pub cpu_total_ms: Option<u64>,
    pub max_rss_kb: Option<u64>,
}

/// `a - b`, or zero when `b` is larger.
pub open spec fn minus_or_zero(a: u128, b: u128) -> u128 {
    if a >= b {
        (a - b) as u128
    } else {
        0
    }
}

/// The usage of a hook run from the usage of the children before and after
/// it: the CPU times spent in between and the peak memory after; none
/// without both.
pub open spec fn usage_between(start: Option<ChildCpuUsage>, end: Option<ChildCpuUsage>) -> Option<
    PluginResourceMetrics,
> {
    match (start, end) {
        (Some(s), Some(e)) => {
            let user = micros_as_ms(minus_or_zero(e.user_micros, s.user_micros));
            let system = micros_as_ms(minus_or_zero(e.system_micros, s.system_micros));
            let total = if user + system > u64::MAX {
                u64::MAX
            } else {
                (user + system) as u64
            };
            Some(
                PluginResourceMetrics {
                    cpu_user_ms: Some(user),
                    cpu_system_ms: Some(system),
                    cpu_total_ms: Some(total),
                    max_rss_kb: Some(e.max_rss_kb),
                },
            )
        },
        _ => None,
    }
}

/// The usage of a hook run from the usage of the children before and after
/// it.
pub fn plugin_resource_metrics(
    cpu_started: Option<ChildCpuUsage>,
    cpu_finished: Option<ChildCpuUsage>,
) -> (out: Option<PluginResourceMetrics>)
    ensures
        out == usage_between(cpu_started, cpu_finished),
{
    match (cpu_started, cpu_finished) {
        (Some(s), Some(e)) => {
            let user = micros_to_ms(e.user_micros.saturating_sub(s.user_micros));
            let system = micros_to_ms(e.system_micros.saturating_sub(s.system_micros));
            let total = user.saturating_add(system);
            Some(
                PluginResourceMetrics {
                    cpu_user_ms: Some(user),
                    cpu_system_ms: Some(system),
                    cpu_total_ms: Some(total),
                    max_rss_kb: Some(e.max_rss_kb),
                },
            )
        },
        _ => None,
    }
}

/// A `timeval` (seconds and microseconds, negative parts counting as zero)
/// in microseconds, at most `u128::MAX`.
pub open spec fn timeval_micros(tv_sec: i64, tv_usec: i64) -> u128 {
    let s: int = if tv_sec < 0 {
        0
    } else {
        tv_sec as int
    };
    let u: int = if tv_usec < 0 {
        0
    } else {
        tv_usec as int
    };
    (s * 1_000_000 + u) as u128
}

/// A `timeval` in microseconds.
pub fn timeval_to_micros(tv_sec: i64, tv_usec: i64) -> (micros: u128)
    ensures
        micros == timeval_micros(tv_sec, tv_usec),
{
    let seconds: u128 = if tv_sec < 0 {
        0
    } else {
        tv_sec as u128
    };
    let usec: u128 = if tv_usec < 0 {
        0
    } else {
        tv_usec as u128
    };
    assert(seconds * 1_000_000 + usec <= u128::MAX) by (nonlinear_arith)
        requires
            seconds <= 0x7fff_ffff_ffff_ffff,
            usec <= 0x7fff_ffff_ffff_ffff,
    ;
    seconds * 1_000_000 + usec
}

/// The peak memory a platform reports, in KiB: bytes rounded up on macOS,
/// KiB elsewhere; a negative value counts as zero.
pub fn normalize_max_rss_kb(value: i64, reported_in_bytes: bool) -> (kb: u64)
    ensures
        kb == if value < 0 {
            0u64
        } else if reported_in_bytes {
            ((value + 1023) / 1024) as u64
        } else {
            value as u64
        },
{
    let raw: u64 = if value < 0 {
        0
    } else {
        value as u64
    };
    if reported_in_bytes {
        raw.saturating_add(1023) / 1024
    } else {
        raw
    }
}

/// The limits set on the hook process itself: a CPU time in whole seconds
/// (rounded up, at least one) and an address-space limit in bytes (only
/// from 16 MiB up: smaller ones are checked after the run).
#[derive(Debug, Clone, Copy, PartialEq, Eq, Structural)]
pub struct RlimitPlan {
    pub cpu_seconds: Option<u64>,
    pub memory_bytes: Option<u64>,
}

/// What planning the process limits yields: none when no limit is set; a
/// memory limit is refused where usage cannot be measured, and when it does
/// not fit in bytes.  Memory limits are set only where the platform supports
/// them (`memory_rlimit_supported`).
pub open spec fn rlimit_plan(
    limits: PluginResourceLimits,
    plugin_id: Seq<char>,
    unix: bool,
    memory_rlimit_supported: bool,
) -> Result<Option<RlimitPlan>, Seq<char>> {
    if !unix {
        if limits.max_rss_kb is Some {
            Err(rss_unsupported_message(plugin_id))
        } else {
            Ok(None)
        }
    } else if !limits.configured() {
        Ok(None)
    } else {
        let cpu = match limits.max_cpu_ms {
            Some(ms) => {
                let rounded = (if ms + 999 > u64::MAX {
                    u64::MAX as int
                } else {
                    ms + 999
                }) / 1000;
                Some(if rounded < 1 {
                    1u64
                } else {
                    rounded as u64
                })
            },
            None => None,
        };
        let memory_too_large = memory_rlimit_supported && (limits.max_rss_kb matches Some(kb) && kb
            * 1024 > u64::MAX);
        if memory_too_large {
            Err("plugin '"@ + plugin_id + "' runtime max_rss_kb is too large for this platform"@)
        } else {
            let memory = if memory_rlimit_supported {
                match limits.max_rss_kb {
                    Some(kb) => if kb * 1024 < MIN_PLUGIN_MEMORY_RLIMIT_BYTES {
                        None
                    } else {
                        Some((kb * 1024) as u64)
                    },
                    None => None,
                }
            } else {
                None
            };
            if cpu is None && memory is None {
                Ok(None)
            } else {
                Ok(Some(RlimitPlan { cpu_seconds: cpu, memory_bytes: memory }))
            }
        }
    }
}

/// Plans the limits set on a hook process.
pub fn plan_plugin_rlimits(
    limits: PluginResourceLimits,
    plugin_id: &str,
    unix: bool,
    memory_rlimit_supported: bool,
) -> (out: Result<Option<RlimitPlan>, MosaicError>)
    ensures
        match rlimit_plan(limits, plugin_id@, unix, memory_rlimit_supported) {
            Ok(p) => out == Ok::<Option<RlimitPlan>, MosaicError>(p),
            Err(m) => fails_with(out, m),
        },
{
    if !unix {
        if limits.max_rss_kb.is_some() {
            return Err(rss_unsupported(plugin_id));
        }
        return Ok(None);
    }
    if !limits.is_configured() {
        return Ok(None);
    }
    let cpu = match limits.max_cpu_ms {
        Some(ms) => {
            let rounded = ms.saturating_add(999) / 1000;
            Some(if rounded < 1 {
                1u64
            } else {
                rounded
            })
        },
        None => None,
    };
    let memory = if memory_rlimit_supported {
        match limits.max_rss_kb {
            Some(kb) => match kb.checked_mul(1024) {
                None => {
                    return Err(
                        MosaicError::Validation(
                            cat3("plugin '", plugin_id, "' runtime max_rss_kb is too large for this platform"),
                        ),
                    );
                },
                Some(bytes) => if bytes < MIN_PLUGIN_MEMORY_RLIMIT_BYTES {
                    None
                } else {
                    Some(bytes)
                },
            },
            None => None,
        }
    } else {
        None
    };
    if cpu.is_none() && memory.is_none() {
        return Ok(None);
    }
    Ok(Some(RlimitPlan { cpu_seconds: cpu, memory_bytes: memory }))
}

/// What checking a run's usage against its limits yields: no breach, the
/// message of a breach, or an error (all errors here are tool errors but the
/// platform one, a validation error).
pub enum LimitCheck {
    Within,
    Breach(Seq<char>),
    Invalid(Seq<char>),
    Unmeasured(Seq<char>),
}

/// What checking a run's usage against its limits yields.
pub open spec fn limit_check(
    plugin_id: Seq<char>,
    limits: PluginResourceLimits,
    metrics: Option<PluginResourceMetrics>,
    metrics_supported: bool,
) -> LimitCheck {
    if !limits.configured() {
        LimitCheck::Within
    } else if !metrics_supported {
        if limits.max_rss_kb is Some {
            LimitCheck::Invalid(rss_unsupported_message(plugin_id))
        } else {
            LimitCheck::Within
        }
    } else {
        match metrics {
            None => LimitCheck::Unmeasured(
                "plugin '"@ + plugin_id
                    + "' configured runtime resource limits but usage metrics are unavailable"@,
            ),
            Some(m) => {
                let cpu = match limits.max_cpu_ms {
                    None => None,
                    Some(max) => match m.cpu_total_ms {
                        None => Some(
                            LimitCheck::Unmeasured(
                                "plugin '"@ + plugin_id
                                    + "' configured max_cpu_ms but cpu metrics are unavailable"@,
                            ),
                        ),
                        Some(total) => if total > max {
                            Some(
                                LimitCheck::Breach(
                                    "plugin '"@ + plugin_id
                                        + "' hook resource limit exceeded: cpu_total_ms="@ + decimal(
                                        total as nat,
                                    ) + "ms > max_cpu_ms="@ + decimal(max as nat) + "ms"@,
                                ),
                            )
                        } else {
                            None
                        },
                    },
                };
                match cpu {
                    Some(c) => c,
                    None => match limits.max_rss_kb {
                        None => LimitCheck::Within,
                        Some(max) => match m.max_rss_kb {
                            None => LimitCheck::Unmeasured(
                                "plugin '"@ + plugin_id
                                    + "' configured max_rss_kb but rss metrics are unavailable"@,
                            ),
                            Some(observed) => if observed > max {
                                LimitCheck::Breach(
                                    "plugin '"@ + plugin_id
                                        + "' hook resource limit exceeded: max_rss_kb="@ + decimal(
                                        observed as nat,
                                    ) + " > limit="@ + decimal(max as nat),
                                )
                            } else {
                                LimitCheck::Within
                            },
                        },
                    },
                }
            },
        }
    }
}

/// `out` is the outcome `c` of a limit check.
pub open spec fn limit_checked_as(out: Result<Option<String>, MosaicError>, c: LimitCheck) -> bool {
    match c {
        LimitCheck::Within => out matches Ok(None),
        LimitCheck::Breach(m) => out matches Ok(Some(s)) && s@ == m,
        LimitCheck::Invalid(m) => fails_with(out, m),
        LimitCheck::Unmeasured(m) => out matches Err(MosaicError::Tool(e)) && e@ == m,
    }
}

/// Checks a run's usage against its limits; the message of a breach.
pub fn evaluate_plugin_resource_limits(
    plugin: &PluginEntry,
    limits: PluginResourceLimits,
    metrics: Option<&PluginResourceMetrics>,
    metrics_supported: bool,
) -> (out: Result<Option<String>, MosaicError>)
    ensures
        limit_checked_as(
            out,
            limit_check(
                plugin.id@,
                limits,
                match metrics {
                    Some(m) => Some(*m),
                    None => None,
                },
                metrics_supported,
            ),
        ),
{
    let id = plugin.id.as_str();
    if !limits.is_configured() {
        return Ok(None);
    }
    if !metrics_supported {
        if limits.max_rss_kb.is_some() {
            return Err(rss_unsupported(id));
        }
        return Ok(None);
    }
    let m = match metrics {
        None => {
            return Err(
                MosaicError::Tool(
                    cat3(
                        "plugin '",
                        id,
                        "' configured runtime resource limits but usage metrics are unavailable",
                    ),
                ),
            );
        },
        Some(m) => m,
    };
    if let Some(max) = limits.max_cpu_ms {
        let total = match m.cpu_total_ms {
            None => {
                return Err(
                    MosaicError::Tool(
                        cat3("plugin '", id, "' configured max_cpu_ms but cpu metrics are unavailable"),
                    ),
                );
            },
            Some(t) => t,
        };
        if total > max {
            let head = cat3("plugin '", id, "' hook resource limit exceeded: cpu_total_ms=");
            let t = u64_to_string(total);
            let mx = u64_to_string(max);
            let msg = cat5(head.as_str(), t.as_str(), "ms > max_cpu_ms=", mx.as_str(), "ms");
            return Ok(Some(msg));
        }
    }
    if let Some(max) = limits.max_rss_kb {
        let observed = match m.max_rss_kb {
            None => {
                return Err(
                    MosaicError::Tool(
                        cat3("plugin '", id, "' configured max_rss_kb but rss metrics are unavailable"),
                    ),
                );
            },
            Some(o) => o,
        };
        if observed > max {
            let head = cat3("plugin '", id, "' hook resource limit exceeded: max_rss_kb=");
            let o = u64_to_string(observed);
            let mx = u64_to_string(max);
            let msg = cat5(head.as_str(), o.as_str(), " > limit=", mx.as_str(), "");
            assert(msg@ =~= head@ + o@ + " > limit="@ + mx@) by {
                reveal_strlit("");
            }
            return Ok(Some(msg));
        }
    }
    Ok(None)
}

/// A run whose peak memory went over its memory limit is a breach: with a
/// memory limit set, usage metrics supported and measured, and the peak
/// observed (KiB) above the limit (KiB), the check reports a breach, never
/// a pass; a CPU limit, when set, has its measurement.  When no CPU limit is
/// set, the breach names the observed peak and the limit.
pub proof fn law_memory_over_limit_is_a_breach(
    plugin_id: Seq<char>,
    limits: PluginResourceLimits,
    metrics: PluginResourceMetrics,
    limit_kb: u64,
    observed_kb: u64,
    out: Result<Option<String>, MosaicError>,
)
    requires
        limit_checked_as(out, limit_check(plugin_id, limits, Some(metrics), true)),
        limits.max_rss_kb == Some(limit_kb),
        metrics.max_rss_kb == Some(observed_kb),
        observed_kb > limit_kb,
        limits.max_cpu_ms is None || metrics.cpu_total_ms is Some,
    ensures
        out matches Ok(Some(_)),
        limits.max_cpu_ms is None ==> (out matches Ok(Some(m)) && m@ == "plugin '"@ + plugin_id
            + "' hook resource limit exceeded: max_rss_kb="@ + decimal(observed_kb as nat)
            + " > limit="@ + decimal(limit_kb as nat)),
{
}

/// A run within its memory limit and with no CPU limit passes: the peak
/// observed (KiB) at most the limit (KiB) gives no breach.
pub proof fn law_memory_within_limit_passes(
    plugin_id: Seq<char>,
    limits: PluginResourceLimits,
    metrics: PluginResourceMetrics,
    limit_kb: u64,
    observed_kb: u64,
    out: Result<Option<String>, MosaicError>,
)
    requires
        limit_checked_as(out, limit_check(plugin_id, limits, Some(metrics), true)),
        limits.max_cpu_ms is None,
        limits.max_rss_kb == Some(limit_kb),
        metrics.max_rss_kb == Some(observed_kb),
        observed_kb <= limit_kb,
    ensures
        out matches Ok(None),
{
}

/// A run whose CPU time went over its CPU limit is a breach, whatever its
/// memory: the total CPU time measured (ms) above the limit (ms) gives a
/// breach naming both.
pub proof fn law_cpu_over_limit_is_a_breach(
    plugin_id: Seq<char>,
    limits: PluginResourceLimits,
    metrics: PluginResourceMetrics,
    limit_ms: u64,
    total_ms: u64,
    out: Result<Option<String>, MosaicError>,
)
    requires
        limit_checked_as(out, limit_check(plugin_id, limits, Some(metrics), true)),
        limits.max_cpu_ms == Some(limit_ms),
        metrics.cpu_total_ms == Some(total_ms),
        total_ms > limit_ms,
    ensures
        out matches Ok(Some(m)) && m@ == "plugin '"@ + plugin_id
            + "' hook resource limit exceeded: cpu_total_ms="@ + decimal(total_ms as nat)
            + "ms > max_cpu_ms="@ + decimal(limit_ms as nat) + "ms"@,
{
}

/// The usage of a hook run is what its children spent between the two
/// snapshots: the user and system times are the differences of the
/// snapshots' times, in milliseconds rounded up (`ms * 1000` is at least
/// the difference in microseconds and less than 1000 above it), the total
/// is their sum, and the peak memory is the one after.
pub proof fn law_usage_is_the_difference(
    started: ChildCpuUsage,
    finished: ChildCpuUsage,
    out: Option<PluginResourceMetrics>,
)
    requires
        out == usage_between(Some(started), Some(finished)),
        started.user_micros <= finished.user_micros,
        started.system_micros <= finished.system_micros,
        finished.user_micros - started.user_micros <= 0xffff_ffff_ffff_ffff,
        finished.system_micros - started.system_micros <= 0xffff_ffff_ffff_ffff,
    ensures
        out matches Some(m) && m.cpu_user_ms matches Some(user) && m.cpu_system_ms matches Some(
            system,
        ) && m.cpu_total_ms == Some((user + system) as u64) && m.max_rss_kb == Some(
            finished.max_rss_kb,
        ) && user * 1000 >= finished.user_micros - started.user_micros && user * 1000
            < finished.user_micros - started.user_micros + 1000 && system * 1000
            >= finished.system_micros - started.system_micros && system * 1000
            < finished.system_micros - started.system_micros + 1000,
{
    let du = (finished.user_micros - started.user_micros) as int;
    let ds = (finished.system_micros - started.system_micros) as int;
    assert((du + 999) / 1000 * 1000 >= du && (du + 999) / 1000 * 1000 < du + 1000) by (nonlinear_arith)
        requires
            0 <= du,
    ;
    assert((ds + 999) / 1000 * 1000 >= ds && (ds + 999) / 1000 * 1000 < ds + 1000) by (nonlinear_arith)
        requires
            0 <= ds,
    ;
    assert((du + 999) / 1000 <= 0xffff_ffff_ffff_ffff) by (nonlinear_arith)
        requires
            0 <= du <= 0xffff_ffff_ffff_ffff,
    ;
    assert((ds + 999) / 1000 <= 0xffff_ffff_ffff_ffff) by (nonlinear_arith)
        requires
            0 <= ds <= 0xffff_ffff_ffff_ffff,
    ;
    assert((du + 999) / 1000 + (ds + 999) / 1000 <= u64::MAX) by (nonlinear_arith)
        requires
            0 <= du <= 0xffff_ffff_ffff_ffff,
            0 <= ds <= 0xffff_ffff_ffff_ffff,
    ;
}

/// Shifting both snapshots by the same amount leaves the usage as it was:
/// only what was spent in between counts; equal snapshots give zero.
pub proof fn law_usage_ignores_earlier_spending(
    started: ChildCpuUsage,
    finished: ChildCpuUsage,
    shifted_started: ChildCpuUsage,
    shifted_finished: ChildCpuUsage,
    user_shift: u128,
    system_shift: u128,
)
    requires
        shifted_started.user_micros == started.user_micros + user_shift,
        shifted_finished.user_micros == finished.user_micros + user_shift,
        shifted_started.system_micros == started.system_micros + system_shift,
        shifted_finished.system_micros == finished.system_micros + system_shift,
        shifted_finished.max_rss_kb == finished.max_rss_kb,
    ensures
        usage_between(Some(started), Some(finished)) == usage_between(
            Some(shifted_started),
            Some(shifted_finished),
        ),
        started.user_micros == finished.user_micros && started.system_micros
            == finished.system_micros ==> (usage_between(Some(started), Some(finished)) matches Some(m)
            && m.cpu_user_ms == Some(0u64) && m.cpu_system_ms == Some(0u64) && m.cpu_total_ms == Some(
            0u64,
        )),
{
}

} // verus!
