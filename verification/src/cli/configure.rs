//! The `configure` command: the keys of a profile that it reads and writes,
//! and the values it accepts for them.
use vstd::prelude::*;
use crate::agents::fields::{RunGuardMode, Temperature};
use crate::error::{MosaicError, fails_with};
use crate::text::{ascii_lower, ascii_lowercase, cat, cat3, chars_of, owned, parse_unsigned, str_eq, string_of, trim, trim_str};

verus! {

/// A profile as `configure` sees it.
#[derive(Debug, Clone)]
pub struct ProfileConfig {
    pub base_url: String,
    pub model: String,
    pub api_key_env: String,
    pub temperature: Temperature,
    pub max_turns: u32,
    pub tools_enabled: bool,
    pub guard_mode: RunGuardMode,
}

/// A key that `configure get/set/unset` names.
#[derive(Debug, Clone, Copy, PartialEq, Eq, Structural)]
pub enum ConfigureKey {
    ProviderBaseUrl,
    ProviderModel,
    ProviderApiKeyEnv,
    AgentTemperature,
    AgentMaxTurns,
    ToolsEnabled,
    ToolsRunGuardMode,
}

/// A configured value.
#[derive(Debug, Clone, PartialEq, Eq)]
pub enum ConfigValue {
    Text(String),
    Temperature(Temperature),
    Count(u32),
    Flag(bool),
    Guard(RunGuardMode),
}

/// `s` with every `-` made `_`.
pub open spec fn dashes_to_underscores(s: Seq<char>) -> Seq<char> {
    s.map_values(|c: char| if c == '-' { '_' } else { c })
}

fn underscore_dashes(s: &str) -> (out: String)
    ensures
        out@ == dashes_to_underscores(s@),
{
    let v = chars_of(s);
    let mut out: Vec<char> = Vec::new();
    let mut i: usize = 0;
    while i < v.len()
        invariant
            i <= v.len(),
            v@ == s@,
            out@ == dashes_to_underscores(v@.take(i as int)),
        decreases v.len() - i,
    {
        let c = v[i];
        out.push(if c == '-' { '_' } else { c });
        i += 1;
        assert(out@ =~= dashes_to_underscores(v@.take(i as int)));
    }
    assert(v@.take(v.len() as int) =~= v@);
    string_of(out.as_slice())
}

/// The key a name stands for, once trimmed, in ASCII lower case and with
/// `-` read as `_`.
pub open spec fn configure_key_of(n: Seq<char>) -> Option<ConfigureKey> {
    if n == "provider.base_url"@ || n == "base_url"@ {
        Some(ConfigureKey::ProviderBaseUrl)
    } else if n == "provider.model"@ || n == "model"@ {
        Some(ConfigureKey::ProviderModel)
    } else if n == "provider.api_key_env"@ || n == "api_key_env"@ {
        Some(ConfigureKey::ProviderApiKeyEnv)
    } else if n == "agent.temperature"@ || n == "temperature"@ {
        Some(ConfigureKey::AgentTemperature)
    } else if n == "agent.max_turns"@ || n == "max_turns"@ {
        Some(ConfigureKey::AgentMaxTurns)
    } else if n == "tools.enabled"@ || n == "tools_enabled"@ {
        Some(ConfigureKey::ToolsEnabled)
    } else if n == "tools.run.guard_mode"@ || n == "guard_mode"@ {
        Some(ConfigureKey::ToolsRunGuardMode)
    } else {
        None
    }
}

/// Reads a configure key: its full name or its short name, with ASCII case
/// and `-`/`_` ignored.
pub fn parse_configure_key(raw: &str) -> (out: Result<ConfigureKey, MosaicError>)
    ensures
        trim(raw@).len() == 0 ==> fails_with(out, "configure key cannot be empty"@),
        trim(raw@).len() > 0 ==> match configure_key_of(dashes_to_underscores(ascii_lower(trim(raw@)))) {
            Some(k) => out == Ok::<ConfigureKey, MosaicError>(k),
            None => fails_with(out, "unsupported configure key '"@ + trim(raw@) + "'"@),
        },
{
    let key = trim_str(raw);
    if key.as_str().is_empty() {
        return Err(MosaicError::Validation(owned("configure key cannot be empty")));
    }
    let lower = ascii_lowercase(key.as_str());
    let normalized = underscore_dashes(lower.as_str());
    let n = normalized.as_str();
    if str_eq(n, "provider.base_url") || str_eq(n, "base_url") {
        Ok(ConfigureKey::ProviderBaseUrl)
    } else if str_eq(n, "provider.model") || str_eq(n, "model") {
        Ok(ConfigureKey::ProviderModel)
    } else if str_eq(n, "provider.api_key_env") || str_eq(n, "api_key_env") {
        Ok(ConfigureKey::ProviderApiKeyEnv)
    } else if str_eq(n, "agent.temperature") || str_eq(n, "temperature") {
        Ok(ConfigureKey::AgentTemperature)
    } else if str_eq(n, "agent.max_turns") || str_eq(n, "max_turns") {
        Ok(ConfigureKey::AgentMaxTurns)
    } else if str_eq(n, "tools.enabled") || str_eq(n, "tools_enabled") {
        Ok(ConfigureKey::ToolsEnabled)
    } else if str_eq(n, "tools.run.guard_mode") || str_eq(n, "guard_mode") {
        Ok(ConfigureKey::ToolsRunGuardMode)
    } else {
        Err(MosaicError::Validation(cat3("unsupported configure key '", key.as_str(), "'")))
    }
}

/// The full name of a configure key.
pub open spec fn key_name(key: ConfigureKey) -> Seq<char> {
    match key {
        ConfigureKey::ProviderBaseUrl => "provider.base_url"@,
        ConfigureKey::ProviderModel => "provider.model"@,
        ConfigureKey::ProviderApiKeyEnv => "provider.api_key_env"@,
        ConfigureKey::AgentTemperature => "agent.temperature"@,
        ConfigureKey::AgentMaxTurns => "agent.max_turns"@,
        ConfigureKey::ToolsEnabled => "tools.enabled"@,
        ConfigureKey::ToolsRunGuardMode => "tools.run.guard_mode"@,
    }
}

/// The full name of a configure key.
pub fn configure_key_name(key: ConfigureKey) -> (name: &'static str)
    ensures
        name@ == key_name(key),
{
    match key {
        ConfigureKey::ProviderBaseUrl => "provider.base_url",
        ConfigureKey::ProviderModel => "provider.model",
        ConfigureKey::ProviderApiKeyEnv => "provider.api_key_env",
        ConfigureKey::AgentTemperature => "agent.temperature",
        ConfigureKey::AgentMaxTurns => "agent.max_turns",
        ConfigureKey::ToolsEnabled => "tools.enabled",
        ConfigureKey::ToolsRunGuardMode => "tools.run.guard_mode",
    }
}

/// The name of a guard mode.
pub open spec fn guard_name(mode: RunGuardMode) -> Seq<char> {
    match mode {
        RunGuardMode::ConfirmDangerous => "confirm_dangerous"@,
        RunGuardMode::AllConfirm => "all_confirm"@,
        RunGuardMode::Unrestricted => "unrestricted"@,
    }
}

/// The name of a guard mode.
pub fn guard_mode_name(mode: &RunGuardMode) -> (name: &'static str)
    ensures
        name@ == guard_name(*mode),
{
    match mode {
        RunGuardMode::ConfirmDangerous => "confirm_dangerous",
        RunGuardMode::AllConfirm => "all_confirm",
        RunGuardMode::Unrestricted => "unrestricted",
    }
}

/// The words read as a boolean, after trimming and in ASCII lower case.
pub open spec fn bool_word(w: Seq<char>) -> Option<bool> {
    if w == "true"@ || w == "1"@ || w == "yes"@ || w == "y"@ || w == "on"@ {
        Some(true)
    } else if w == "false"@ || w == "0"@ || w == "no"@ || w == "n"@ || w == "off"@ {
        Some(false)
    } else {
        None
    }
}

/// Reads a boolean: `true/1/yes/y/on` or `false/0/no/n/off`, ASCII case
/// ignored.
pub fn parse_bool_value(raw: &str) -> (out: Result<bool, MosaicError>)
    ensures
        match bool_word(ascii_lower(trim(raw@))) {
            Some(b) => out == Ok::<bool, MosaicError>(b),
            None => fails_with(
                out,
                "invalid boolean value '"@ + raw@ + "', expected true/false"@,
            ),
        },
{
    let t = trim_str(raw);
    let w = ascii_lowercase(t.as_str());
    let s = w.as_str();
    if str_eq(s, "true") || str_eq(s, "1") || str_eq(s, "yes") || str_eq(s, "y") || str_eq(s, "on") {
        Ok(true)
    } else if str_eq(s, "false") || str_eq(s, "0") || str_eq(s, "no") || str_eq(s, "n") || str_eq(
        s,
        "off",
    ) {
        Ok(false)
    } else {
        Err(MosaicError::Validation(cat3("invalid boolean value '", raw, "', expected true/false")))
    }
}

/// The guard mode a name stands for.
pub open spec fn guard_of(w: Seq<char>) -> Option<RunGuardMode> {
    if w == "confirm_dangerous"@ {
        Some(RunGuardMode::ConfirmDangerous)
    } else if w == "all_confirm"@ {
        Some(RunGuardMode::AllConfirm)
    } else if w == "unrestricted"@ {
        Some(RunGuardMode::Unrestricted)
    } else {
        None
    }
}

/// Reads a guard mode by name, ASCII case ignored.
pub fn parse_guard_mode(raw: &str) -> (out: Result<RunGuardMode, MosaicError>)
    ensures
        match guard_of(ascii_lower(trim(raw@))) {
            Some(g) => out == Ok::<RunGuardMode, MosaicError>(g),
            None => fails_with(
                out,
                "invalid guard mode '"@ + raw@
                    + "', expected confirm_dangerous|all_confirm|unrestricted"@,
            ),
        },
{
    let t = trim_str(raw);
    let w = ascii_lowercase(t.as_str());
    let s = w.as_str();
    if str_eq(s, "confirm_dangerous") {
        Ok(RunGuardMode::ConfirmDangerous)
    } else if str_eq(s, "all_confirm") {
        Ok(RunGuardMode::AllConfirm)
    } else if str_eq(s, "unrestricted") {
        Ok(RunGuardMode::Unrestricted)
    } else {
        Err(
            MosaicError::Validation(
                cat3(
                    "invalid guard mode '",
                    raw,
                    "', expected confirm_dangerous|all_confirm|unrestricted",
                ),
            ),
        )
    }
}

/// What `<u32 as FromStr>::from_str` reports for text it refuses
/// (`ParseIntError`'s `Display`).
pub uninterp spec fn int_parse_error(s: Seq<char>) -> Seq<char>;

/// `<u32 as FromStr>::from_str`: an optional `+` and decimal digits whose
/// value fits in `u32`; otherwise the error's text.
#[verifier::external_body]
pub(crate) fn parse_u32_text(s: &str) -> (out: Result<u32, String>)
    ensures
        match out {
            Ok(v) => parse_unsigned(s@, u32::MAX as nat) == Some(v as nat),
            Err(e) => parse_unsigned(s@, u32::MAX as nat) is None && e@ == int_parse_error(s@),
        },
{
    s.parse::<u32>().map_err(|err| err.to_string())
}

/// A value given to `configure set` as it reaches the profile: a finished
/// value, or the trimmed text of a temperature still to be read as a float.
#[derive(Debug, Clone, PartialEq, Eq)]
pub enum ConfigInput {
    Value(ConfigValue),
    TemperatureText(String),
}

/// What `configure set` makes of the text `raw` for `key`.
pub open spec fn input_for(key: ConfigureKey, raw: Seq<char>, out: Result<ConfigInput, MosaicError>) -> bool {
    let v = trim(raw);
    if v.len() == 0 {
        fails_with(out, "configure value cannot be empty"@)
    } else {
        match key {
            ConfigureKey::ProviderBaseUrl | ConfigureKey::ProviderModel
            | ConfigureKey::ProviderApiKeyEnv => out matches Ok(ConfigInput::Value(ConfigValue::Text(t)))
                && t@ == v,
            ConfigureKey::AgentTemperature => out matches Ok(ConfigInput::TemperatureText(t)) && t@ == v,
            ConfigureKey::AgentMaxTurns => match parse_unsigned(v, u32::MAX as nat) {
                None => fails_with(out, "invalid integer for agent.max_turns: "@ + int_parse_error(v)),
                Some(n) => if n == 0 {
                    fails_with(out, "agent.max_turns must be greater than 0"@)
                } else {
                    out == Ok::<ConfigInput, MosaicError>(ConfigInput::Value(ConfigValue::Count(n as u32)))
                },
            },
            ConfigureKey::ToolsEnabled => match bool_word(ascii_lower(v)) {
                Some(b) => out == Ok::<ConfigInput, MosaicError>(ConfigInput::Value(ConfigValue::Flag(b))),
                None => fails_with(out, "invalid boolean value '"@ + v + "', expected true/false"@),
            },
            ConfigureKey::ToolsRunGuardMode => match guard_of(ascii_lower(v)) {
                Some(g) => out == Ok::<ConfigInput, MosaicError>(ConfigInput::Value(ConfigValue::Guard(g))),
                None => fails_with(
                    out,
                    "invalid guard mode '"@ + v + "', expected confirm_dangerous|all_confirm|unrestricted"@,
                ),
            },
        }
    }
}

/// Reads the text given to `configure set` for `key`: trimmed, refused when
/// blank, and read as the key's kind of value.
pub fn configure_input(key: ConfigureKey, raw: &str) -> (out: Result<ConfigInput, MosaicError>)
    ensures
        input_for(key, raw@, out),
{
    let value = trim_str(raw);
    if value.as_str().is_empty() {
        return Err(MosaicError::Validation(owned("configure value cannot be empty")));
    }
    proof {
        crate::text::lemma_trim_idempotent(raw@);
    }
    match key {
        ConfigureKey::ProviderBaseUrl | ConfigureKey::ProviderModel
        | ConfigureKey::ProviderApiKeyEnv => Ok(ConfigInput::Value(ConfigValue::Text(value))),
        ConfigureKey::AgentTemperature => Ok(ConfigInput::TemperatureText(value)),
        ConfigureKey::AgentMaxTurns => match parse_u32_text(value.as_str()) {
            Err(e) => Err(MosaicError::Validation(cat("invalid integer for agent.max_turns: ", e.as_str()))),
            Ok(n) => {
                if n == 0 {
                    Err(MosaicError::Validation(owned("agent.max_turns must be greater than 0")))
                } else {
                    Ok(ConfigInput::Value(ConfigValue::Count(n)))
                }
            },
        },
        ConfigureKey::ToolsEnabled => {
            let b = parse_bool_value(value.as_str())?;
            Ok(ConfigInput::Value(ConfigValue::Flag(b)))
        },
        ConfigureKey::ToolsRunGuardMode => {
            let g = parse_guard_mode(value.as_str())?;
            Ok(ConfigInput::Value(ConfigValue::Guard(g)))
        },
    }
}

/// Whether the `f32` with these bits is finite: its exponent is not all ones.
pub open spec fn temperature_finite(t: Temperature) -> bool {
    t.bits & 0x7f80_0000u32 != 0x7f80_0000u32
}

/// A temperature given to `configure set`, once read as a float: refused
/// unless finite.
pub fn configure_temperature(t: Temperature) -> (out: Result<ConfigValue, MosaicError>)
    ensures
        temperature_finite(t) ==> out == Ok::<ConfigValue, MosaicError>(ConfigValue::Temperature(t)),
        !temperature_finite(t) ==> fails_with(out, "agent.temperature must be finite"@),
{
    if t.bits & 0x7f80_0000u32 != 0x7f80_0000u32 {
        Ok(ConfigValue::Temperature(t))
    } else {
        Err(MosaicError::Validation(owned("agent.temperature must be finite")))
    }
}

/// The value a key holds in a profile.
pub open spec fn value_of(p: ProfileConfig, key: ConfigureKey) -> ConfigValue {
    match key {
        ConfigureKey::ProviderBaseUrl => ConfigValue::Text(p.base_url),
        ConfigureKey::ProviderModel => ConfigValue::Text(p.model),
        ConfigureKey::ProviderApiKeyEnv => ConfigValue::Text(p.api_key_env),
        ConfigureKey::AgentTemperature => ConfigValue::Temperature(p.temperature),
        ConfigureKey::AgentMaxTurns => ConfigValue::Count(p.max_turns),
        ConfigureKey::ToolsEnabled => ConfigValue::Flag(p.tools_enabled),
        ConfigureKey::ToolsRunGuardMode => ConfigValue::Guard(p.guard_mode),
    }
}

/// The text of a value, where it is text.
pub open spec fn same_value(a: ConfigValue, b: ConfigValue) -> bool {
    match (a, b) {
        (ConfigValue::Text(x), ConfigValue::Text(y)) => x@ == y@,
        _ => a == b,
    }
}

/// The value a key holds in a profile.
pub fn configure_value(profile: &ProfileConfig, key: ConfigureKey) -> (out: ConfigValue)
    ensures
        same_value(out, value_of(*profile, key)),
{
    match key {
        ConfigureKey::ProviderBaseUrl => ConfigValue::Text(profile.base_url.clone()),
        ConfigureKey::ProviderModel => ConfigValue::Text(profile.model.clone()),
        ConfigureKey::ProviderApiKeyEnv => ConfigValue::Text(profile.api_key_env.clone()),
        ConfigureKey::AgentTemperature => ConfigValue::Temperature(profile.temperature),
        ConfigureKey::AgentMaxTurns => ConfigValue::Count(profile.max_turns),
        ConfigureKey::ToolsEnabled => ConfigValue::Flag(profile.tools_enabled),
        ConfigureKey::ToolsRunGuardMode => ConfigValue::Guard(profile.guard_mode),
    }
}

/// `b` is `a` with the key `key` holding `v` and every other key unchanged.
pub open spec fn updated(a: ProfileConfig, b: ProfileConfig, key: ConfigureKey, v: ConfigValue) -> bool {
    &&& same_value(value_of(b, key), v)
    &&& forall|k: ConfigureKey| k != key ==> same_value(#[trigger] value_of(b, k), value_of(a, k))
}

/// Whether a value is of the kind a key holds.
pub open spec fn fits(key: ConfigureKey, v: ConfigValue) -> bool {
    match key {
        ConfigureKey::ProviderBaseUrl | ConfigureKey::ProviderModel
        | ConfigureKey::ProviderApiKeyEnv => v is Text,
        ConfigureKey::AgentTemperature => v is Temperature,
        ConfigureKey::AgentMaxTurns => v is Count,
        ConfigureKey::ToolsEnabled => v is Flag,
        ConfigureKey::ToolsRunGuardMode => v is Guard,
    }
}

/// Stores a value of the key's kind under the key; the value now held.
pub fn set_configure_value(profile: &mut ProfileConfig, key: ConfigureKey, value: ConfigValue) -> (out:
    ConfigValue)
    requires
        fits(key, value),
    ensures
        updated(*old(profile), *final(profile), key, value),
        same_value(out, value),
{
    let held = match (key, value) {
        (ConfigureKey::ProviderBaseUrl, ConfigValue::Text(t)) => {
            profile.base_url = t;
            ConfigValue::Text(profile.base_url.clone())
        },
        (ConfigureKey::ProviderModel, ConfigValue::Text(t)) => {
            profile.model = t;
            ConfigValue::Text(profile.model.clone())
        },
        (ConfigureKey::ProviderApiKeyEnv, ConfigValue::Text(t)) => {
            profile.api_key_env = t;
            ConfigValue::Text(profile.api_key_env.clone())
        },
        (ConfigureKey::AgentTemperature, ConfigValue::Temperature(t)) => {
            profile.temperature = t;
            ConfigValue::Temperature(t)
        },
        (ConfigureKey::AgentMaxTurns, ConfigValue::Count(n)) => {
            profile.max_turns = n;
            ConfigValue::Count(n)
        },
        (ConfigureKey::ToolsEnabled, ConfigValue::Flag(b)) => {
            profile.tools_enabled = b;
            ConfigValue::Flag(b)
        },
        (ConfigureKey::ToolsRunGuardMode, ConfigValue::Guard(g)) => {
            profile.guard_mode = g;
            ConfigValue::Guard(g)
        },
        (_, v) => v,
    };
    held
}

/// Puts the key back to its value in `defaults`; the value now held.
pub fn unset_configure_value(profile: &mut ProfileConfig, key: ConfigureKey, defaults: &ProfileConfig) -> (out:
    ConfigValue)
    ensures
        updated(*old(profile), *final(profile), key, value_of(*defaults, key)),
        same_value(out, value_of(*defaults, key)),
{
    let v = configure_value(defaults, key);
    set_configure_value(profile, key, v)
}

/// The flags of the older `configure` form.
#[derive(Debug, Clone)]
pub struct LegacyConfigure {
    pub show: bool,
    pub base_url: Option<String>,
    pub model: Option<String>,
    pub api_key_env: Option<String>,
    pub temperature: Option<Temperature>,
    pub max_turns: Option<u32>,
    pub tools_enabled: Option<bool>,
    pub guard_mode: Option<RunGuardMode>,
}

/// Whether any flag of the older form is given.
pub open spec fn has_legacy_flags(f: LegacyConfigure) -> bool {
    f.show || f.base_url is Some || f.model is Some || f.api_key_env is Some || f.temperature is Some
        || f.max_turns is Some || f.tools_enabled is Some || f.guard_mode is Some
}

/// A subcommand of `configure` stands alone: no flag of the older form may
/// come with it.
pub fn check_configure_subcommand(flags: &LegacyConfigure) -> (out: Result<(), MosaicError>)
    ensures
        !has_legacy_flags(*flags) ==> out is Ok,
        has_legacy_flags(*flags) ==> fails_with(
            out,
            "configure subcommands cannot be combined with legacy configure flags"@,
        ),
{
    if flags.show || flags.base_url.is_some() || flags.model.is_some() || flags.api_key_env.is_some()
        || flags.temperature.is_some() || flags.max_turns.is_some() || flags.tools_enabled.is_some()
        || flags.guard_mode.is_some() {
        Err(MosaicError::Validation(owned("configure subcommands cannot be combined with legacy configure flags")))
    } else {
        Ok(())
    }
}

/// Applies the flags of the older form to a profile; whether any setting
/// was given.
pub fn apply_legacy_configure(profile: &mut ProfileConfig, flags: LegacyConfigure) -> (changed: bool)
    ensures
        changed == (flags.base_url is Some || flags.model is Some || flags.api_key_env is Some
            || flags.temperature is Some || flags.max_turns is Some || flags.tools_enabled is Some
            || flags.guard_mode is Some),
        final(profile).base_url@ == (match flags.base_url { Some(v) => v@, None => old(profile).base_url@ }),
        final(profile).model@ == (match flags.model { Some(v) => v@, None => old(profile).model@ }),
        final(profile).api_key_env@ == (match flags.api_key_env { Some(v) => v@, None => old(profile).api_key_env@ }),
        final(profile).temperature == (match flags.temperature { Some(v) => v, None => old(profile).temperature }),
        final(profile).max_turns == (match flags.max_turns { Some(v) => v, None => old(profile).max_turns }),
        final(profile).tools_enabled == (match flags.tools_enabled { Some(v) => v, None => old(profile).tools_enabled }),
        final(profile).guard_mode == (match flags.guard_mode { Some(v) => v, None => old(profile).guard_mode }),
{
    let mut changed = false;
    if let Some(v) = flags.base_url {
        profile.base_url = v;
        changed = true;
    }
    if let Some(v) = flags.model {
        profile.model = v;
        changed = true;
    }
    if let Some(v) = flags.api_key_env {
        profile.api_key_env = v;
        changed = true;
    }
    if let Some(v) = flags.temperature {
        profile.temperature = v;
        changed = true;
    }
    if let Some(v) = flags.max_turns {
        profile.max_turns = v;
        changed = true;
    }
    if let Some(v) = flags.tools_enabled {
        profile.tools_enabled = v;
        changed = true;
    }
    if let Some(v) = flags.guard_mode {
        profile.guard_mode = v;
        changed = true;
    }
    changed
}

} // verus!
