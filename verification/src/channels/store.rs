//! The channels file: its schema versions, its entries and the operations of
//! the channel repository on them.
//!
//! Times are Unix timestamps in milliseconds.  Reading and writing the file,
//! the environment and the clock are the caller's part; the operations here
//! take what those give and return the new file.
use vstd::prelude::*;
use crate::channels::kinds::{
    endpoint_problem, kind_of, normalize_kind, opt_str_view, unsupported_kind_message,
    validate_endpoint_for_kind,
};
use crate::channels::mask::{mask_optional_endpoint, opt_maskable, opt_masked};
use crate::error::{MosaicError, config_error, validation_error};
use crate::sorting::{Ordered, lemma_text_le_total, lemma_text_le_trans, sort_stable, stable_sort, text_le, text_le_exec};
use crate::text::{
    ascii_lower, cat, cat3, eq_ignore_ascii_case, is_blank, is_blank_str, normalize_optional,
    normalized_opt, opt_view, owned, str_eq, trim, trim_str, lowercase,
};

verus! {

/// The schema version that the channels file is written in.
pub const CHANNELS_SCHEMA_VERSION: u32 = 2;

/// The token variable that `login` falls back to.
pub open spec fn default_channel_token_env() -> Seq<char> {
    "CHANNEL_TOKEN"@
}

/// A copy of an optional string.
pub fn clone_opt_string(o: &Option<String>) -> (r: Option<String>)
    ensures
        r == *o,
{
    match o {
        Some(s) => Some(s.clone()),
        None => None,
    }
}

/// Where a channel's token comes from.
#[derive(Debug)]
pub struct ChannelAuthConfig {
    pub token_env: Option<String>,
}

/// A configured channel.
#[derive(Debug)]
pub struct ChannelEntry {
    pub id: String,
    pub name: String,
    pub kind: String,
    pub endpoint: Option<String>,
    pub target: Option<String>,
    pub auth: ChannelAuthConfig,
    pub created_at: i64,
    pub last_login_at: Option<i64>,
    pub last_send_at: Option<i64>,
    pub last_error: Option<String>,
}

impl ChannelEntry {
    /// A copy of the entry.
    pub fn duplicate(&self) -> (c: Self)
        ensures
            c == *self,
    {
        ChannelEntry {
            id: self.id.clone(),
            name: self.name.clone(),
            kind: self.kind.clone(),
            endpoint: clone_opt_string(&self.endpoint),
            target: clone_opt_string(&self.target),
            auth: ChannelAuthConfig { token_env: clone_opt_string(&self.auth.token_env) },
            created_at: self.created_at,
            last_login_at: self.last_login_at,
            last_send_at: self.last_send_at,
            last_error: clone_opt_string(&self.last_error),
        }
    }
}

/// The channels file.
#[derive(Debug)]
pub struct ChannelsFile {
    pub version: u32,
    pub channels: Vec<ChannelEntry>,
}

/// A channel as the first schema stored it.
#[derive(Debug)]
pub struct LegacyChannelEntry {
    pub id: String,
    pub name: String,
    pub kind: String,
    pub endpoint: Option<String>,
    pub created_at: i64,
    pub last_login_at: Option<i64>,
    pub last_login_token_env: Option<String>,
}

/// The channels file as read: a JSON array (the first schema), a JSON object
/// with its `version` (when it is an unsigned integer) and its `channels`
/// read both as current and as legacy entries, or another JSON value.  Each
/// reading is the entries or the text of the decoding error.
#[derive(Debug)]
pub enum RawChannelsDocument {
    LegacyArray(Result<Vec<LegacyChannelEntry>, String>),
    Object {
        version: Option<u64>,
        current: Result<Vec<ChannelEntry>, String>,
        legacy: Result<Vec<LegacyChannelEntry>, String>,
    },
    Other,
}

/// The current-schema entry for a legacy entry: its kind canonical (`mock`
/// when it names none), its login token variable as its token variable.
pub open spec fn migrated(l: LegacyChannelEntry, c: ChannelEntry) -> bool {
    &&& c.id == l.id
    &&& c.name == l.name
    &&& c.kind@ == match kind_of(l.kind@) {
        Some(k) => k,
        None => "mock"@,
    }
    &&& c.endpoint == l.endpoint
    &&& c.target is None
    &&& c.auth.token_env == l.last_login_token_env
    &&& c.created_at == l.created_at
    &&& c.last_login_at == l.last_login_at
    &&& c.last_send_at is None
    &&& c.last_error is None
}

pub open spec fn all_migrated(legacy: Seq<LegacyChannelEntry>, out: Seq<ChannelEntry>) -> bool {
    &&& out.len() == legacy.len()
    &&& forall|i: int| 0 <= i < legacy.len() ==> migrated(#[trigger] legacy[i], out[i])
}

/// Migrates legacy entries to the current schema.
pub fn migrate_legacy(legacy: Vec<LegacyChannelEntry>) -> (out: Vec<ChannelEntry>)
    ensures
        all_migrated(legacy@, out@),
{
    let ghost orig = legacy@;
    let mut out: Vec<ChannelEntry> = Vec::new();
    for entry in it: legacy
        invariant
            it.seq() == orig,
            out@.len() == it.index(),
            forall|i: int| 0 <= i < out@.len() ==> migrated(#[trigger] orig[i], out@[i]),
    {
        let kind = match normalize_kind(entry.kind.as_str()) {
            Ok(k) => k,
            Err(_) => owned("mock"),
        };
        let c = ChannelEntry {
            id: entry.id,
            name: entry.name,
            kind,
            endpoint: entry.endpoint,
            target: None,
            auth: ChannelAuthConfig { token_env: entry.last_login_token_env },
            created_at: entry.created_at,
            last_login_at: entry.last_login_at,
            last_send_at: None,
            last_error: None,
        };
        out.push(c);
    }
    out
}

/// The schema version that a file declares: its `version` (1 when absent),
/// truncated to 32 bits.
pub open spec fn declared_version(version: Option<u64>) -> nat {
    match version {
        Some(v) => (v as nat) % 0x1_0000_0000,
        None => 1,
    }
}

/// What reading a channels document yields: the file in the current schema
/// and whether it had to be migrated, or the error.
pub open spec fn parsed_channels(
    doc: RawChannelsDocument,
    out: Result<(ChannelsFile, bool), MosaicError>,
) -> bool {
    match doc {
        RawChannelsDocument::LegacyArray(Err(e)) => out matches Err(MosaicError::Validation(m))
            && m@ == "invalid legacy channels array format: "@ + e@,
        RawChannelsDocument::LegacyArray(Ok(legacy)) => out matches Ok((f, migrated)) && migrated
            && f.version == CHANNELS_SCHEMA_VERSION && all_migrated(legacy@, f.channels@),
        RawChannelsDocument::Other => out matches Err(MosaicError::Validation(m)) && m@
            == "channels file must be an object or array"@,
        RawChannelsDocument::Object { version, current, legacy } => if declared_version(version)
            >= 2 {
            match current {
                Err(e) => out matches Err(MosaicError::Validation(m)) && m@
                    == "invalid channels v2 format: "@ + e@,
                Ok(chs) => out matches Ok((f, migrated)) && f.version == CHANNELS_SCHEMA_VERSION
                    && f.channels@ == chs@ && migrated == (declared_version(version) != 2),
            }
        } else {
            match legacy {
                Err(e) => out matches Err(MosaicError::Validation(m)) && m@
                    == "invalid channels legacy object format: "@ + e@,
                Ok(l) => out matches Ok((f, migrated)) && migrated && f.version
                    == CHANNELS_SCHEMA_VERSION && all_migrated(l@, f.channels@),
            }
        },
    }
}

/// Reads a channels document into the current schema, migrating legacy
/// entries; the flag tells whether the file should be written back.
pub fn parse_channels_value(doc: RawChannelsDocument) -> (out: Result<
    (ChannelsFile, bool),
    MosaicError,
>)
    ensures
        parsed_channels(doc, out),
{
    match doc {
        RawChannelsDocument::LegacyArray(Err(e)) => Err(
            MosaicError::Validation(cat("invalid legacy channels array format: ", e.as_str())),
        ),
        RawChannelsDocument::LegacyArray(Ok(legacy)) => Ok(
            (
                ChannelsFile {
                    version: CHANNELS_SCHEMA_VERSION,
                    channels: migrate_legacy(legacy),
                },
                true,
            ),
        ),
        RawChannelsDocument::Other => Err(
            MosaicError::Validation(owned("channels file must be an object or array")),
        ),
        RawChannelsDocument::Object { version, current, legacy } => {
            let declared: u64 = match version {
                Some(v) => v % 0x1_0000_0000,
                None => 1,
            };
            if declared >= 2 {
                match current {
                    Err(e) => Err(
                        MosaicError::Validation(cat("invalid channels v2 format: ", e.as_str())),
                    ),
                    Ok(chs) => Ok(
                        (ChannelsFile { version: CHANNELS_SCHEMA_VERSION, channels: chs }, declared
                            != 2),
                    ),
                }
            } else {
                match legacy {
                    Err(e) => Err(
                        MosaicError::Validation(
                            cat("invalid channels legacy object format: ", e.as_str()),
                        ),
                    ),
                    Ok(l) => Ok(
                        (
                            ChannelsFile {
                                version: CHANNELS_SCHEMA_VERSION,
                                channels: migrate_legacy(l),
                            },
                            true,
                        ),
                    ),
                }
            }
        },
    }
}

/// Why a stored channel is invalid: its kind names no supported kind, or its
/// endpoint does not suit its kind.
pub open spec fn entry_fault(c: ChannelEntry) -> Option<Seq<char>> {
    match kind_of(c.kind@) {
        None => Some(unsupported_kind_message(lowercase(trim(c.kind@)))),
        Some(k) => endpoint_problem(k, opt_view(c.endpoint)),
    }
}

/// A stored channel after normalization: canonical kind, a blank token
/// variable dropped, the rest unchanged.
pub open spec fn normalized_entry(c: ChannelEntry, n: ChannelEntry) -> bool {
    &&& kind_of(c.kind@) == Some(n.kind@)
    &&& n.auth.token_env == (match c.auth.token_env {
        Some(t) => if trim(t@).len() == 0 {
            None
        } else {
            Some(t)
        },
        None => None,
    })
    &&& n.id == c.id
    &&& n.name == c.name
    &&& n.endpoint == c.endpoint
    &&& n.target == c.target
    &&& n.created_at == c.created_at
    &&& n.last_login_at == c.last_login_at
    &&& n.last_send_at == c.last_send_at
    &&& n.last_error == c.last_error
}

/// Normalizes every stored channel, failing on the first invalid one.
pub fn normalize_channels(channels: Vec<ChannelEntry>) -> (out: Result<
    Vec<ChannelEntry>,
    MosaicError,
>)
    ensures
        match out {
            Ok(n) => n@.len() == channels@.len() && forall|i: int|
                0 <= i < channels@.len() ==> entry_fault(#[trigger] channels@[i]) is None
                    && normalized_entry(channels@[i], n@[i]),
            Err(e) => exists|i: int|
                0 <= i < channels@.len() && (forall|j: int|
                    0 <= j < i ==> entry_fault(#[trigger] channels@[j]) is None)
                    && entry_fault(#[trigger] channels@[i]) is Some && validation_error(
                    e,
                    entry_fault(channels@[i])->0,
                ),
        },
{
    let ghost orig = channels@;
    let mut out: Vec<ChannelEntry> = Vec::new();
    for c in it: channels
        invariant
            it.seq() == orig,
            out@.len() == it.index(),
            forall|i: int|
                0 <= i < out@.len() ==> entry_fault(#[trigger] orig[i]) is None
                    && normalized_entry(orig[i], out@[i]),
    {
        let ghost idx = it.index();
        assert(orig[idx as int] == c);
        let kind = match normalize_kind(c.kind.as_str()) {
            Ok(k) => k,
            Err(e) => {
                return Err(e);
            },
        };
        let token_env = match c.auth.token_env {
            Some(t) => if is_blank_str(t.as_str()) {
                None
            } else {
                Some(t)
            },
            None => None,
        };
        let endpoint_ref: Option<&str> = match &c.endpoint {
            Some(e) => Some(e.as_str()),
            None => None,
        };
        assert(opt_str_view(endpoint_ref) == opt_view(c.endpoint));
        match validate_endpoint_for_kind(kind.as_str(), endpoint_ref) {
            Ok(_) => {},
            Err(e) => {
                return Err(e);
            },
        }
        out.push(
            ChannelEntry {
                id: c.id,
                name: c.name,
                kind,
                endpoint: c.endpoint,
                target: c.target,
                auth: ChannelAuthConfig { token_env },
                created_at: c.created_at,
                last_login_at: c.last_login_at,
                last_send_at: c.last_send_at,
                last_error: c.last_error,
            },
        );
    }
    Ok(out)
}

/// A channel as listed for display, its endpoint masked.
#[derive(Debug)]
pub struct ChannelListItem {
    pub id: String,
    pub name: String,
    pub kind: String,
    pub endpoint_masked: Option<String>,
    pub created_at: i64,
    pub last_login_at: Option<i64>,
    pub last_send_at: Option<i64>,
    pub last_error: Option<String>,
}

/// The listing of a channel.
pub open spec fn listed(c: ChannelEntry, item: ChannelListItem) -> bool {
    &&& item.id == c.id
    &&& item.name == c.name
    &&& item.kind == c.kind
    &&& opt_view(item.endpoint_masked) == opt_masked(opt_view(c.endpoint))
    &&& item.created_at == c.created_at
    &&& item.last_login_at == c.last_login_at
    &&& item.last_send_at == c.last_send_at
    &&& item.last_error == c.last_error
}

/// The listing of a channel.
pub fn format_channel_for_output(channel: &ChannelEntry) -> (item: ChannelListItem)
    requires
        opt_maskable(opt_view(channel.endpoint)),
    ensures
        listed(*channel, item),
{
    ChannelListItem {
        id: channel.id.clone(),
        name: channel.name.clone(),
        kind: channel.kind.clone(),
        endpoint_masked: mask_optional_endpoint(&channel.endpoint),
        created_at: channel.created_at,
        last_login_at: channel.last_login_at,
        last_send_at: channel.last_send_at,
        last_error: clone_opt_string(&channel.last_error),
    }
}

/// The listings of all channels, in file order.
pub fn list_channels(file: &ChannelsFile) -> (items: Vec<ChannelListItem>)
    requires
        forall|i: int|
            0 <= i < file.channels@.len() ==> opt_maskable(
                opt_view(#[trigger] file.channels@[i].endpoint),
            ),
    ensures
        items@.len() == file.channels@.len(),
        forall|i: int| 0 <= i < items@.len() ==> listed(file.channels@[i], #[trigger] items@[i]),
{
    let mut items: Vec<ChannelListItem> = Vec::new();
    let mut i: usize = 0;
    while i < file.channels.len()
        invariant
            i <= file.channels.len(),
            items@.len() == i,
            forall|k: int|
                0 <= k < file.channels@.len() ==> opt_maskable(
                    opt_view(#[trigger] file.channels@[k].endpoint),
                ),
            forall|k: int| 0 <= k < i ==> listed(file.channels@[k], #[trigger] items@[k]),
        decreases file.channels.len() - i,
    {
        items.push(format_channel_for_output(&file.channels[i]));
        i += 1;
    }
    items
}

/// What adding a channel takes.
#[derive(Debug)]
pub struct AddChannelInput {
    pub name: String,
    pub kind: String,
    pub endpoint: Option<String>,
    pub target: Option<String>,
    pub token_env: Option<String>,
}

/// Whether some channel is named `name`, ignoring ASCII case.
pub open spec fn name_taken(channels: Seq<ChannelEntry>, name: Seq<char>) -> bool {
    exists|i: int|
        0 <= i < channels.len() && ascii_lower((#[trigger] channels[i]).name@) == ascii_lower(
            name,
        )
}

fn find_name(channels: &Vec<ChannelEntry>, name: &str) -> (found: bool)
    ensures
        found == name_taken(channels@, name@),
{
    let mut i: usize = 0;
    while i < channels.len()
        invariant
            i <= channels.len(),
            forall|k: int|
                0 <= k < i ==> ascii_lower((#[trigger] channels@[k]).name@) != ascii_lower(name@),
        decreases channels.len() - i,
    {
        if eq_ignore_ascii_case(channels[i].name.as_str(), name) {
            return true;
        }
        i += 1;
    }
    false
}

/// What adding a channel with id `id` at time `now` yields.
pub open spec fn added_channel(
    old: Seq<ChannelEntry>,
    input: AddChannelInput,
    id: Seq<char>,
    now: i64,
    out: Result<(ChannelsFile, ChannelEntry), MosaicError>,
) -> bool {
    let name = trim(input.name@);
    if name.len() == 0 {
        out matches Err(MosaicError::Validation(m)) && m@ == "channel name cannot be empty"@
    } else {
        match kind_of(input.kind@) {
            None => out matches Err(MosaicError::Validation(m)) && m@ == unsupported_kind_message(
                lowercase(trim(input.kind@)),
            ),
            Some(kind) => match endpoint_problem(kind, opt_view(input.endpoint)) {
                Some(msg) => out matches Err(MosaicError::Validation(m)) && m@ == msg,
                None => if name_taken(old, name) {
                    out matches Err(MosaicError::Validation(m)) && m@ == "channel name '"@ + name
                        + "' already exists"@
                } else {
                    out matches Ok((f, c)) && f.version == CHANNELS_SCHEMA_VERSION && f.channels@
                        == old.push(c) && c.id@ == id && c.name@ == name && c.kind@ == kind
                        && c.endpoint == input.endpoint && opt_view(c.target) == normalized_opt(
                        opt_view(input.target),
                    ) && c.auth.token_env == input.token_env && c.created_at == now
                        && c.last_login_at is None && c.last_send_at is None && c.last_error is None
                },
            },
        }
    }
}

/// Adds a channel with the given id, created at `now`.
pub fn add_channel_with(
    file: ChannelsFile,
    input: AddChannelInput,
    id: String,
    now: i64,
) -> (out: Result<(ChannelsFile, ChannelEntry), MosaicError>)
    ensures
        added_channel(file.channels@, input, id@, now, out),
{
    let name = trim_str(input.name.as_str());
    if name.as_str().is_empty() {
        return Err(MosaicError::Validation(owned("channel name cannot be empty")));
    }
    let kind = match normalize_kind(input.kind.as_str()) {
        Ok(k) => k,
        Err(e) => return Err(e),
    };
    let endpoint_ref: Option<&str> = match &input.endpoint {
        Some(e) => Some(e.as_str()),
        None => None,
    };
    assert(opt_str_view(endpoint_ref) == opt_view(input.endpoint));
    match validate_endpoint_for_kind(kind.as_str(), endpoint_ref) {
        Ok(_) => {},
        Err(e) => return Err(e),
    }
    if find_name(&file.channels, name.as_str()) {
        return Err(
            MosaicError::Validation(cat3("channel name '", name.as_str(), "' already exists")),
        );
    }
    let target = normalize_optional(input.target);
    let channel = ChannelEntry {
        id,
        name,
        kind,
        endpoint: input.endpoint,
        target,
        auth: ChannelAuthConfig { token_env: input.token_env },
        created_at: now,
        last_login_at: None,
        last_send_at: None,
        last_error: None,
    };
    let copy = channel.duplicate();
    let mut channels = file.channels;
    channels.push(channel);
    Ok((ChannelsFile { version: CHANNELS_SCHEMA_VERSION, channels }, copy))
}

/// The position of the channel with id `id`.
pub open spec fn index_of_id(channels: Seq<ChannelEntry>, id: Seq<char>) -> Option<int> {
    if exists|i: int| 0 <= i < channels.len() && (#[trigger] channels[i]).id@ == id {
        Some(choose|i: int| 0 <= i < channels.len() && (#[trigger] channels[i]).id@ == id && forall|j: int| 0 <= j < i ==> (#[trigger] channels[j]).id@ != id)
    } else {
        None
    }
}

/// The first channel with id `id`.
pub fn find_channel(channels: &Vec<ChannelEntry>, id: &str) -> (found: Option<usize>)
    ensures
        match found {
            Some(i) => i < channels@.len() && channels@[i as int].id@ == id@ && forall|j: int|
                0 <= j < i ==> (#[trigger] channels@[j]).id@ != id@,
            None => forall|j: int| 0 <= j < channels@.len() ==> (#[trigger] channels@[j]).id@ != id@,
        },
{
    let mut i: usize = 0;
    while i < channels.len()
        invariant
            i <= channels.len(),
            forall|j: int| 0 <= j < i ==> (#[trigger] channels@[j]).id@ != id@,
        decreases channels.len() - i,
    {
        if str_eq(channels[i].id.as_str(), id) {
            return Some(i);
        }
        i += 1;
    }
    None
}

/// The first position holding a channel with id `id`.
pub open spec fn first_with_id(channels: Seq<ChannelEntry>, id: Seq<char>, i: int) -> bool {
    &&& 0 <= i < channels.len()
    &&& channels[i].id@ == id
    &&& forall|j: int| 0 <= j < i ==> (#[trigger] channels[j]).id@ != id
}

pub open spec fn has_id(channels: Seq<ChannelEntry>, id: Seq<char>) -> bool {
    exists|i: int| 0 <= i < channels.len() && (#[trigger] channels[i]).id@ == id
}

/// The message for a channel id that matches no channel.
pub open spec fn not_found_message(id: Seq<char>) -> Seq<char> {
    "channel '"@ + id + "' not found"@
}

fn not_found(id: &str) -> (e: MosaicError)
    ensures
        e matches MosaicError::Config(m) && m@ == not_found_message(id@),
{
    MosaicError::Config(cat3("channel '", id, "' not found"))
}

/// What a login yields: the token variable it settled on, whether that
/// variable is set, and the updated channel.
#[derive(Debug)]
pub struct ChannelLoginResult {
    pub token_env: String,
    pub token_present: bool,
    pub channel: ChannelEntry,
}

/// The token variable a login settles on: the requested one when not blank
/// (trimmed), else the channel's own, else `CHANNEL_TOKEN`.
pub open spec fn login_token_env(requested: Option<Seq<char>>, current: Option<Seq<char>>) -> Seq<
    char,
> {
    match normalized_opt(requested) {
        Some(t) => t,
        None => match current {
            Some(c) => c,
            None => default_channel_token_env(),
        },
    }
}

/// Logs in to channel `id` at `now`: records the token variable that the
/// channel will use; `is_set` tells whether that variable is set.
pub fn login_channel(
    file: ChannelsFile,
    id: &str,
    token_env: Option<&str>,
    is_set: bool,
    now: i64,
) -> (out: Result<(ChannelsFile, ChannelLoginResult), MosaicError>)
    ensures
        match out {
            Ok((f, r)) => exists|i: int|
                first_with_id(file.channels@, id@, i) && f.version == file.version
                    && f.channels@ == file.channels@.update(i, r.channel) && r.token_env@
                    == login_token_env(opt_str_view(token_env), opt_view(file.channels@[i].auth.token_env))
                    && r.token_present == is_set && opt_view(r.channel.auth.token_env) == Some(
                    r.token_env@,
                ) && r.channel.last_login_at == Some(now) && r.channel.id == file.channels@[i].id
                    && r.channel.name == file.channels@[i].name && r.channel.kind
                    == file.channels@[i].kind && r.channel.endpoint == file.channels@[i].endpoint
                    && r.channel.target == file.channels@[i].target && r.channel.created_at
                    == file.channels@[i].created_at && r.channel.last_send_at
                    == file.channels@[i].last_send_at && r.channel.last_error
                    == file.channels@[i].last_error,
            Err(e) => !has_id(file.channels@, id@) && config_error(e, not_found_message(id@)),
        },
{
    let idx = match find_channel(&file.channels, id) {
        Some(i) => i,
        None => return Err(not_found(id)),
    };
    let requested: Option<String> = match token_env {
        Some(t) => Some(owned(t)),
        None => None,
    };
    let current = &file.channels[idx];
    let chosen = match normalize_optional(requested) {
        Some(t) => t,
        None => match &current.auth.token_env {
            Some(c) => c.clone(),
            None => owned("CHANNEL_TOKEN"),
        },
    };
    let updated = ChannelEntry {
        id: current.id.clone(),
        name: current.name.clone(),
        kind: current.kind.clone(),
        endpoint: clone_opt_string(&current.endpoint),
        target: clone_opt_string(&current.target),
        auth: ChannelAuthConfig { token_env: Some(chosen.clone()) },
        created_at: current.created_at,
        last_login_at: Some(now),
        last_send_at: current.last_send_at,
        last_error: clone_opt_string(&current.last_error),
    };
    let copy = updated.duplicate();
    let mut channels = file.channels;
    channels.set(idx, updated);
    Ok(
        (
            ChannelsFile { version: file.version, channels },
            ChannelLoginResult { token_env: chosen, token_present: is_set, channel: copy },
        ),
    )
}

/// Logs out of channel `id`: forgets its token variable and login time.
pub fn logout_channel(file: ChannelsFile, id: &str) -> (out: Result<
    (ChannelsFile, ChannelEntry),
    MosaicError,
>)
    ensures
        match out {
            Ok((f, c)) => exists|i: int|
                first_with_id(file.channels@, id@, i) && f.version == file.version
                    && f.channels@ == file.channels@.update(i, c) && c.auth.token_env is None
                    && c.last_login_at is None && c.id == file.channels@[i].id && c.name
                    == file.channels@[i].name && c.kind == file.channels@[i].kind && c.endpoint
                    == file.channels@[i].endpoint && c.target == file.channels@[i].target
                    && c.created_at == file.channels@[i].created_at && c.last_send_at
                    == file.channels@[i].last_send_at && c.last_error
                    == file.channels@[i].last_error,
            Err(e) => !has_id(file.channels@, id@) && config_error(e, not_found_message(id@)),
        },
{
    let idx = match find_channel(&file.channels, id) {
        Some(i) => i,
        None => return Err(not_found(id)),
    };
    let current = &file.channels[idx];
    let updated = ChannelEntry {
        id: current.id.clone(),
        name: current.name.clone(),
        kind: current.kind.clone(),
        endpoint: clone_opt_string(&current.endpoint),
        target: clone_opt_string(&current.target),
        auth: ChannelAuthConfig { token_env: None },
        created_at: current.created_at,
        last_login_at: None,
        last_send_at: current.last_send_at,
        last_error: clone_opt_string(&current.last_error),
    };
    let copy = updated.duplicate();
    let mut channels = file.channels;
    channels.set(idx, updated);
    Ok((ChannelsFile { version: file.version, channels }, copy))
}

/// Removes channel `id`, returning it.
pub fn remove_channel(file: ChannelsFile, id: &str) -> (out: Result<
    (ChannelsFile, ChannelEntry),
    MosaicError,
>)
    ensures
        match out {
            Ok((f, c)) => exists|i: int|
                first_with_id(file.channels@, id@, i) && c == file.channels@[i] && f.version
                    == file.version && f.channels@ == file.channels@.remove(i),
            Err(e) => !has_id(file.channels@, id@) && config_error(e, not_found_message(id@)),
        },
{
    let idx = match find_channel(&file.channels, id) {
        Some(i) => i,
        None => return Err(not_found(id)),
    };
    let mut channels = file.channels;
    let removed = channels.remove(idx);
    Ok((ChannelsFile { version: file.version, channels }, removed))
}

/// `f` is `file` after recording the outcome of a delivery on channel
/// `idx` at `now`: a success clears the last error and, unless it was a
/// probe, sets the send time; a failure records its error; nothing else
/// changes.
pub open spec fn delivery_recorded(
    file: ChannelsFile,
    idx: int,
    ok: bool,
    probe: bool,
    error: Option<String>,
    now: i64,
    f: ChannelsFile,
) -> bool {
    &&& f.version == file.version
    &&& f.channels@.len() == file.channels@.len()
    &&& forall|j: int| 0 <= j < f.channels@.len() && j != idx ==> f.channels@[j] == file.channels@[j]
    &&& ({
        let o = file.channels@[idx];
        let n = f.channels@[idx];
        &&& n.id == o.id && n.name == o.name && n.kind == o.kind && n.endpoint == o.endpoint
        &&& n.target == o.target && n.auth == o.auth && n.created_at == o.created_at
        &&& n.last_login_at == o.last_login_at
        &&& n.last_send_at == (if ok && !probe {
            Some(now)
        } else {
            o.last_send_at
        })
        &&& n.last_error == (if ok {
            None
        } else {
            error
        })
    })
}

/// Records the outcome of a delivery on channel `idx` at `now`.
pub fn record_delivery(
    file: ChannelsFile,
    idx: usize,
    ok: bool,
    probe: bool,
    error: Option<String>,
    now: i64,
) -> (f: ChannelsFile)
    requires
        idx < file.channels@.len(),
    ensures
        delivery_recorded(file, idx as int, ok, probe, error, now, f),
{
    let current = &file.channels[idx];
    let updated = ChannelEntry {
        id: current.id.clone(),
        name: current.name.clone(),
        kind: current.kind.clone(),
        endpoint: clone_opt_string(&current.endpoint),
        target: clone_opt_string(&current.target),
        auth: ChannelAuthConfig { token_env: clone_opt_string(&current.auth.token_env) },
        created_at: current.created_at,
        last_login_at: current.last_login_at,
        last_send_at: if ok && !probe {
            Some(now)
        } else {
            current.last_send_at
        },
        last_error: if ok {
            None
        } else {
            error
        },
    };
    let mut channels = file.channels;
    channels.set(idx, updated);
    ChannelsFile { version: file.version, channels }
}

} // verus!
