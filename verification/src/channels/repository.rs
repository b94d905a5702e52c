//! Where the channel store keeps its files, the channels it adds, and what
//! it reports of sends, imports and token rotations.
use vstd::prelude::*;
use crate::error::MosaicError;
use crate::ids::{new_uuid_string, now_millis, random_uuid_bytes, uuid_hyphenated};
use crate::paths::{join, join_path, parent, parent_path};
use crate::text::{cat, owned};
use std::hash::{Hash, Hasher};
use super::store::{AddChannelInput, ChannelEntry, ChannelsFile, add_channel_with, added_channel};

verus! {

/// The channels file under a data directory.
pub fn channels_file_path(data_dir: &str) -> (p: String)
    ensures
        p@ == join_path(data_dir@, "channels.json"@),
{
    join(data_dir, "channels.json")
}

/// The directory of channel event logs under a data directory.
pub fn channels_events_dir(data_dir: &str) -> (p: String)
    ensures
        p@ == join_path(data_dir@, "channel-events"@),
{
    join(data_dir, "channel-events")
}

/// The directory the cache and rate directories sit in: the events
/// directory's parent, or the events directory itself when it has none.
pub open spec fn cache_parent(events_dir: Seq<char>) -> Seq<char> {
    match parent_path(events_dir) {
        Some(p) => p,
        None => events_dir,
    }
}

/// The files and directories a channel store works in.
#[derive(Debug)]
pub struct ChannelRepository {
    channels_path: String,
    events_dir: String,
    cache_dir: String,
    rate_dir: String,
}

impl ChannelRepository {
    pub closed spec fn channels_file(&self) -> Seq<char> {
        self.channels_path@
    }

    pub closed spec fn events_directory(&self) -> Seq<char> {
        self.events_dir@
    }

    pub closed spec fn cache_directory(&self) -> Seq<char> {
        self.cache_dir@
    }

    pub closed spec fn rate_directory(&self) -> Seq<char> {
        self.rate_dir@
    }

    /// A store over the channels file and the events directory; its cache
    /// and rate directories sit beside the events directory.
    pub fn new(channels_path: String, events_dir: String) -> (r: Self)
        ensures
            r.channels_file() == channels_path@,
            r.events_directory() == events_dir@,
            r.cache_directory() == join_path(cache_parent(events_dir@), "channel-cache"@),
            r.rate_directory() == join_path(cache_parent(events_dir@), "channel-rate"@),
    {
        let base = match parent(events_dir.as_str()) {
            Some(p) => p,
            None => events_dir.clone(),
        };
        let cache_dir = join(base.as_str(), "channel-cache");
        let rate_dir = join(base.as_str(), "channel-rate");
        ChannelRepository { channels_path, events_dir, cache_dir, rate_dir }
    }

    /// The channels file.
    pub fn channels_path(&self) -> (p: &str)
        ensures
            p@ == self.channels_file(),
    {
        self.channels_path.as_str()
    }

    /// The directory of event logs.
    pub fn events_dir(&self) -> (p: &str)
        ensures
            p@ == self.events_directory(),
    {
        self.events_dir.as_str()
    }

    /// The directory of cached lookups.
    pub fn cache_dir(&self) -> (p: &str)
        ensures
            p@ == self.cache_directory(),
    {
        self.cache_dir.as_str()
    }

    /// The directory of rate-limit state.
    pub fn rate_dir(&self) -> (p: &str)
        ensures
            p@ == self.rate_directory(),
    {
        self.rate_dir.as_str()
    }

    /// The event log of a channel: `<events dir>/<id>.jsonl`.
    pub fn event_log_path(&self, channel_id: &str) -> (p: String)
        ensures
            p@ == join_path(self.events_directory(), channel_id@ + ".jsonl"@),
    {
        let name = cat(channel_id, ".jsonl");
        join(self.events_dir.as_str(), name.as_str())
    }

    /// The rate-limit state of a channel: `<rate dir>/<id>.json`.
    pub fn rate_state_path(&self, channel_id: &str) -> (p: String)
        ensures
            p@ == join_path(self.rate_directory(), channel_id@ + ".json"@),
    {
        let name = cat(channel_id, ".json");
        join(self.rate_dir.as_str(), name.as_str())
    }

    /// The cache file of a lookup key: `<cache dir>/<hash>.json`, the hash of
    /// the key (`key_hash`) written in lower-case hexadecimal.
    pub fn cache_path(&self, key: &str) -> (p: String)
        ensures
            p@ == join_path(self.cache_directory(), hex_text(key_hash(key@) as nat) + ".json"@),
    {
        let h = hash_key(key);
        self.cache_file_for_hash(h)
    }

    /// The cache file for a key whose hash is `hash`:
    /// `<cache dir>/<hash in lower-case hexadecimal>.json`.
    pub fn cache_file_for_hash(&self, hash: u64) -> (p: String)
        ensures
            p@ == join_path(self.cache_directory(), hex_text(hash as nat) + ".json"@),
    {
        let digits = hex_string(hash);
        let name = cat(digits.as_str(), ".json");
        join(self.cache_dir.as_str(), name.as_str())
    }
}

/// What `Hash::hash` of a `str` into a fresh
/// `std::collections::hash_map::DefaultHasher` finishes with.  std documents
/// every hasher made by `DefaultHasher::new` as the same (fixed keys, no
/// per-process seed), so the hash is a function of the key under one build
/// of std; std does not promise the same values across its releases.
pub uninterp spec fn key_hash(key: Seq<char>) -> u64;

/// Hashes a key with a fresh `DefaultHasher` (`DefaultHasher::new`,
/// `str::hash`, `Hasher::finish`).
#[verifier::external_body]
fn hash_key(key: &str) -> (h: u64)
    ensures
        h == key_hash(key@),
{
    let mut hasher = std::collections::hash_map::DefaultHasher::new();
    key.hash(&mut hasher);
    hasher.finish()
}

/// The lower-case hexadecimal digit of `d`.
pub open spec fn hex_digit_lower(d: nat) -> char
    recommends
        d < 16,
{
    if d < 10 {
        (48 + d) as char
    } else {
        (87 + d) as char
    }
}

/// `n` in lower-case hexadecimal without leading zeros (`{:x}`).
pub open spec fn hex_text(n: nat) -> Seq<char>
    decreases n,
{
    if n < 16 {
        seq![hex_digit_lower(n)]
    } else {
        hex_text(n / 16).push(hex_digit_lower(n % 16))
    }
}

fn hex_string(n: u64) -> (out: String)
    ensures
        out@ == hex_text(n as nat),
    decreases n,
{
    let d = n % 16;
    let c = if d < 10 {
        (48u8 + d as u8) as char
    } else {
        (87u8 + d as u8) as char
    };
    if n < 16 {
        let mut v: Vec<char> = Vec::new();
        v.push(c);
        assert(v@ =~= seq![hex_digit_lower(n as nat)]);
        crate::text::string_of(v.as_slice())
    } else {
        let mut s = hex_string(n / 16);
        let mut v: Vec<char> = Vec::new();
        v.push(c);
        let tail = crate::text::string_of(v.as_slice());
        s.append(tail.as_str());
        assert(s@ =~= hex_text((n / 16) as nat).push(hex_digit_lower((n % 16) as nat)));
        s
    }
}

/// Adds a channel under a new id `ch_<uuid>`, created now.
pub fn add_channel(file: ChannelsFile, input: AddChannelInput) -> (out: Result<
    (ChannelsFile, ChannelEntry),
    MosaicError,
>)
    ensures
        exists|b: Seq<u8>, now: i64|
            random_uuid_bytes(b) && #[trigger] added_channel(
                file.channels@,
                input,
                "ch_"@ + uuid_hyphenated(b),
                now,
                out,
            ),
{
    let uuid = new_uuid_string();
    let id = cat("ch_", uuid.as_str());
    let now = now_millis();
    let out = add_channel_with(file, input, id, now);
    proof {
        let b = choose|b: Seq<u8>| random_uuid_bytes(b) && uuid@ == uuid_hyphenated(b);
        assert(added_channel(file.channels@, input, "ch_"@ + uuid_hyphenated(b), now, out));
    }
    out
}

/// What a send reports.
#[derive(Debug, Clone)]
pub struct ChannelSendResult {
    pub channel_id: String,
    pub delivered_via: String,
    pub kind: String,
    pub attempts: usize,
    pub http_status: Option<u16>,
    pub endpoint_masked: Option<String>,
    pub target_masked: Option<String>,
    pub parse_mode: Option<String>,
    pub idempotency_key: Option<String>,
    pub deduplicated: bool,
    pub rate_limited_ms: Option<u64>,
    pub event_path: String,
    pub probe: bool,
}

/// What an import of channels did.
#[derive(Debug, Clone, Copy)]
pub struct ChannelImportSummary {
    pub total: usize,
    pub imported: usize,
    pub updated: usize,
    pub skipped: usize,
    pub replace: bool,
    pub strict: bool,
    pub dry_run: bool,
}

/// What a token-environment rotation is asked to do.
#[derive(Debug, Clone)]
pub struct RotateTokenEnvInput {
    pub channel_id: Option<String>,
    pub all: bool,
    pub kind: Option<String>,
    pub from_token_env: Option<String>,
    pub to_token_env: String,
    pub dry_run: bool,
}

/// What a rotation did to one channel.
#[derive(Debug, Clone)]
pub struct ChannelTokenRotationItem {
    pub channel_id: String,
    pub name: String,
    pub kind: String,
    pub previous_token_env: Option<String>,
    pub next_token_env: Option<String>,
    pub status: String,
}

/// What a rotation did in all.
#[derive(Debug, Clone)]
pub struct ChannelTokenRotationSummary {
    pub total: usize,
    pub updated: usize,
    pub skipped_already_set: usize,
    pub skipped_unsupported: usize,
    pub skipped_from_mismatch: usize,
    pub dry_run: bool,
    pub from_token_env: Option<String>,
    pub to_token_env: String,
    pub items: Vec<ChannelTokenRotationItem>,
}

} // verus!
