//! What the repository reports about its channels: capabilities, status,
//! health checks and directory lookups.
use vstd::prelude::*;
use crate::channels::kinds::{
    discord_kind, endpoint_problem, kind_of, is_local_kind, normalize_kind, opt_str_view, slack_kind,
    unsupported_kind_message, validate_endpoint_for_kind, webhook_kind,
};
use crate::channels::mask::{mask_optional_endpoint, opt_maskable, opt_masked};
use crate::channels::store::{ChannelEntry, ChannelListItem, ChannelsFile, clone_opt_string};
use crate::error::{MosaicError, validation_error};
use crate::sorting::{Ordered, is_sorted, lemma_text_le_total, lemma_text_le_trans, sort_stable, stable_sort, text_le, text_le_exec};
use crate::text::{
    cat, cat3, cat5, contains_sub, decimal, opt_view, owned, str_contains, str_eq, to_lowercase,
    trim, trim_str, u64_to_string, lowercase, words, split_whitespace,
};

verus! {

/// What a channel kind supports.
#[derive(Debug)]
pub struct ChannelCapability {
    pub kind: String,
    pub aliases: Vec<String>,
    pub supports_endpoint: bool,
    pub supports_token_env: bool,
    pub supports_test_probe: bool,
    pub supports_bearer_token: bool,
    pub supports_parse_mode: bool,
    pub supports_message_template: bool,
    pub supports_idempotency_key: bool,
    pub supports_rate_limit_report: bool,
}

/// The supported kinds, in the order capabilities are listed.
pub open spec fn supported_kinds() -> Seq<Seq<char>> {
    seq![slack_kind(), discord_kind(), webhook_kind(), "mock"@, "local"@, "stdout"@]
}

/// The names that resolve to a kind.
pub open spec fn kind_aliases(kind: Seq<char>) -> Seq<Seq<char>> {
    if kind == slack_kind() {
        seq!["slack"@, "slack-webhook"@, slack_kind()]
    } else if kind == discord_kind() {
        seq!["discord"@, "discord-webhook"@, discord_kind()]
    } else {
        seq![kind]
    }
}

/// The capabilities of `kind`: HTTP kinds take an endpoint and a bearer
/// token from a token variable; every kind takes probes, templates and
/// idempotency keys; parse modes and rate-limit reports are Telegram's only.
pub open spec fn capability_of(c: ChannelCapability, kind: Seq<char>) -> bool {
    let http = kind == slack_kind() || kind == discord_kind() || kind == webhook_kind();
    &&& c.kind@ == kind
    &&& c.aliases@.map_values(|a: String| a@) == kind_aliases(kind)
    &&& c.supports_endpoint == http
    &&& c.supports_token_env == http
    &&& c.supports_test_probe
    &&& c.supports_bearer_token == http
    &&& !c.supports_parse_mode
    &&& c.supports_message_template
    &&& c.supports_idempotency_key
    &&& !c.supports_rate_limit_report
}

fn strings3(a: &str, b: &str, c: &str) -> (v: Vec<String>)
    ensures
        v@.map_values(|s: String| s@) == seq![a@, b@, c@],
{
    let mut v: Vec<String> = Vec::new();
    v.push(owned(a));
    v.push(owned(b));
    v.push(owned(c));
    assert(v@.map_values(|s: String| s@) =~= seq![a@, b@, c@]);
    v
}

fn capability_for(kind: &str) -> (c: ChannelCapability)
    requires
        supported_kinds().contains(kind@),
    ensures
        capability_of(c, kind@),
{
    let http = str_eq(kind, "slack_webhook") || str_eq(kind, "discord_webhook") || str_eq(
        kind,
        "webhook",
    );
    let aliases = if str_eq(kind, "slack_webhook") {
        strings3("slack", "slack-webhook", "slack_webhook")
    } else if str_eq(kind, "discord_webhook") {
        strings3("discord", "discord-webhook", "discord_webhook")
    } else {
        let mut v: Vec<String> = Vec::new();
        v.push(owned(kind));
        assert(v@.map_values(|s: String| s@) =~= seq![kind@]);
        v
    };
    ChannelCapability {
        kind: owned(kind),
        aliases,
        supports_endpoint: http,
        supports_token_env: http,
        supports_test_probe: true,
        supports_bearer_token: http,
        supports_parse_mode: false,
        supports_message_template: true,
        supports_idempotency_key: true,
        supports_rate_limit_report: false,
    }
}

/// The capabilities of the kind that `kind` names, or of every supported
/// kind when none is named.
pub fn capabilities_for_kind(kind: Option<&str>) -> (out: Result<
    Vec<ChannelCapability>,
    MosaicError,
>)
    ensures
        match kind {
            None => out matches Ok(v) && v@.len() == supported_kinds().len() && forall|i: int|
                0 <= i < v@.len() ==> capability_of(#[trigger] v@[i], supported_kinds()[i]),
            Some(k) => match kind_of(k@) {
                Some(canon) => out matches Ok(v) && v@.len() == 1 && capability_of(v@[0], canon),
                None => out matches Err(e) && validation_error(
                    e,
                    unsupported_kind_message(lowercase(trim(k@))),
                ),
            },
        },
{
    match kind {
        Some(k) => {
            let canon = match normalize_kind(k) {
                Ok(c) => c,
                Err(e) => return Err(e),
            };
            let mut v: Vec<ChannelCapability> = Vec::new();
            assert(supported_kinds()[0] == slack_kind());
            assert(supported_kinds()[1] == discord_kind());
            assert(supported_kinds()[2] == webhook_kind());
            assert(supported_kinds()[3] == "mock"@);
            assert(supported_kinds()[4] == "local"@);
            assert(supported_kinds()[5] == "stdout"@);
            v.push(capability_for(canon.as_str()));
            Ok(v)
        },
        None => {
            let mut v: Vec<ChannelCapability> = Vec::new();
            assert(supported_kinds()[0] == slack_kind());
            v.push(capability_for("slack_webhook"));
            assert(supported_kinds()[1] == discord_kind());
            v.push(capability_for("discord_webhook"));
            assert(supported_kinds()[2] == webhook_kind());
            v.push(capability_for("webhook"));
            assert(supported_kinds()[3] == "mock"@);
            v.push(capability_for("mock"));
            assert(supported_kinds()[4] == "local"@);
            v.push(capability_for("local"));
            assert(supported_kinds()[5] == "stdout"@);
            v.push(capability_for("stdout"));
            Ok(v)
        },
    }
}

/// The cache key of a capabilities lookup.
pub fn capabilities_cache_key(resolved_kind: Option<&str>) -> (key: String)
    ensures
        key@ == "capabilities:"@ + lowercase(trim(match resolved_kind {
            Some(k) => k@,
            None => "all"@,
        })),
{
    let k = match resolved_kind {
        Some(k) => trim_str(k),
        None => trim_str("all"),
    };
    let l = to_lowercase(k.as_str());
    cat("capabilities:", l.as_str())
}

/// A kind and the number of channels of that kind.
#[derive(Debug)]
pub struct KindCount {
    pub kind: String,
    pub count: usize,
}

impl Ordered for KindCount {
    open spec fn le_spec(&self, other: &Self) -> bool {
        text_le(self.kind@, other.kind@)
    }

    fn le_exec(&self, other: &Self) -> (b: bool) {
        text_le_exec(self.kind.as_str(), other.kind.as_str())
    }

    proof fn le_total(a: &Self, b: &Self) {
        lemma_text_le_total(a.kind@, b.kind@);
    }

    proof fn le_trans(a: &Self, b: &Self, c: &Self) {
        lemma_text_le_trans(a.kind@, b.kind@, c.kind@);
    }
}

/// The number of listed channels of kind `k`.
pub open spec fn count_kind(items: Seq<ChannelListItem>, k: Seq<char>) -> nat
    decreases items.len(),
{
    if items.len() == 0 {
        0
    } else {
        count_kind(items.drop_last(), k) + if items.last().kind@ == k {
            1nat
        } else {
            0nat
        }
    }
}

/// The number of listed channels with (`with_error`) or without an error.
pub open spec fn count_errors(items: Seq<ChannelListItem>, with_error: bool) -> nat
    decreases items.len(),
{
    if items.len() == 0 {
        0
    } else {
        count_errors(items.drop_last(), with_error) + if (items.last().last_error is Some)
            == with_error {
            1nat
        } else {
            0nat
        }
    }
}

/// The latest send time among the listed channels.
pub open spec fn latest_send(items: Seq<ChannelListItem>) -> Option<i64>
    decreases items.len(),
{
    if items.len() == 0 {
        None
    } else {
        let rest = latest_send(items.drop_last());
        match items.last().last_send_at {
            None => rest,
            Some(t) => match rest {
                None => Some(t),
                Some(r) => if t > r {
                    Some(t)
                } else {
                    Some(r)
                },
            },
        }
    }
}

/// The status of the channels.
#[derive(Debug)]
pub struct ChannelStatus {
    pub total_channels: usize,
    pub healthy_channels: usize,
    pub channels_with_errors: usize,
    pub kinds: Vec<KindCount>,
    pub last_send_at: Option<i64>,
}

/// The per-kind counts: one entry per kind present, sorted by kind, each
/// with the number of channels of that kind.
pub open spec fn kind_counts_exact(items: Seq<ChannelListItem>, kinds: Seq<KindCount>) -> bool {
    &&& is_sorted(kinds)
    &&& forall|i: int, j: int|
        #![trigger kinds[i], kinds[j]]
        0 <= i < j < kinds.len() ==> kinds[i].kind@ != kinds[j].kind@
    &&& forall|i: int|
        0 <= i < kinds.len() ==> (#[trigger] kinds[i]).count == count_kind(
            items,
            kinds[i].kind@,
        ) && kinds[i].count > 0
    &&& forall|j: int|
        0 <= j < items.len() ==> exists|i: int|
            0 <= i < kinds.len() && (#[trigger] kinds[i]).kind@ == (#[trigger] items[j]).kind@
}

proof fn lemma_count_kind_le(items: Seq<ChannelListItem>, k: Seq<char>)
    ensures
        count_kind(items, k) <= items.len(),
    decreases items.len(),
{
    if items.len() > 0 {
        lemma_count_kind_le(items.drop_last(), k);
    }
}

proof fn lemma_count_errors_le(items: Seq<ChannelListItem>, w: bool)
    ensures
        count_errors(items, w) <= items.len(),
    decreases items.len(),
{
    if items.len() > 0 {
        lemma_count_errors_le(items.drop_last(), w);
    }
}

/// Summarizes the listed channels.
pub fn channel_status(items: &Vec<ChannelListItem>) -> (st: ChannelStatus)
    ensures
        st.total_channels == items@.len(),
        st.healthy_channels == count_errors(items@, false),
        st.channels_with_errors == count_errors(items@, true),
        st.last_send_at == latest_send(items@),
        kind_counts_exact(items@, st.kinds@),
{
    let mut counts: Vec<KindCount> = Vec::new();
    let mut healthy: usize = 0;
    let mut failing: usize = 0;
    let mut last: Option<i64> = None;
    let mut i: usize = 0;
    while i < items.len()
        invariant
            i <= items.len(),
            healthy == count_errors(items@.take(i as int), false),
            failing == count_errors(items@.take(i as int), true),
            last == latest_send(items@.take(i as int)),
            forall|a: int, b: int|
                #![trigger counts@[a], counts@[b]]
                0 <= a < b < counts@.len() ==> counts@[a].kind@ != counts@[b].kind@,
            forall|a: int|
                0 <= a < counts@.len() ==> (#[trigger] counts@[a]).count == count_kind(
                    items@.take(i as int),
                    counts@[a].kind@,
                ) && counts@[a].count > 0,
            forall|j: int|
                0 <= j < i ==> exists|a: int|
                    0 <= a < counts@.len() && (#[trigger] counts@[a]).kind@
                        == (#[trigger] items@[j]).kind@,
        decreases items.len() - i,
    {
        let ghost pre = items@.take(i as int);
        let ghost next = items@.take(i + 1);
        proof {
            assert(next.drop_last() =~= pre);
            assert(next.last() == items@[i as int]);
            lemma_count_errors_le(pre, false);
            lemma_count_errors_le(pre, true);
        }
        let item = &items[i];
        if item.last_error.is_some() {
            failing += 1;
        } else {
            healthy += 1;
        }
        last = match item.last_send_at {
            None => last,
            Some(t) => match last {
                None => Some(t),
                Some(r) => if t > r {
                    Some(t)
                } else {
                    Some(r)
                },
            },
        };
        let ghost k = item.kind@;
        let mut a: usize = 0;
        while a < counts.len() && !str_eq(counts[a].kind.as_str(), item.kind.as_str())
            invariant
                a <= counts.len(),
                k == item.kind@,
                forall|b: int| 0 <= b < a ==> (#[trigger] counts@[b]).kind@ != k,
            decreases counts.len() - a,
        {
            a += 1;
        }
        let found = a < counts.len();
        let ghost old_counts = counts@;
        if found {
            proof {
                lemma_count_kind_le(pre, k);
            }
            let c = KindCount { kind: counts[a].kind.clone(), count: counts[a].count + 1 };
            counts.set(a, c);
        } else {
            counts.push(KindCount { kind: item.kind.clone(), count: 1 });
        }
        proof {
            assert(items@[i as int].kind@ == k);
            assert forall|b: int| 0 <= b < counts@.len() implies (#[trigger] counts@[b]).count
                == count_kind(next, counts@[b].kind@) && counts@[b].count > 0 by {
                let kb = counts@[b].kind@;
                assert(count_kind(next, kb) == count_kind(pre, kb) + if k == kb {
                    1nat
                } else {
                    0nat
                });
                if found {
                    if b == a {
                        assert(old_counts[b].kind@ == k);
                    } else {
                        assert(old_counts[b] == counts@[b]);
                        assert(old_counts[a as int].kind@ == k);
                        if b < a {
                            assert(old_counts[b].kind@ != old_counts[a as int].kind@);
                        } else {
                            assert(old_counts[a as int].kind@ != old_counts[b].kind@);
                        }
                    }
                } else {
                    if b < old_counts.len() {
                        assert(old_counts[b] == counts@[b]);
                        assert(old_counts[b].kind@ != k);
                    } else {
                        assert(kb == k);
                        if count_kind(pre, k) > 0 {
                            lemma_count_kind_witness(pre, k);
                            let j = choose|j: int| 0 <= j < pre.len() && (#[trigger] pre[j]).kind@ == k;
                            assert(items@[j] == pre[j]);
                            let a2 = choose|a2: int| 0 <= a2 < old_counts.len() && (#[trigger] old_counts[a2]).kind@ == items@[j].kind@;
                            assert(old_counts[a2].kind@ != k);
                        }
                    }
                }
            }
            assert forall|x: int, y: int|
                #![trigger counts@[x], counts@[y]]
                0 <= x < y < counts@.len() implies counts@[x].kind@ != counts@[y].kind@ by {
                if found {
                    assert(counts@[x].kind@ == old_counts[x].kind@);
                    assert(counts@[y].kind@ == old_counts[y].kind@);
                } else if y < old_counts.len() {
                    assert(counts@[x] == old_counts[x]);
                    assert(counts@[y] == old_counts[y]);
                } else {
                    assert(counts@[x] == old_counts[x]);
                    assert(old_counts[x].kind@ != k);
                }
            }
            assert forall|j: int| 0 <= j < i + 1 implies exists|a2: int|
                0 <= a2 < counts@.len() && (#[trigger] counts@[a2]).kind@
                    == (#[trigger] items@[j]).kind@ by {
                if j < i {
                    let a2 = choose|a2: int| 0 <= a2 < old_counts.len() && (#[trigger] old_counts[a2]).kind@ == items@[j].kind@;
                    assert(counts@[a2].kind@ == old_counts[a2].kind@);
                } else {
                    if found {
                        assert(counts@[a as int].kind@ == items@[j].kind@);
                    } else {
                        assert(counts@[old_counts.len() as int].kind@ == items@[j].kind@);
                    }
                }
            }
        }
        i += 1;
    }
    proof {
        assert(items@.take(items.len() as int) =~= items@);
    }
    let ghost unsorted = counts@;
    let sorted = sort_stable(counts);
    proof {
        broadcast use vstd::seq_lib::group_to_multiset_ensures;

        assert forall|a: int| 0 <= a < sorted@.len() implies (#[trigger] sorted@[a]).count
            == count_kind(items@, sorted@[a].kind@) && sorted@[a].count > 0 by {
            assert(sorted@.to_multiset().count(sorted@[a]) > 0);
            assert(unsorted.to_multiset().count(sorted@[a]) > 0);
            assert(unsorted.contains(sorted@[a]));
        }
        assert forall|a: int, b: int|
            #![trigger sorted@[a], sorted@[b]]
            0 <= a < b < sorted@.len() implies sorted@[a].kind@ != sorted@[b].kind@ by {
            lemma_distinct_after_permutation(unsorted, sorted@, a, b);
        }
        assert forall|j: int| 0 <= j < items@.len() implies exists|a: int|
            0 <= a < sorted@.len() && (#[trigger] sorted@[a]).kind@ == (#[trigger] items@[j]).kind@ by {
            let a2 = choose|a2: int| 0 <= a2 < unsorted.len() && (#[trigger] unsorted[a2]).kind@ == items@[j].kind@;
            assert(unsorted.to_multiset().count(unsorted[a2]) > 0);
            assert(sorted@.to_multiset().count(unsorted[a2]) > 0);
            assert(sorted@.contains(unsorted[a2]));
        }
    }
    ChannelStatus {
        total_channels: items.len(),
        healthy_channels: healthy,
        channels_with_errors: failing,
        kinds: sorted,
        last_send_at: last,
    }
}

proof fn lemma_count_kind_witness(items: Seq<ChannelListItem>, k: Seq<char>)
    requires
        count_kind(items, k) > 0,
    ensures
        exists|j: int| 0 <= j < items.len() && (#[trigger] items[j]).kind@ == k,
    decreases items.len(),
{
    if items.last().kind@ != k {
        lemma_count_kind_witness(items.drop_last(), k);
        let j = choose|j: int| 0 <= j < items.drop_last().len() && (#[trigger] items.drop_last()[j]).kind@ == k;
        assert(items[j] == items.drop_last()[j]);
    } else {
        assert(items[items.len() - 1].kind@ == k);
    }
}

proof fn lemma_distinct_after_permutation(u: Seq<KindCount>, s: Seq<KindCount>, a: int, b: int)
    requires
        s.to_multiset() == u.to_multiset(),
        forall|x: int, y: int|
            #![trigger u[x], u[y]]
            0 <= x < y < u.len() ==> u[x].kind@ != u[y].kind@,
        0 <= a < b < s.len(),
    ensures
        s[a].kind@ != s[b].kind@,
{
    broadcast use vstd::seq_lib::group_to_multiset_ensures;

    if s[a].kind@ == s[b].kind@ {
        assert(u.contains(s[a])) by {
            assert(s.to_multiset().count(s[a]) > 0);
        }
        assert(u.contains(s[b])) by {
            assert(s.to_multiset().count(s[b]) > 0);
        }
        let x = choose|x: int| 0 <= x < u.len() && u[x] == s[a];
        let y = choose|y: int| 0 <= y < u.len() && u[y] == s[b];
        if x == y {
            // The same element occurs twice in `s` but once in `u`.
            assert(s[a] == s[b]);
            lemma_count_two(s, a, b);
            lemma_count_at_most_one(u, s[a]);
            assert(false);
        } else if x < y {
            assert(u[x].kind@ != u[y].kind@);
        } else {
            assert(u[y].kind@ != u[x].kind@);
        }
    }
}

proof fn lemma_count_two(s: Seq<KindCount>, a: int, b: int)
    requires
        0 <= a < b < s.len(),
        s[a] == s[b],
    ensures
        s.to_multiset().count(s[a]) >= 2,
    decreases s.len(),
{
    broadcast use vstd::seq_lib::group_to_multiset_ensures;

    let p = s.drop_last();
    assert(p.push(s.last()) =~= s);
    if b == s.len() - 1 {
        assert(p.contains(s[a])) by {
            assert(p[a] == s[a]);
        }
        assert(p.to_multiset().count(s[a]) >= 1);
    } else {
        lemma_count_two(p, a, b);
        assert(p[a] == s[a]);
    }
}

proof fn lemma_count_at_most_one(u: Seq<KindCount>, e: KindCount)
    requires
        forall|x: int, y: int|
            #![trigger u[x], u[y]]
            0 <= x < y < u.len() ==> u[x].kind@ != u[y].kind@,
    ensures
        u.to_multiset().count(e) <= 1,
    decreases u.len(),
{
    broadcast use vstd::seq_lib::group_to_multiset_ensures;

    if u.len() > 0 {
        let p = u.drop_last();
        assert(p.push(u.last()) =~= u);
        assert forall|x: int, y: int|
            #![trigger p[x], p[y]]
            0 <= x < y < p.len() implies p[x].kind@ != p[y].kind@ by {
            assert(p[x] == u[x] && p[y] == u[y]);
        }
        lemma_count_at_most_one(p, e);
        if u.last() == e {
            if p.to_multiset().count(e) > 0 {
                assert(p.contains(e));
                let x = choose|x: int| 0 <= x < p.len() && p[x] == e;
                assert(u[x] == e);
                assert(u[x].kind@ != u[u.len() - 1].kind@);
            }
        }
    }
}

/// One health check and its outcome.
#[derive(Debug)]
pub struct DoctorCheck {
    pub name: String,
    pub ok: bool,
    pub detail: String,
}

pub open spec fn check_is(c: DoctorCheck, name: Seq<char>, ok: bool, detail: Seq<char>) -> bool {
    c.name@ == name && c.ok == ok && c.detail@ == detail
}

/// Whether the names in `set` include `name`.
pub open spec fn is_set(set: Seq<String>, name: Seq<char>) -> bool {
    exists|i: int| 0 <= i < set.len() && (#[trigger] set[i])@ == name
}

/// The checks of one channel: its endpoint, and its token variable when it
/// has one (set when `set` names it).
pub open spec fn channel_checks_ok(c: ChannelEntry, set: Seq<String>, checks: Seq<DoctorCheck>) -> bool {
    let valid = endpoint_problem(c.kind@, opt_view(c.endpoint)) is None;
    let endpoint_check = check_is(
        checks[0],
        "channel_"@ + c.id@ + "_endpoint"@,
        valid,
        if valid {
            c.kind@ + " endpoint looks valid ("@ + match opt_masked(opt_view(c.endpoint)) {
                Some(m) => m,
                None => "-"@,
            } + ")"@
        } else {
            c.kind@ + " endpoint invalid"@
        },
    );
    match c.auth.token_env {
        None => checks.len() == 1 && endpoint_check,
        Some(t) => checks.len() == 2 && endpoint_check && check_is(
            checks[1],
            "channel_"@ + c.id@ + "_token_env"@,
            is_set(set, t@),
            t@ + " "@ + if is_set(set, t@) {
                "is set"@
            } else {
                "is missing"@
            },
        ),
    }
}

/// The number of checks for a channel.
pub open spec fn checks_per_channel(c: ChannelEntry) -> nat {
    if c.auth.token_env is Some {
        2
    } else {
        1
    }
}

/// The checks of the channels, in order.
pub open spec fn channels_checks_ok(chs: Seq<ChannelEntry>, set: Seq<String>, checks: Seq<DoctorCheck>) -> bool
    decreases chs.len(),
{
    if chs.len() == 0 {
        checks.len() == 0
    } else {
        let n = checks_per_channel(chs.last());
        checks.len() >= n && channels_checks_ok(
            chs.drop_last(),
            set,
            checks.subrange(0, checks.len() - n),
        ) && channel_checks_ok(chs.last(), set, checks.subrange(checks.len() - n, checks.len() as int))
    }
}

fn env_is_set(set: &Vec<String>, name: &str) -> (b: bool)
    ensures
        b == is_set(set@, name@),
{
    let mut i: usize = 0;
    while i < set.len()
        invariant
            i <= set.len(),
            forall|k: int| 0 <= k < i ==> (#[trigger] set@[k])@ != name@,
        decreases set.len() - i,
    {
        if str_eq(set[i].as_str(), name) {
            return true;
        }
        i += 1;
    }
    false
}

/// The health checks of the channels file: the file itself, then each
/// channel's endpoint and token variable; `set_envs` names the variables
/// that are set.
pub fn doctor_checks(file: &ChannelsFile, set_envs: &Vec<String>) -> (checks: Vec<DoctorCheck>)
    requires
        forall|i: int|
            0 <= i < file.channels@.len() ==> (endpoint_problem(
                (#[trigger] file.channels@[i]).kind@,
                opt_view(file.channels@[i].endpoint),
            ) is None ==> opt_maskable(opt_view(file.channels@[i].endpoint))),
    ensures
        checks@.len() >= 1,
        check_is(
            checks@[0],
            "channels_file"@,
            true,
            "loaded "@ + decimal(file.channels@.len()) + " channels (schema v"@ + decimal(
                file.version as nat,
            ) + ")"@,
        ),
        channels_checks_ok(file.channels@, set_envs@, checks@.skip(1)),
{
    let n = u64_to_string(file.channels.len() as u64);
    let v = u64_to_string(file.version as u64);
    let detail = cat5("loaded ", n.as_str(), " channels (schema v", v.as_str(), ")");
    let mut checks: Vec<DoctorCheck> = Vec::new();
    checks.push(DoctorCheck { name: owned("channels_file"), ok: true, detail });
    let mut i: usize = 0;
    while i < file.channels.len()
        invariant
            i <= file.channels.len(),
            checks@.len() >= 1,
            check_is(
                checks@[0],
                "channels_file"@,
                true,
                "loaded "@ + decimal(file.channels@.len()) + " channels (schema v"@ + decimal(
                    file.version as nat,
                ) + ")"@,
            ),
            channels_checks_ok(file.channels@.take(i as int), set_envs@, checks@.skip(1)),
            forall|k: int|
                0 <= k < file.channels@.len() ==> (endpoint_problem(
                    (#[trigger] file.channels@[k]).kind@,
                    opt_view(file.channels@[k].endpoint),
                ) is None ==> opt_maskable(opt_view(file.channels@[k].endpoint))),
        decreases file.channels.len() - i,
    {
        let c = &file.channels[i];
        let ghost before = checks@;
        let endpoint_ref: Option<&str> = match &c.endpoint {
            Some(e) => Some(e.as_str()),
            None => None,
        };
        assert(opt_str_view(endpoint_ref) == opt_view(c.endpoint));
        let valid = validate_endpoint_for_kind(c.kind.as_str(), endpoint_ref).is_ok();
        let detail = if valid {
            let m = match mask_optional_endpoint(&c.endpoint) {
                Some(m) => m,
                None => owned("-"),
            };
            cat5(c.kind.as_str(), " endpoint looks valid (", m.as_str(), ")", "")
        } else {
            cat(c.kind.as_str(), " endpoint invalid")
        };
        checks.push(
            DoctorCheck { name: cat3("channel_", c.id.as_str(), "_endpoint"), ok: valid, detail },
        );
        match &c.auth.token_env {
            Some(t) => {
                let present = env_is_set(set_envs, t.as_str());
                let word = if present {
                    owned("is set")
                } else {
                    owned("is missing")
                };
                checks.push(
                    DoctorCheck {
                        name: cat3("channel_", c.id.as_str(), "_token_env"),
                        ok: present,
                        detail: cat3(t.as_str(), " ", word.as_str()),
                    },
                );
            },
            None => {},
        }
        proof {
            let pre = file.channels@.take(i as int);
            let next = file.channels@.take(i + 1);
            assert(next.drop_last() =~= pre);
            assert(next.last() == file.channels@[i as int]);
            let nc = checks_per_channel(file.channels@[i as int]);
            assert(checks@.skip(1).subrange(0, checks@.skip(1).len() - nc) =~= before.skip(1));
            reveal_strlit("");
            let added = checks@.skip(1).subrange(
                checks@.skip(1).len() - nc,
                checks@.skip(1).len() as int,
            );
            assert(added[0] == checks@[before.len() as int]);
            if nc == 2 {
                assert(added[1] == checks@[before.len() as int + 1]);
            }
            assert(checks@[0] == before[0]);
        }
        i += 1;
    }
    proof {
        assert(file.channels@.take(file.channels.len() as int) =~= file.channels@);
    }
    checks
}

/// A channel as a directory lookup shows it.
#[derive(Debug)]
pub struct ChannelDirectoryEntry {
    pub id: String,
    pub name: String,
    pub kind: String,
    pub endpoint_masked: Option<String>,
    pub last_send_at: Option<i64>,
    pub last_error: Option<String>,
}

impl Ordered for ChannelDirectoryEntry {
    open spec fn le_spec(&self, other: &Self) -> bool {
        text_le(self.name@, other.name@)
    }

    fn le_exec(&self, other: &Self) -> (b: bool) {
        text_le_exec(self.name.as_str(), other.name.as_str())
    }

    proof fn le_total(a: &Self, b: &Self) {
        lemma_text_le_total(a.name@, b.name@);
    }

    proof fn le_trans(a: &Self, b: &Self, c: &Self) {
        lemma_text_le_trans(a.name@, b.name@, c.name@);
    }
}

/// The text a lookup searches: the id and the lower-cased name, endpoint and
/// target, separated by spaces.
pub open spec fn haystack(c: ChannelEntry) -> Seq<char> {
    c.id@ + " "@ + lowercase(c.name@) + " "@ + lowercase(
        match opt_view(c.endpoint) {
            Some(e) => e,
            None => Seq::<char>::empty(),
        },
    ) + " "@ + lowercase(
        match opt_view(c.target) {
            Some(t) => t,
            None => Seq::<char>::empty(),
        },
    )
}

/// Whether channel `c` of kind `kind` matches every term.
pub open spec fn matches_lookup(c: ChannelEntry, kind: Seq<char>, terms: Seq<Seq<char>>) -> bool {
    c.kind@ == kind && forall|t: int| 0 <= t < terms.len() ==> contains_sub(haystack(c), #[trigger] terms[t])
}

/// The directory entry of a channel.
pub open spec fn directory_entry(c: ChannelEntry, e: ChannelDirectoryEntry) -> bool {
    &&& e.id == c.id
    &&& e.name == c.name
    &&& e.kind == c.kind
    &&& opt_view(e.endpoint_masked) == opt_masked(opt_view(c.endpoint))
    &&& e.last_send_at == c.last_send_at
    &&& e.last_error == c.last_error
}

/// The matching channels' entries, in file order.
pub open spec fn lookup_entries(
    chs: Seq<ChannelEntry>,
    kind: Seq<char>,
    terms: Seq<Seq<char>>,
    out: Seq<ChannelDirectoryEntry>,
) -> bool
    decreases chs.len(),
{
    if chs.len() == 0 {
        out.len() == 0
    } else if matches_lookup(chs.last(), kind, terms) {
        out.len() > 0 && lookup_entries(chs.drop_last(), kind, terms, out.drop_last())
            && directory_entry(chs.last(), out.last())
    } else {
        lookup_entries(chs.drop_last(), kind, terms, out)
    }
}

fn opt_lower(o: &Option<String>) -> (out: String)
    ensures
        out@ == lowercase(
            match opt_view(*o) {
                Some(e) => e,
                None => Seq::<char>::empty(),
            },
        ),
{
    match o {
        Some(s) => to_lowercase(s.as_str()),
        None => {
            proof {
                reveal_strlit("");
            }
            assert(""@ =~= Seq::<char>::empty());
            to_lowercase("")
        },
    }
}

/// The cache key of a directory lookup.
pub fn resolve_cache_key(kind: &str, query: &str) -> (key: String)
    ensures
        key@ == "resolve:"@ + kind@ + ":"@ + query@,
{
    proof {
        reveal_strlit("");
    }
    let key = cat5("resolve:", kind, ":", query, "");
    assert(key@ =~= "resolve:"@ + kind@ + ":"@ + query@);
    key
}

/// Looks up channels of kind `kind` whose id, name, endpoint or target hold
/// every word of `query` (compared in lower case), sorted by name.
pub fn resolve_directory(file: &ChannelsFile, kind: &str, query: &str) -> (out: Result<
    Vec<ChannelDirectoryEntry>,
    MosaicError,
>)
    requires
        forall|i: int|
            0 <= i < file.channels@.len() ==> opt_maskable(
                opt_view((#[trigger] file.channels@[i]).endpoint),
            ),
    ensures
        match kind_of(kind@) {
            None => out matches Err(e) && validation_error(
                e,
                unsupported_kind_message(lowercase(trim(kind@))),
            ),
            Some(k) => out matches Ok(v) && exists|found: Seq<ChannelDirectoryEntry>|
                lookup_entries(
                    file.channels@,
                    k,
                    words(lowercase(trim(query@))),
                    found,
                ) && v@ == stable_sort(found),
        },
{
    let k = match normalize_kind(kind) {
        Ok(k) => k,
        Err(e) => return Err(e),
    };
    let q = to_lowercase(trim_str(query).as_str());
    let terms = split_whitespace(q.as_str());
    let ghost tv = terms@.map_values(|w: String| w@);
    let mut found: Vec<ChannelDirectoryEntry> = Vec::new();
    let mut i: usize = 0;
    while i < file.channels.len()
        invariant
            i <= file.channels.len(),
            tv == terms@.map_values(|w: String| w@),
            lookup_entries(file.channels@.take(i as int), k@, tv, found@),
            forall|x: int|
                0 <= x < file.channels@.len() ==> opt_maskable(
                    opt_view((#[trigger] file.channels@[x]).endpoint),
                ),
        decreases file.channels.len() - i,
    {
        let c = &file.channels[i];
        proof {
            assert(file.channels@.take(i + 1).drop_last() =~= file.channels@.take(i as int));
            assert(file.channels@.take(i + 1).last() == file.channels@[i as int]);
        }
        if str_eq(c.kind.as_str(), k.as_str()) {
            let name_l = to_lowercase(c.name.as_str());
            let ep_l = opt_lower(&c.endpoint);
            let tg_l = opt_lower(&c.target);
            let head = cat5(c.id.as_str(), " ", name_l.as_str(), " ", ep_l.as_str());
            let hay = cat3(head.as_str(), " ", tg_l.as_str());
            assert(hay@ =~= haystack(*c));
            let mut t: usize = 0;
            let mut all = true;
            while t < terms.len()
                invariant
                    t <= terms.len(),
                    tv == terms@.map_values(|w: String| w@),
                    all ==> forall|x: int| 0 <= x < t ==> contains_sub(hay@, #[trigger] tv[x]),
                    !all ==> exists|x: int| 0 <= x < terms@.len() && !contains_sub(hay@, #[trigger] tv[x]),
                decreases terms.len() - t,
            {
                assert(tv[t as int] == terms@[t as int]@);
                if !str_contains(hay.as_str(), terms[t].as_str()) {
                    all = false;
                }
                t += 1;
            }
            if all {
                let ghost before = found@;
                found.push(
                    ChannelDirectoryEntry {
                        id: c.id.clone(),
                        name: c.name.clone(),
                        kind: c.kind.clone(),
                        endpoint_masked: mask_optional_endpoint(&c.endpoint),
                        last_send_at: c.last_send_at,
                        last_error: clone_opt_string(&c.last_error),
                    },
                );
                assert(found@.drop_last() =~= before);
            }
        }
        i += 1;
    }
    proof {
        assert(file.channels@.take(file.channels.len() as int) =~= file.channels@);
    }
    Ok(sort_stable(found))
}

} // verus!
