//! Channel kinds: their names, aliases, endpoint rules and capabilities.
use vstd::prelude::*;
use crate::error::MosaicError;
use crate::text::{cat, cat3, opt_view, owned, starts_with, str_eq, str_starts_with, to_lowercase, trim, trim_str, lowercase};
use crate::weburl::{parse_url, parsed_url};

verus! {

pub open spec fn slack_kind() -> Seq<char> {
    "slack_webhook"@
}

pub open spec fn discord_kind() -> Seq<char> {
    "discord_webhook"@
}

pub open spec fn webhook_kind() -> Seq<char> {
    "webhook"@
}

/// Kinds that deliver in-process, with no endpoint.
pub open spec fn is_local_kind(k: Seq<char>) -> bool {
    k == "mock"@ || k == "local"@ || k == "stdout"@
}

/// The prefix of simulated HTTP endpoints.
pub open spec fn mock_prefix() -> Seq<char> {
    "mock-http://"@
}

/// The canonical kind named by `raw`, after trimming and lower-casing it,
/// or `None` when `raw` names no supported kind.
pub open spec fn kind_of(raw: Seq<char>) -> Option<Seq<char>> {
    let n = lowercase(trim(raw));
    if n == "slack"@ || n == "slack-webhook"@ || n == slack_kind() {
        Some(slack_kind())
    } else if n == "discord"@ || n == "discord-webhook"@ || n == discord_kind() {
        Some(discord_kind())
    } else if n == webhook_kind() {
        Some(webhook_kind())
    } else if is_local_kind(n) {
        Some(n)
    } else {
        None
    }
}

/// The kind whose endpoint rule applies: the Slack and Discord aliases
/// stand for their webhook kinds; any other name stands for itself.
pub open spec fn endpoint_kind(kind: Seq<char>) -> Seq<char> {
    if kind == "slack"@ || kind == "slack-webhook"@ {
        slack_kind()
    } else if kind == "discord"@ || kind == "discord-webhook"@ {
        discord_kind()
    } else {
        kind
    }
}

/// The message for a kind that is not supported.
pub open spec fn unsupported_kind_message(normalized: Seq<char>) -> Seq<char> {
    "unsupported channel kind '"@ + normalized
        + "', expected slack_webhook|discord_webhook|webhook|mock|local|stdout"@
}

/// Resolves a kind name or alias to its canonical kind.
pub fn normalize_kind(kind: &str) -> (out: Result<String, MosaicError>)
    ensures
        match out {
            Ok(k) => kind_of(kind@) == Some(k@),
            Err(e) => {
                &&& kind_of(kind@) is None
                &&& e matches MosaicError::Validation(m)
                &&& m@ == unsupported_kind_message(lowercase(trim(kind@)))
            },
        },
{
    let trimmed = trim_str(kind);
    let n = to_lowercase(trimmed.as_str());
    let s = n.as_str();
    if str_eq(s, "slack") || str_eq(s, "slack-webhook") || str_eq(s, "slack_webhook") {
        Ok(owned("slack_webhook"))
    } else if str_eq(s, "discord") || str_eq(s, "discord-webhook") || str_eq(s, "discord_webhook") {
        Ok(owned("discord_webhook"))
    } else if str_eq(s, "webhook") {
        Ok(owned("webhook"))
    } else if str_eq(s, "mock") || str_eq(s, "local") || str_eq(s, "stdout") {
        Ok(n)
    } else {
        Err(
            MosaicError::Validation(
                cat3(
                    "unsupported channel kind '",
                    s,
                    "', expected slack_webhook|discord_webhook|webhook|mock|local|stdout",
                ),
            ),
        )
    }
}

/// Hosts that serve Discord webhooks.
pub open spec fn is_discord_host(h: Seq<char>) -> bool {
    h == "discord.com"@ || h == "canary.discord.com"@ || h == "ptb.discord.com"@
}

/// Why `endpoint` does not suit a channel of kind `kind`, or `None` when it
/// does.
pub open spec fn endpoint_problem(raw_kind: Seq<char>, endpoint: Option<Seq<char>>) -> Option<
    Seq<char>,
> {
    let kind = endpoint_kind(raw_kind);
    if kind == slack_kind() {
        match endpoint {
            None => Some("slack_webhook channel requires --endpoint"@),
            Some(e) => if starts_with(e, mock_prefix()) {
                None
            } else {
                match parsed_url(e) {
                    Err(t) => Some("invalid slack webhook endpoint URL: "@ + t),
                    Ok(p) => if p.1 == Some("hooks.slack.com"@) && starts_with(
                        p.2,
                        "/services/"@,
                    ) {
                        None
                    } else {
                        Some(
                            "slack webhook endpoint must match https://hooks.slack.com/services/..."@,
                        )
                    },
                }
            },
        }
    } else if kind == discord_kind() {
        match endpoint {
            None => Some("discord_webhook channel requires --endpoint"@),
            Some(e) => if starts_with(e, mock_prefix()) {
                None
            } else {
                match parsed_url(e) {
                    Err(t) => Some("invalid discord webhook endpoint URL: "@ + t),
                    Ok(p) => if (p.1 matches Some(h) && is_discord_host(h)) && starts_with(
                        p.2,
                        "/api/webhooks/"@,
                    ) {
                        None
                    } else {
                        Some(
                            "discord webhook endpoint must match https://discord.com/api/webhooks/..."@,
                        )
                    },
                }
            },
        }
    } else if kind == webhook_kind() {
        match endpoint {
            None => Some("webhook channel requires --endpoint"@),
            Some(e) => if starts_with(e, mock_prefix()) {
                None
            } else {
                match parsed_url(e) {
                    Err(t) => Some("invalid webhook endpoint URL: "@ + t),
                    Ok(p) => if p.0 == "http"@ || p.0 == "https"@ {
                        None
                    } else {
                        Some(
                            "unsupported webhook endpoint scheme '"@ + p.0
                                + "', expected http/https"@,
                        )
                    },
                }
            },
        }
    } else if is_local_kind(kind) {
        None
    } else {
        Some("unsupported channel kind '"@ + kind + "'"@)
    }
}

pub open spec fn opt_str_view(o: Option<&str>) -> Option<Seq<char>> {
    match o {
        Some(s) => Some(s@),
        None => None,
    }
}

fn is_mock_endpoint(e: &str) -> (b: bool)
    ensures
        b == starts_with(e@, mock_prefix()),
{
    str_starts_with(e, "mock-http://")
}

fn opt_host_is(host: &Option<String>, expected: &str) -> (b: bool)
    ensures
        b == (opt_view(*host) == Some(expected@)),
{
    match host {
        Some(h) => str_eq(h.as_str(), expected),
        None => false,
    }
}

/// Checks that `endpoint` suits a channel of kind `kind` (a canonical kind).
pub fn validate_endpoint_for_kind(kind: &str, endpoint: Option<&str>) -> (out: Result<
    (),
    MosaicError,
>)
    ensures
        match out {
            Ok(_) => endpoint_problem(kind@, opt_str_view(endpoint)) is None,
            Err(e) => {
                &&& endpoint_problem(kind@, opt_str_view(endpoint)) matches Some(msg)
                &&& e matches MosaicError::Validation(m)
                &&& m@ == msg
            },
        },
{
    let raw_kind = kind;
    let kind: &str = if str_eq(kind, "slack") || str_eq(kind, "slack-webhook") {
        "slack_webhook"
    } else if str_eq(kind, "discord") || str_eq(kind, "discord-webhook") {
        "discord_webhook"
    } else {
        kind
    };
    assert(kind@ == endpoint_kind(raw_kind@));
    if str_eq(kind, "slack_webhook") {
        let e = match endpoint {
            None => {
                return Err(
                    MosaicError::Validation(owned("slack_webhook channel requires --endpoint")),
                )
            },
            Some(e) => e,
        };
        if is_mock_endpoint(e) {
            return Ok(());
        }
        match parse_url(e) {
            Err(t) => Err(
                MosaicError::Validation(cat("invalid slack webhook endpoint URL: ", t.as_str())),
            ),
            Ok(p) => {
                let host_ok = opt_host_is(&p.host, "hooks.slack.com");
                let path_ok = str_starts_with(p.path.as_str(), "/services/");
                if host_ok && path_ok {
                    Ok(())
                } else {
                    Err(
                        MosaicError::Validation(
                            owned(
                                "slack webhook endpoint must match https://hooks.slack.com/services/...",
                            ),
                        ),
                    )
                }
            },
        }
    } else if str_eq(kind, "discord_webhook") {
        let e = match endpoint {
            None => {
                return Err(
                    MosaicError::Validation(owned("discord_webhook channel requires --endpoint")),
                )
            },
            Some(e) => e,
        };
        if is_mock_endpoint(e) {
            return Ok(());
        }
        match parse_url(e) {
            Err(t) => Err(
                MosaicError::Validation(cat("invalid discord webhook endpoint URL: ", t.as_str())),
            ),
            Ok(p) => {
                let host_ok = opt_host_is(&p.host, "discord.com") || opt_host_is(
                    &p.host,
                    "canary.discord.com",
                ) || opt_host_is(&p.host, "ptb.discord.com");
                let path_ok = str_starts_with(p.path.as_str(), "/api/webhooks/");
                if host_ok && path_ok {
                    Ok(())
                } else {
                    Err(
                        MosaicError::Validation(
                            owned(
                                "discord webhook endpoint must match https://discord.com/api/webhooks/...",
                            ),
                        ),
                    )
                }
            },
        }
    } else if str_eq(kind, "webhook") {
        let e = match endpoint {
            None => {
                return Err(MosaicError::Validation(owned("webhook channel requires --endpoint")))
            },
            Some(e) => e,
        };
        if is_mock_endpoint(e) {
            return Ok(());
        }
        match parse_url(e) {
            Err(t) => Err(MosaicError::Validation(cat("invalid webhook endpoint URL: ", t.as_str()))),
            Ok(p) => {
                if str_eq(p.scheme.as_str(), "http") || str_eq(p.scheme.as_str(), "https") {
                    Ok(())
                } else {
                    Err(
                        MosaicError::Validation(
                            cat3(
                                "unsupported webhook endpoint scheme '",
                                p.scheme.as_str(),
                                "', expected http/https",
                            ),
                        ),
                    )
                }
            },
        }
    } else if str_eq(kind, "mock") || str_eq(kind, "local") || str_eq(kind, "stdout") {
        Ok(())
    } else {
        Err(MosaicError::Validation(cat3("unsupported channel kind '", kind, "'")))
    }
}

} // verus!
