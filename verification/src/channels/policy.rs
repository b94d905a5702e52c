//! Retry timing for HTTP deliveries.
use vstd::prelude::*;
use crate::text::{parse_unsigned, parse_unsigned_exec};

verus! {

/// The default request timeout, in milliseconds.
pub const DEFAULT_HTTP_TIMEOUT_MS: u64 = 15_000;

/// The default pause before each retry, in milliseconds.
pub open spec fn default_backoff() -> Seq<u64> {
    seq![200u64, 500u64, 1000u64]
}

/// How long a request may take and how long to wait before each retry.
#[derive(Debug, Clone)]
pub struct RetryPolicy {
    pub timeout_ms: u64,
    pub backoff_ms: Vec<u64>,
}

fn default_backoff_vec() -> (v: Vec<u64>)
    ensures
        v@ == default_backoff(),
{
    let mut v: Vec<u64> = Vec::new();
    v.push(200);
    v.push(500);
    v.push(1000);
    assert(v@ =~= default_backoff());
    v
}

impl Default for RetryPolicy {
    fn default() -> (p: Self)
        ensures
            p.timeout_ms == DEFAULT_HTTP_TIMEOUT_MS,
            p.backoff_ms@ == default_backoff(),
    {
        RetryPolicy { timeout_ms: DEFAULT_HTTP_TIMEOUT_MS, backoff_ms: default_backoff_vec() }
    }
}

impl RetryPolicy {
    /// The policy for a configured timeout setting: the setting when it is a
    /// valid `u64`, else the default timeout; the backoff is the default one.
    pub fn from_timeout_setting(setting: Option<String>) -> (p: Self)
        ensures
            p.backoff_ms@ == default_backoff(),
            p.timeout_ms == match setting {
                Some(s) => match parse_unsigned(s@, u64::MAX as nat) {
                    Some(v) => v as u64,
                    None => DEFAULT_HTTP_TIMEOUT_MS,
                },
                None => DEFAULT_HTTP_TIMEOUT_MS,
            },
    {
        let timeout_ms = match setting {
            Some(s) => match parse_u64(s.as_str()) {
                Some(v) => v,
                None => DEFAULT_HTTP_TIMEOUT_MS,
            },
            None => DEFAULT_HTTP_TIMEOUT_MS,
        };
        RetryPolicy { timeout_ms, backoff_ms: default_backoff_vec() }
    }

    /// One first attempt plus one retry per backoff step.
    pub fn max_attempts(&self) -> (n: usize)
        requires
            self.backoff_ms@.len() < usize::MAX,
        ensures
            n == self.backoff_ms@.len() + 1,
    {
        self.backoff_ms.len() + 1
    }

    /// The pause before attempt `attempt_index` (counted from zero): none
    /// before the first, then the backoff steps in order, none past them.
    pub fn backoff_before_attempt(&self, attempt_index: usize) -> (d: Option<u64>)
        ensures
            d == (if attempt_index == 0 || attempt_index > self.backoff_ms@.len() {
                None
            } else {
                Some(self.backoff_ms@[attempt_index - 1])
            }),
    {
        if attempt_index == 0 {
            return None;
        }
        if attempt_index - 1 < self.backoff_ms.len() {
            Some(self.backoff_ms[attempt_index - 1])
        } else {
            None
        }
    }
}

/// Parses a `u64` as `u64::from_str` does.
pub fn parse_u64(s: &str) -> (out: Option<u64>)
    ensures
        match out {
            Some(v) => parse_unsigned(s@, u64::MAX as nat) == Some(v as nat),
            None => parse_unsigned(s@, u64::MAX as nat) is None,
        },
{
    parse_unsigned_exec(s, u64::MAX)
}

/// Server errors (5xx) are worth retrying.
pub fn should_retry_http_status(status: u16) -> (b: bool)
    ensures
        b == (500 <= status && status < 600),
{
    500 <= status && status < 600
}

} // verus!
