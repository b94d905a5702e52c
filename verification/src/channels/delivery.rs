//! Delivery attempts: the simulated `mock-http://` endpoints and the retry
//! decisions for real HTTP deliveries.
use vstd::prelude::*;
use crate::channels::kinds::mock_prefix;
use crate::channels::mask::{endpoint_maskable, mask_endpoint, masked};
use crate::error::MosaicError;
use crate::text::{
    cat, cat3, chars_of, decimal, is_blank, is_blank_str, opt_view, owned, parse_unsigned,
    parse_unsigned_exec, starts_with, str_eq, string_of, to_lowercase, trim, trim_str,
    u64_to_string, lowercase,
};

verus! {

/// The outcome of delivering one message.
#[derive(Debug)]
pub struct DeliveryAttemptResult {
    pub ok: bool,
    pub attempts: usize,
    pub http_status: Option<u16>,
    pub error: Option<String>,
    pub endpoint_masked: Option<String>,
}

/// The outcome of an in-process delivery: one successful attempt.
pub fn local_delivery_success() -> (r: DeliveryAttemptResult)
    ensures
        r.ok,
        r.attempts == 1,
        r.http_status == Some(200u16),
        r.error is None,
        r.endpoint_masked is None,
{
    DeliveryAttemptResult {
        ok: true,
        attempts: 1,
        http_status: Some(200),
        error: None,
        endpoint_masked: None,
    }
}

/// `s` with every leading copy of `p` removed (`str::trim_start_matches`).
pub open spec fn strip_prefixes(s: Seq<char>, p: Seq<char>) -> Seq<char>
    decreases s.len(),
{
    if p.len() > 0 && starts_with(s, p) {
        strip_prefixes(s.skip(p.len() as int), p)
    } else {
        s
    }
}

/// The pieces of `s` between commas (`str::split(',')`).
pub open spec fn split_commas(s: Seq<char>) -> Seq<Seq<char>>
    decreases s.len(),
{
    if s.len() == 0 {
        seq![Seq::<char>::empty()]
    } else {
        let prev = split_commas(s.drop_last());
        if s.last() == ',' {
            prev.push(Seq::<char>::empty())
        } else {
            prev.update(prev.len() - 1, prev.last().push(s.last()))
        }
    }
}

pub proof fn lemma_split_commas_nonempty(s: Seq<char>)
    ensures
        split_commas(s).len() >= 1,
    decreases s.len(),
{
    if s.len() > 0 {
        lemma_split_commas_nonempty(s.drop_last());
    }
}

/// The response steps that a `mock-http://` endpoint lists.
pub open spec fn mock_steps(sequence: Seq<char>) -> Seq<Seq<char>> {
    split_commas(sequence).map_values(|p: Seq<char>| lowercase(trim(p)))
}

pub open spec fn client_error_message(status: nat) -> Seq<char> {
    "webhook returned client error status "@ + decimal(status)
}

pub open spec fn server_error_message(status: nat) -> Seq<char> {
    "webhook returned server error status "@ + decimal(status)
}

pub open spec fn timeout_message() -> Seq<char> {
    "webhook request timed out"@
}

/// How a run over the simulated response steps ends.
pub enum MockEnd {
    Delivered { attempts: nat, status: u16 },
    Rejected { attempts: nat, status: u16 },
    BadStep { step: Seq<char> },
    Exhausted { attempts: nat, last_status: Option<u16>, last_error: Option<Seq<char>> },
}

/// The run over `steps` from step `i`, with the status and error seen so far.
pub open spec fn mock_from(
    steps: Seq<Seq<char>>,
    i: nat,
    last_status: Option<u16>,
    last_error: Option<Seq<char>>,
) -> MockEnd
    decreases steps.len() - i,
{
    if i >= steps.len() {
        MockEnd::Exhausted { attempts: i, last_status, last_error }
    } else if steps[i as int] == "timeout"@ {
        mock_from(steps, i + 1, last_status, Some(timeout_message()))
    } else {
        match parse_unsigned(steps[i as int], 65535) {
            None => MockEnd::BadStep { step: steps[i as int] },
            Some(v) => if 200 <= v && v < 300 {
                MockEnd::Delivered { attempts: i + 1, status: v as u16 }
            } else if 400 <= v && v < 500 {
                MockEnd::Rejected { attempts: i + 1, status: v as u16 }
            } else {
                mock_from(steps, i + 1, Some(v as u16), Some(server_error_message(v)))
            },
        }
    }
}

/// The message for a step that is neither `timeout` nor a status code.
pub open spec fn bad_step_message(step: Seq<char>, endpoint: Seq<char>) -> Seq<char> {
    "invalid mock-http response step '"@ + step + "' in endpoint "@ + endpoint
}

/// What simulating `endpoint` yields, as a predicate on the result.
pub open spec fn mock_result_matches(
    endpoint: Seq<char>,
    out: Result<DeliveryAttemptResult, MosaicError>,
) -> bool {
    let sequence = strip_prefixes(endpoint, mock_prefix());
    if is_blank(sequence) {
        out matches Ok(r) && r.ok && r.attempts == 1 && r.http_status == Some(200u16)
            && r.error is None && opt_view(r.endpoint_masked) == Some(masked(endpoint))
    } else {
        match mock_from(mock_steps(sequence), 0, None, None) {
            MockEnd::Delivered { attempts, status } => out matches Ok(r) && r.ok && r.attempts
                == attempts && r.http_status == Some(status) && r.error is None && opt_view(
                r.endpoint_masked,
            ) == Some(masked(endpoint)),
            MockEnd::Rejected { attempts, status } => out matches Ok(r) && !r.ok && r.attempts
                == attempts && r.http_status == Some(status) && opt_view(r.error) == Some(
                client_error_message(status as nat),
            ) && opt_view(r.endpoint_masked) == Some(masked(endpoint)),
            MockEnd::BadStep { step } => out matches Err(MosaicError::Validation(m)) && m@
                == bad_step_message(step, endpoint),
            MockEnd::Exhausted { attempts, last_status, last_error } => out matches Ok(r) && !r.ok
                && r.attempts == attempts && r.http_status == last_status && opt_view(r.error)
                == Some(
                match last_error {
                    Some(e) => e,
                    None => "mock-http failed"@,
                },
            ) && opt_view(r.endpoint_masked) == Some(masked(endpoint)),
        }
    }
}

fn strip_mock_prefixes(v: &Vec<char>) -> (out: Vec<char>)
    ensures
        out@ == strip_prefixes(v@, mock_prefix()),
{
    let p = chars_of("mock-http://");
    proof {
        reveal_strlit("mock-http://");
        assert(v@.skip(0) =~= v@);
    }
    let mut k: usize = 0;
    while crate::text::starts_with_chars(&skip_vec(v, k), &p)
        invariant
            k <= v.len(),
            p@ == mock_prefix(),
            p@.len() > 0,
            strip_prefixes(v@, mock_prefix()) == strip_prefixes(v@.skip(k as int), mock_prefix()),
        decreases v.len() - k,
    {
        proof {
            assert(v@.skip(k as int).skip(p.len() as int) =~= v@.skip(k + p.len()));
        }
        k = k + p.len();
    }
    skip_vec(v, k)
}

fn skip_vec(v: &Vec<char>, k: usize) -> (out: Vec<char>)
    requires
        k <= v.len(),
    ensures
        out@ == v@.skip(k as int),
{
    let mut out: Vec<char> = Vec::new();
    let mut j: usize = k;
    while j < v.len()
        invariant
            k <= j <= v.len(),
            out@ == v@.subrange(k as int, j as int),
        decreases v.len() - j,
    {
        out.push(v[j]);
        j += 1;
    }
    out
}

/// Splits characters at commas, as `str::split(',')` does.
pub fn split_commas_exec(v: &Vec<char>) -> (out: Vec<Vec<char>>)
    ensures
        out@.map_values(|p: Vec<char>| p@) == split_commas(v@),
{
    let mut out: Vec<Vec<char>> = Vec::new();
    let mut cur: Vec<char> = Vec::new();
    let mut i: usize = 0;
    while i < v.len()
        invariant
            i <= v.len(),
            out@.map_values(|p: Vec<char>| p@).push(cur@) == split_commas(v@.take(i as int)),
        decreases v.len() - i,
    {
        let ghost before = out@.map_values(|p: Vec<char>| p@).push(cur@);
        proof {
            assert(v@.take(i + 1).drop_last() =~= v@.take(i as int));
            assert(v@.take(i + 1).last() == v@[i as int]);
        }
        if v[i] == ',' {
            let done = cur;
            out.push(done);
            cur = Vec::new();
            assert(out@.map_values(|p: Vec<char>| p@).push(cur@) =~= before.push(
                Seq::<char>::empty(),
            ));
        } else {
            cur.push(v[i]);
            assert(out@.map_values(|p: Vec<char>| p@).push(cur@) =~= before.update(
                before.len() - 1,
                before.last().push(v@[i as int]),
            ));
        }
        i += 1;
    }
    proof {
        assert(v@.take(v.len() as int) =~= v@);
    }
    let ghost fin = out@.map_values(|p: Vec<char>| p@).push(cur@);
    out.push(cur);
    assert(out@.map_values(|p: Vec<char>| p@) =~= fin);
    out
}

/// Simulates delivery to a `mock-http://` endpoint whose text lists the
/// responses of successive attempts (`200`, `500`, `timeout`, ...).
/// Waiting between attempts is left to the caller.
pub fn simulate_mock_http(endpoint: &str) -> (out: Result<DeliveryAttemptResult, MosaicError>)
    requires
        starts_with(endpoint@, mock_prefix()),
    ensures
        mock_result_matches(endpoint@, out),
{
    assert(endpoint_maskable(endpoint@));
    let ev = chars_of(endpoint);
    let seqv = strip_mock_prefixes(&ev);
    let sequence = string_of(seqv.as_slice());
    if is_blank_str(sequence.as_str()) {
        return Ok(
            DeliveryAttemptResult {
                ok: true,
                attempts: 1,
                http_status: Some(200),
                error: None,
                endpoint_masked: Some(mask_endpoint(endpoint)),
            },
        );
    }
    let pieces = split_commas_exec(&seqv);
    let ghost steps = mock_steps(sequence@);
    let mut attempts: usize = 0;
    let mut last_status: Option<u16> = None;
    let mut last_error: Option<String> = None;
    let mut i: usize = 0;
    while i < pieces.len()
        invariant
            pieces@.map_values(|p: Vec<char>| p@) == split_commas(sequence@),
            steps == mock_steps(sequence@),
            steps.len() == pieces@.len(),
            attempts == i,
            i <= pieces.len(),
            endpoint_maskable(endpoint@),
            !is_blank(sequence@),
            sequence@ == strip_prefixes(endpoint@, mock_prefix()),
            mock_from(steps, 0, None, None) == mock_from(steps, i as nat, last_status, opt_view(last_error)),
        decreases pieces.len() - i,
    {
        let piece = string_of(pieces[i].as_slice());
        let trimmed = trim_str(piece.as_str());
        let step = to_lowercase(trimmed.as_str());
        proof {
            assert(pieces@.map_values(|p: Vec<char>| p@)[i as int] == pieces@[i as int]@);
            assert(step@ == steps[i as int]);
        }
        attempts += 1;
        if str_eq(step.as_str(), "timeout") {
            last_error = Some(owned("webhook request timed out"));
            i += 1;
            continue;
        }
        let status = match parse_unsigned_exec(step.as_str(), 65535) {
            Some(v) => v as u16,
            None => {
                let tail = cat("' in endpoint ", endpoint);
                let msg = cat3("invalid mock-http response step '", step.as_str(), tail.as_str());
                assert(msg@ =~= bad_step_message(step@, endpoint@));
                return Err(MosaicError::Validation(msg));
            },
        };
        last_status = Some(status);
        if 200 <= status && status < 300 {
            return Ok(
                DeliveryAttemptResult {
                    ok: true,
                    attempts,
                    http_status: Some(status),
                    error: None,
                    endpoint_masked: Some(mask_endpoint(endpoint)),
                },
            );
        }
        let code = u64_to_string(status as u64);
        if 400 <= status && status < 500 {
            return Ok(
                DeliveryAttemptResult {
                    ok: false,
                    attempts,
                    http_status: Some(status),
                    error: Some(cat("webhook returned client error status ", code.as_str())),
                    endpoint_masked: Some(mask_endpoint(endpoint)),
                },
            );
        }
        last_error = Some(cat("webhook returned server error status ", code.as_str()));
        i += 1;
    }
    let error = match last_error {
        Some(e) => e,
        None => owned("mock-http failed"),
    };
    Ok(
        DeliveryAttemptResult {
            ok: false,
            attempts,
            http_status: last_status,
            error: Some(error),
            endpoint_masked: Some(mask_endpoint(endpoint)),
        },
    )
}

/// What one HTTP delivery attempt produced: a response status, or a
/// transport failure (timed out, or failed with the given detail).
pub enum HttpAttemptOutcome {
    Status(u16),
    Failed { timed_out: bool, detail: String },
}

/// What the attempts so far have seen.
pub struct RetryProgress {
    pub attempts: usize,
    pub last_status: Option<u16>,
    pub last_error: Option<String>,
}

/// Whether to stop with a result or to make another attempt.
pub enum RetryDecision {
    Done(DeliveryAttemptResult),
    Continue(RetryProgress),
}

/// The progress before the first attempt.
pub fn start_retry() -> (p: RetryProgress)
    ensures
        p.attempts == 0,
        p.last_status is None,
        p.last_error is None,
{
    RetryProgress { attempts: 0, last_status: None, last_error: None }
}

pub open spec fn transport_error_message(timed_out: bool, detail: Seq<char>) -> Seq<char> {
    if timed_out {
        timeout_message()
    } else {
        "webhook request failed: "@ + detail
    }
}

pub open spec fn final_error_message(last_error: Option<Seq<char>>) -> Seq<char> {
    match last_error {
        Some(e) => e,
        None => "webhook request failed after retries"@,
    }
}

/// The failed result after the last attempt.
pub fn finish_retry(progress: RetryProgress, endpoint_masked: String) -> (r: DeliveryAttemptResult)
    ensures
        !r.ok,
        r.attempts == progress.attempts,
        r.http_status == progress.last_status,
        opt_view(r.error) == Some(final_error_message(opt_view(progress.last_error))),
        opt_view(r.endpoint_masked) == Some(endpoint_masked@),
{
    let error = match progress.last_error {
        Some(e) => e,
        None => owned("webhook request failed after retries"),
    };
    DeliveryAttemptResult {
        ok: false,
        attempts: progress.attempts,
        http_status: progress.last_status,
        error: Some(error),
        endpoint_masked: Some(endpoint_masked),
    }
}

/// Decides what follows attempt `attempt_index` (counted from zero) of at most
/// `max_attempts`: a 2xx response delivers, a 4xx response fails at once,
/// another response or a transport failure is retried while a 5xx status or
/// the failure allows it and attempts remain.
pub fn after_http_attempt(
    progress: RetryProgress,
    attempt_index: usize,
    max_attempts: usize,
    outcome: HttpAttemptOutcome,
    endpoint_masked: String,
) -> (d: RetryDecision)
    requires
        progress.attempts == attempt_index,
        attempt_index < max_attempts,
    ensures
        match outcome {
            HttpAttemptOutcome::Status(status) => if 200 <= status && status < 300 {
                d matches RetryDecision::Done(r) && r.ok && r.attempts == attempt_index + 1
                    && r.http_status == Some(status) && r.error is None && opt_view(
                    r.endpoint_masked,
                ) == Some(endpoint_masked@)
            } else if 400 <= status && status < 500 {
                d matches RetryDecision::Done(r) && !r.ok && r.attempts == attempt_index + 1
                    && r.http_status == Some(status) && opt_view(r.error) == Some(
                    client_error_message(status as nat),
                ) && opt_view(r.endpoint_masked) == Some(endpoint_masked@)
            } else if 500 <= status && status < 600 && attempt_index + 1 < max_attempts {
                d matches RetryDecision::Continue(p) && p.attempts == attempt_index + 1
                    && p.last_status == Some(status) && opt_view(p.last_error) == Some(
                    server_error_message(status as nat),
                )
            } else {
                d matches RetryDecision::Done(r) && !r.ok && r.attempts == attempt_index + 1
                    && r.http_status == Some(status) && opt_view(r.error) == Some(
                    server_error_message(status as nat),
                ) && opt_view(r.endpoint_masked) == Some(endpoint_masked@)
            },
            HttpAttemptOutcome::Failed { timed_out, detail } => if attempt_index + 1
                < max_attempts {
                d matches RetryDecision::Continue(p) && p.attempts == attempt_index + 1
                    && p.last_status == progress.last_status && opt_view(p.last_error) == Some(
                    transport_error_message(timed_out, detail@),
                )
            } else {
                d matches RetryDecision::Done(r) && !r.ok && r.attempts == attempt_index + 1
                    && r.http_status == progress.last_status && opt_view(r.error) == Some(
                    transport_error_message(timed_out, detail@),
                ) && opt_view(r.endpoint_masked) == Some(endpoint_masked@)
            },
        },
{
    let attempts = progress.attempts + 1;
    match outcome {
        HttpAttemptOutcome::Status(status) => {
            if 200 <= status && status < 300 {
                return RetryDecision::Done(
                    DeliveryAttemptResult {
                        ok: true,
                        attempts,
                        http_status: Some(status),
                        error: None,
                        endpoint_masked: Some(endpoint_masked),
                    },
                );
            }
            let code = u64_to_string(status as u64);
            if 400 <= status && status < 500 {
                return RetryDecision::Done(
                    DeliveryAttemptResult {
                        ok: false,
                        attempts,
                        http_status: Some(status),
                        error: Some(cat("webhook returned client error status ", code.as_str())),
                        endpoint_masked: Some(endpoint_masked),
                    },
                );
            }
            let p = RetryProgress {
                attempts,
                last_status: Some(status),
                last_error: Some(cat("webhook returned server error status ", code.as_str())),
            };
            if !(500 <= status && status < 600) || attempt_index + 1 >= max_attempts {
                RetryDecision::Done(finish_retry(p, endpoint_masked))
            } else {
                RetryDecision::Continue(p)
            }
        },
        HttpAttemptOutcome::Failed { timed_out, detail } => {
            let message = if timed_out {
                owned("webhook request timed out")
            } else {
                cat("webhook request failed: ", detail.as_str())
            };
            let p = RetryProgress {
                attempts,
                last_status: progress.last_status,
                last_error: Some(message),
            };
            if attempt_index + 1 >= max_attempts {
                RetryDecision::Done(finish_retry(p, endpoint_masked))
            } else {
                RetryDecision::Continue(p)
            }
        },
    }
}

} // verus!
