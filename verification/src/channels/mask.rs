//! Masking of endpoints and targets for display.
use vstd::prelude::*;
use crate::channels::kinds::mock_prefix;
use crate::text::{cat, cat5, opt_view, owned, starts_with, str_starts_with, chars_of, string_of};
use crate::weburl::{parse_url, parsed_url};

verus! {

/// The number of bytes that `c` takes in UTF-8.
pub open spec fn utf8_width(c: char) -> nat {
    let u = c as u32;
    if u < 0x80 {
        1
    } else if u < 0x800 {
        2
    } else if u < 0x10000 {
        3
    } else {
        4
    }
}

/// The number of bytes that `s` takes in UTF-8 (`str::len`).
pub open spec fn utf8_len(s: Seq<char>) -> nat
    decreases s.len(),
{
    if s.len() == 0 {
        0
    } else {
        utf8_len(s.drop_last()) + utf8_width(s.last())
    }
}

/// The suffix of `s` that takes exactly `n` bytes in UTF-8, or `None` when
/// byte `utf8_len(s) - n` is not a character boundary (where slicing
/// `&s[len - n..]` panics).
pub open spec fn byte_suffix(s: Seq<char>, n: nat) -> Option<Seq<char>>
    decreases s.len(),
{
    if n == 0 {
        Some(Seq::<char>::empty())
    } else if s.len() == 0 {
        None
    } else if utf8_width(s.last()) > n {
        None
    } else {
        match byte_suffix(s.drop_last(), (n - utf8_width(s.last())) as nat) {
            Some(t) => Some(t.push(s.last())),
            None => None,
        }
    }
}

/// The last four characters of an ASCII path, or the whole path when shorter.
pub open spec fn path_tail(path: Seq<char>) -> Seq<char> {
    if path.len() > 4 {
        path.skip(path.len() - 4)
    } else {
        path
    }
}

/// Whether masking `e` completes: a simulated endpoint, a parsable URL, a
/// short text, or a text whose last four bytes are whole characters.
pub open spec fn endpoint_maskable(e: Seq<char>) -> bool {
    ||| starts_with(e, mock_prefix())
    ||| parsed_url(e) is Ok
    ||| utf8_len(e) <= 8
    ||| byte_suffix(e, 4) is Some
}

/// The masked form of an endpoint: the scheme, host and the last four
/// characters of the path of a URL; otherwise its last four bytes.
pub open spec fn masked(e: Seq<char>) -> Seq<char> {
    if starts_with(e, mock_prefix()) {
        "mock-http://***"@
    } else {
        match parsed_url(e) {
            Ok(p) => p.0 + "://"@ + (match p.1 {
                Some(h) => h,
                None => "-"@,
            }) + "/***"@ + path_tail(p.2),
            Err(_) => if utf8_len(e) <= 8 {
                "***"@
            } else {
                "***"@ + byte_suffix(e, 4)->0
            },
        }
    }
}

pub fn utf8_width_exec(c: char) -> (w: u64)
    ensures
        w as nat == utf8_width(c),
{
    let u = c as u32;
    if u < 0x80 {
        1
    } else if u < 0x800 {
        2
    } else if u < 0x10000 {
        3
    } else {
        4
    }
}

proof fn lemma_utf8_len_take(s: Seq<char>, i: int)
    requires
        0 <= i < s.len(),
    ensures
        utf8_len(s.take(i + 1)) == utf8_len(s.take(i)) + utf8_width(s[i]),
{
    assert(s.take(i + 1).drop_last() =~= s.take(i));
}

/// Whether `utf8_len(v) <= limit`.
fn utf8_len_at_most(v: &Vec<char>, limit: u64) -> (b: bool)
    requires
        limit < u64::MAX - 4,
    ensures
        b == (utf8_len(v@) <= limit),
{
    let mut acc: u64 = 0;
    let mut i: usize = 0;
    while i < v.len()
        invariant
            i <= v.len(),
            limit < u64::MAX - 4,
            acc <= limit ==> acc as nat == utf8_len(v@.take(i as int)),
            acc > limit ==> utf8_len(v@.take(i as int)) > limit,
            acc <= limit + 4,
        decreases v.len() - i,
    {
        proof {
            lemma_utf8_len_take(v@, i as int);
        }
        if acc <= limit {
            acc = acc + utf8_width_exec(v[i]);
        }
        i += 1;
    }
    assert(v@.take(v.len() as int) =~= v@);
    acc <= limit
}

/// The suffix of `v` that takes exactly four bytes, when there is one.
fn byte_suffix4(v: &Vec<char>) -> (out: Option<Vec<char>>)
    ensures
        match out {
            Some(t) => byte_suffix(v@, 4) == Some(t@),
            None => byte_suffix(v@, 4) is None,
        },
{
    let mut need: u64 = 4;
    let mut k: usize = v.len();
    proof {
        assert(v@.take(k as int) =~= v@);
        match byte_suffix(v@, 4) {
            Some(t) => {
                assert(t + v@.skip(k as int) =~= t);
            },
            None => {},
        }
    }
    while need > 0 && k > 0
        invariant
            k <= v.len(),
            need <= 4,
            byte_suffix(v@, 4) == match byte_suffix(v@.take(k as int), need as nat) {
                Some(t) => Some(t + v@.skip(k as int)),
                None => None,
            },
        decreases k,
    {
        let w = utf8_width_exec(v[k - 1]);
        let ghost pre = v@.take(k as int);
        proof {
            assert(pre.drop_last() =~= v@.take(k - 1));
            assert(pre.last() == v@[k - 1]);
        }
        if w > need {
            return None;
        }
        proof {
            match byte_suffix(v@.take(k - 1), (need - w) as nat) {
                Some(t) => {
                    assert(t.push(v@[k - 1]) + v@.skip(k as int) =~= t + v@.skip(k - 1));
                },
                None => {},
            }
        }
        need = need - w;
        k = k - 1;
    }
    if need > 0 {
        assert(v@.take(0) =~= Seq::<char>::empty());
        return None;
    }
    let mut out: Vec<char> = Vec::new();
    let mut j: usize = k;
    while j < v.len()
        invariant
            k <= j <= v.len(),
            out@ == v@.subrange(k as int, j as int),
        decreases v.len() - j,
    {
        out.push(v[j]);
        j += 1;
    }
    assert(out@ =~= Seq::<char>::empty() + v@.skip(k as int));
    Some(out)
}

fn path_tail_exec(path: &str) -> (out: String)
    ensures
        out@ == path_tail(path@),
{
    let v = chars_of(path);
    if v.len() > 4 {
        let mut t: Vec<char> = Vec::new();
        let mut j: usize = v.len() - 4;
        while j < v.len()
            invariant
                v.len() > 4,
                v.len() - 4 <= j <= v.len(),
                t@ == v@.subrange(v.len() - 4, j as int),
            decreases v.len() - j,
        {
            t.push(v[j]);
            j += 1;
        }
        assert(t@ =~= v@.skip(v.len() - 4));
        string_of(t.as_slice())
    } else {
        owned(path)
    }
}

/// Whether `mask_endpoint` completes on `endpoint`.
pub fn endpoint_is_maskable(endpoint: &str) -> (b: bool)
    ensures
        b == endpoint_maskable(endpoint@),
{
    if str_starts_with(endpoint, "mock-http://") {
        return true;
    }
    if parse_url(endpoint).is_ok() {
        return true;
    }
    let v = chars_of(endpoint);
    utf8_len_at_most(&v, 8) || byte_suffix4(&v).is_some()
}

/// Masks an endpoint for display.
pub fn mask_endpoint(endpoint: &str) -> (out: String)
    requires
        endpoint_maskable(endpoint@),
    ensures
        out@ == masked(endpoint@),
{
    if str_starts_with(endpoint, "mock-http://") {
        return owned("mock-http://***");
    }
    match parse_url(endpoint) {
        Ok(p) => {
            let host = match &p.host {
                Some(h) => h.clone(),
                None => owned("-"),
            };
            let tail = path_tail_exec(p.path.as_str());
            cat5(p.scheme.as_str(), "://", host.as_str(), "/***", tail.as_str())
        },
        Err(_) => {
            let v = chars_of(endpoint);
            if utf8_len_at_most(&v, 8) {
                owned("***")
            } else {
                match byte_suffix4(&v) {
                    Some(t) => {
                        let ts = string_of(t.as_slice());
                        cat("***", ts.as_str())
                    },
                    None => {
                        assert(false);
                        owned("***")
                    },
                }
            }
        },
    }
}

/// Masks an endpoint when it completes, else `None`.
pub fn try_mask_endpoint(endpoint: &str) -> (out: Option<String>)
    ensures
        match out {
            Some(m) => endpoint_maskable(endpoint@) && m@ == masked(endpoint@),
            None => !endpoint_maskable(endpoint@),
        },
{
    if endpoint_is_maskable(endpoint) {
        Some(mask_endpoint(endpoint))
    } else {
        None
    }
}

pub open spec fn opt_maskable(e: Option<Seq<char>>) -> bool {
    e matches Some(s) ==> endpoint_maskable(s)
}

pub open spec fn opt_masked(e: Option<Seq<char>>) -> Option<Seq<char>> {
    match e {
        Some(s) => Some(masked(s)),
        None => None,
    }
}

/// Masks an optional endpoint.
pub fn mask_optional_endpoint(endpoint: &Option<String>) -> (out: Option<String>)
    requires
        opt_maskable(opt_view(*endpoint)),
    ensures
        opt_view(out) == opt_masked(opt_view(*endpoint)),
{
    match endpoint {
        Some(e) => Some(mask_endpoint(e.as_str())),
        None => None,
    }
}

} // verus!
