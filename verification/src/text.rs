//! Character-level text helpers with their mathematical models.
//!
//! Strings are modelled by their view, a `Seq<char>`.  Each executable helper
//! here states its result over that view.
use vstd::prelude::*;

verus! {

// ---------------------------------------------------------------------------
// Models
// ---------------------------------------------------------------------------

/// The Unicode `White_Space` property, which `char::is_whitespace` tests.
pub open spec fn is_ws(c: char) -> bool {
    let u = c as u32;
    ||| (0x09 <= u && u <= 0x0d)
    ||| u == 0x20
    ||| u == 0x85
    ||| u == 0xa0
    ||| u == 0x1680
    ||| (0x2000 <= u && u <= 0x200a)
    ||| u == 0x2028
    ||| u == 0x2029
    ||| u == 0x202f
    ||| u == 0x205f
    ||| u == 0x3000
}

/// `s` without its leading white space.
pub open spec fn trim_start(s: Seq<char>) -> Seq<char>
    decreases s.len(),
{
    if s.len() > 0 && is_ws(s[0]) {
        trim_start(s.drop_first())
    } else {
        s
    }
}

/// `s` without its trailing white space.
pub open spec fn trim_end(s: Seq<char>) -> Seq<char>
    decreases s.len(),
{
    if s.len() > 0 && is_ws(s.last()) {
        trim_end(s.drop_last())
    } else {
        s
    }
}

/// `s` without leading and trailing white space (`str::trim`).
pub open spec fn trim(s: Seq<char>) -> Seq<char> {
    trim_end(trim_start(s))
}

/// Every character of `s` is white space, so that `trim(s)` is empty.
pub open spec fn is_blank(s: Seq<char>) -> bool {
    forall|i: int| 0 <= i < s.len() ==> is_ws(#[trigger] s[i])
}

pub open spec fn is_ascii_upper(c: char) -> bool {
    'A' <= c && c <= 'Z'
}

pub open spec fn is_ascii_lower_letter(c: char) -> bool {
    'a' <= c && c <= 'z'
}

pub open spec fn is_ascii_digit(c: char) -> bool {
    '0' <= c && c <= '9'
}

pub open spec fn is_ascii_alpha(c: char) -> bool {
    is_ascii_upper(c) || is_ascii_lower_letter(c)
}

pub open spec fn is_ascii_alnum(c: char) -> bool {
    is_ascii_alpha(c) || is_ascii_digit(c)
}

pub open spec fn is_ascii_char(c: char) -> bool {
    (c as u32) < 128
}

pub open spec fn all_ascii(s: Seq<char>) -> bool {
    forall|i: int| 0 <= i < s.len() ==> is_ascii_char(#[trigger] s[i])
}

/// `char::to_ascii_lowercase`.
pub open spec fn lower_char(c: char) -> char {
    if is_ascii_upper(c) {
        ((c as u32) + 32) as char
    } else {
        c
    }
}

/// `str::to_ascii_lowercase`.
pub open spec fn ascii_lower(s: Seq<char>) -> Seq<char> {
    Seq::new(s.len(), |i: int| lower_char(s[i]))
}

/// What `str::to_lowercase` returns: the Unicode lower-case mapping of `s`.
pub uninterp spec fn unicode_lower(s: Seq<char>) -> Seq<char>;

/// The lower case of `s` as `str::to_lowercase` gives it: the ASCII mapping
/// on ASCII text (where the two mappings agree), the Unicode mapping
/// otherwise.
pub open spec fn lowercase(s: Seq<char>) -> Seq<char> {
    if all_ascii(s) {
        ascii_lower(s)
    } else {
        unicode_lower(s)
    }
}

pub open spec fn starts_with(s: Seq<char>, prefix: Seq<char>) -> bool {
    prefix.len() <= s.len() && s.take(prefix.len() as int) == prefix
}

pub open spec fn ends_with(s: Seq<char>, suffix: Seq<char>) -> bool {
    suffix.len() <= s.len() && s.skip(s.len() - suffix.len()) == suffix
}

/// `needle` occurs in `hay` at position `i`.
pub open spec fn occurs_at(hay: Seq<char>, needle: Seq<char>, i: int) -> bool {
    0 <= i && i + needle.len() <= hay.len() && hay.subrange(i, i + needle.len()) == needle
}

/// `str::contains` with a string pattern.
pub open spec fn contains_sub(hay: Seq<char>, needle: Seq<char>) -> bool {
    exists|i: int| occurs_at(hay, needle, i)
}

pub open spec fn digit_char(d: nat) -> char
    recommends
        d < 10,
{
    (('0' as u32) + d) as char
}

/// The decimal rendering of `n` (`u64::to_string`).
pub open spec fn decimal(n: nat) -> Seq<char>
    decreases n,
{
    if n < 10 {
        seq![digit_char(n)]
    } else {
        decimal(n / 10).push(digit_char(n % 10))
    }
}

pub open spec fn digit_value(c: char) -> nat {
    ((c as u32) - ('0' as u32)) as nat
}

/// The value of a string of decimal digits.
pub open spec fn digits_value(s: Seq<char>) -> nat
    decreases s.len(),
{
    if s.len() == 0 {
        0
    } else {
        10 * digits_value(s.drop_last()) + digit_value(s.last())
    }
}

pub open spec fn all_digits(s: Seq<char>) -> bool {
    forall|i: int| 0 <= i < s.len() ==> is_ascii_digit(#[trigger] s[i])
}

/// What `<uN as FromStr>::from_str` accepts: an optional `+`, then one or more
/// decimal digits whose value is at most `max`.
pub open spec fn parse_unsigned(s: Seq<char>, max: nat) -> Option<nat> {
    let d = if s.len() > 0 && s[0] == '+' {
        s.drop_first()
    } else {
        s
    };
    if d.len() == 0 || !all_digits(d) || digits_value(d) > max {
        None
    } else {
        Some(digits_value(d))
    }
}

// ---------------------------------------------------------------------------
// Lemmas
// ---------------------------------------------------------------------------

proof fn lemma_trim_start_skip(s: Seq<char>, i: int)
    requires
        0 <= i <= s.len(),
        forall|j: int| 0 <= j < i ==> is_ws(#[trigger] s[j]),
    ensures
        trim_start(s) == trim_start(s.skip(i)),
    decreases i,
{
    if i > 0 {
        assert(s.drop_first().skip(i - 1) =~= s.skip(i));
        lemma_trim_start_skip(s.drop_first(), i - 1);
    } else {
        assert(s.skip(0) =~= s);
    }
}

proof fn lemma_trim_end_take(s: Seq<char>, j: int)
    requires
        0 <= j <= s.len(),
        forall|k: int| j <= k < s.len() ==> is_ws(#[trigger] s[k]),
    ensures
        trim_end(s) == trim_end(s.take(j)),
    decreases s.len() - j,
{
    if j < s.len() {
        assert(s.drop_last().take(j) =~= s.take(j));
        lemma_trim_end_take(s.drop_last(), j);
    } else {
        assert(s.take(j) =~= s);
    }
}

pub proof fn lemma_blank_trim(s: Seq<char>)
    ensures
        is_blank(s) <==> trim(s).len() == 0,
    decreases s.len(),
{
    if s.len() > 0 && is_ws(s[0]) {
        lemma_blank_trim(s.drop_first());
        assert(is_blank(s) <==> is_blank(s.drop_first())) by {
            if is_blank(s.drop_first()) {
                assert forall|i: int| 0 <= i < s.len() implies is_ws(#[trigger] s[i]) by {
                    if i > 0 {
                        assert(s[i] == s.drop_first()[i - 1]);
                    }
                }
            }
        }
    } else if s.len() > 0 {
        lemma_trim_end_nonempty(s);
    }
}

proof fn lemma_trim_end_nonempty(s: Seq<char>)
    requires
        s.len() > 0,
        !is_ws(s[0]),
    ensures
        trim_end(s).len() > 0,
        trim_end(s)[0] == s[0],
    decreases s.len(),
{
    if is_ws(s.last()) {
        lemma_trim_end_nonempty(s.drop_last());
    }
}

proof fn lemma_trim_end_shape(s: Seq<char>)
    ensures
        trim_end(s).len() <= s.len(),
        trim_end(s) == s.take(trim_end(s).len() as int),
    decreases s.len(),
{
    if s.len() > 0 && is_ws(s.last()) {
        lemma_trim_end_shape(s.drop_last());
        assert(s.drop_last().take(trim_end(s).len() as int) =~= s.take(trim_end(s).len() as int));
    } else {
        assert(s.take(s.len() as int) =~= s);
    }
}

proof fn lemma_trim_start_first(s: Seq<char>)
    ensures
        trim_start(s).len() > 0 ==> !is_ws(trim_start(s)[0]),
    decreases s.len(),
{
    if s.len() > 0 && is_ws(s[0]) {
        lemma_trim_start_first(s.drop_first());
    }
}

proof fn lemma_trim_end_last(s: Seq<char>)
    ensures
        trim_end(s).len() > 0 ==> !is_ws(trim_end(s).last()),
    decreases s.len(),
{
    if s.len() > 0 && is_ws(s.last()) {
        lemma_trim_end_last(s.drop_last());
    }
}

/// Trimming twice is trimming once.
pub proof fn lemma_trim_idempotent(s: Seq<char>)
    ensures
        trim(trim(s)) == trim(s),
{
    let t = trim(s);
    lemma_trim_start_first(s);
    lemma_trim_end_last(trim_start(s));
    if t.len() > 0 {
        lemma_trim_end_nonempty(trim_start(s));
        assert(trim_start(t) == t);
        assert(trim_end(t) == t);
    }
}

pub proof fn lemma_digits_value_push(s: Seq<char>, c: char)
    ensures
        digits_value(s.push(c)) == 10 * digits_value(s) + digit_value(c),
{
    assert(s.push(c).drop_last() =~= s);
}

pub proof fn lemma_decimal_len(n: nat)
    ensures
        decimal(n).len() >= 1,
    decreases n,
{
    if n >= 10 {
        lemma_decimal_len(n / 10);
    }
}

// ---------------------------------------------------------------------------
// Conversions
// ---------------------------------------------------------------------------

/// The characters of `s`, in order.
pub fn chars_of(s: &str) -> (out: Vec<char>)
    ensures
        out@ == s@,
{
    let mut out: Vec<char> = Vec::new();
    for c in it: s.chars()
        invariant
            it.seq() == s@,
            out@ == it.seq().take(it.index() as int),
    {
        out.push(c);
    }
    out
}

/// Collects characters into a `String` (`FromIterator<char> for String`).
#[verifier::external_body]
pub(crate) fn string_of(chars: &[char]) -> (out: String)
    ensures
        out@ == chars@,
{
    chars.iter().collect::<String>()
}

/// A new `String` holding `s`.
pub fn owned(s: &str) -> (out: String)
    ensures
        out@ == s@,
{
    s.to_owned()
}

/// `a` followed by `b`.
pub fn cat(a: &str, b: &str) -> (out: String)
    ensures
        out@ == a@ + b@,
{
    let mut out = a.to_owned();
    out.append(b);
    out
}

/// `a`, `b` and `c`, one after the other.
pub fn cat3(a: &str, b: &str, c: &str) -> (out: String)
    ensures
        out@ == a@ + b@ + c@,
{
    let mut out = a.to_owned();
    out.append(b);
    out.append(c);
    out
}

/// `a`, `b`, `c`, `d` and `e`, one after the other.
pub fn cat5(a: &str, b: &str, c: &str, d: &str, e: &str) -> (out: String)
    ensures
        out@ == a@ + b@ + c@ + d@ + e@,
{
    let mut out = a.to_owned();
    out.append(b);
    out.append(c);
    out.append(d);
    out.append(e);
    out
}

/// Whether two strings hold the same characters.
pub fn str_eq(a: &str, b: &str) -> (eq: bool)
    ensures
        eq == (a@ == b@),
{
    let av = chars_of(a);
    let bv = chars_of(b);
    seq_eq(&av, &bv)
}

/// Whether two character vectors are equal.
pub fn seq_eq(a: &Vec<char>, b: &Vec<char>) -> (eq: bool)
    ensures
        eq == (a@ == b@),
{
    if a.len() != b.len() {
        return false;
    }
    let mut i: usize = 0;
    while i < a.len()
        invariant
            a.len() == b.len(),
            i <= a.len(),
            forall|k: int| 0 <= k < i ==> a@[k] == b@[k],
        decreases a.len() - i,
    {
        if a[i] != b[i] {
            return false;
        }
        i += 1;
    }
    assert(a@ =~= b@);
    true
}

// ---------------------------------------------------------------------------
// White space
// ---------------------------------------------------------------------------

/// `char::is_whitespace`.
pub fn char_is_ws(c: char) -> (b: bool)
    ensures
        b == is_ws(c),
{
    let u = c as u32;
    (0x09 <= u && u <= 0x0d) || u == 0x20 || u == 0x85 || u == 0xa0 || u == 0x1680 || (0x2000
        <= u && u <= 0x200a) || u == 0x2028 || u == 0x2029 || u == 0x202f || u == 0x205f || u
        == 0x3000
}

/// The characters of `v` without leading and trailing white space.
pub fn trim_chars(v: &Vec<char>) -> (out: Vec<char>)
    ensures
        out@ == trim(v@),
{
    let n = v.len();
    let mut i: usize = 0;
    while i < n && char_is_ws(v[i])
        invariant
            n == v.len(),
            i <= n,
            forall|j: int| 0 <= j < i ==> is_ws(#[trigger] v@[j]),
        decreases n - i,
    {
        i += 1;
    }
    proof {
        lemma_trim_start_skip(v@, i as int);
        if i < n {
            assert(v@.skip(i as int)[0] == v@[i as int]);
        }
    }
    let ghost rest = v@.skip(i as int);
    assert(trim_start(v@) == rest);
    let mut j: usize = n;
    while j > i && char_is_ws(v[j - 1])
        invariant
            n == v.len(),
            i <= j <= n,
            rest == v@.skip(i as int),
            forall|k: int| j <= k < n ==> is_ws(#[trigger] v@[k]),
        decreases j,
    {
        j -= 1;
    }
    let ghost kept = rest.take((j - i) as int);
    proof {
        assert forall|k: int| (j - i) <= k < rest.len() implies is_ws(#[trigger] rest[k]) by {
            assert(rest[k] == v@[k + i]);
        }
        lemma_trim_end_take(rest, (j - i) as int);
        if j > i {
            assert(kept.last() == v@[j - 1]);
        }
        assert(trim_end(kept) == kept);
    }
    let mut out: Vec<char> = Vec::new();
    let mut k: usize = i;
    while k < j
        invariant
            n == v.len(),
            i <= k <= j <= n,
            out@ == v@.subrange(i as int, k as int),
        decreases j - k,
    {
        out.push(v[k]);
        k += 1;
    }
    assert(out@ =~= kept);
    out
}

/// `str::trim`, as an owned string.
pub fn trim_str(s: &str) -> (out: String)
    ensures
        out@ == trim(s@),
{
    let v = chars_of(s);
    let t = trim_chars(&v);
    string_of(t.as_slice())
}

/// Whether `s` holds only white space, so that `s.trim().is_empty()`.
pub fn is_blank_str(s: &str) -> (b: bool)
    ensures
        b == is_blank(s@),
        b == (trim(s@).len() == 0),
{
    proof {
        lemma_blank_trim(s@);
    }
    let v = chars_of(s);
    let mut i: usize = 0;
    while i < v.len()
        invariant
            v@ == s@,
            i <= v.len(),
            forall|j: int| 0 <= j < i ==> is_ws(#[trigger] v@[j]),
        decreases v.len() - i,
    {
        if !char_is_ws(v[i]) {
            assert(!is_ws(s@[i as int]));
            proof {
                lemma_blank_trim(s@);
            }
            return false;
        }
        i += 1;
    }
    true
}

/// The view of an optional string.
pub open spec fn opt_view(o: Option<String>) -> Option<Seq<char>> {
    match o {
        Some(s) => Some(s@),
        None => None,
    }
}

/// The trimmed text of `value` when it is not blank (the `normalize_optional`
/// rule used for optional inputs).
pub open spec fn normalized_opt(value: Option<Seq<char>>) -> Option<Seq<char>> {
    match value {
        Some(v) => if trim(v).len() == 0 {
            None
        } else {
            Some(trim(v))
        },
        None => None,
    }
}

/// Trims an optional value and drops it when nothing is left.
pub fn normalize_optional(value: Option<String>) -> (out: Option<String>)
    ensures
        match out {
            Some(s) => normalized_opt(opt_view(value)) == Some(s@),
            None => normalized_opt(opt_view(value)) is None,
        },
{
    match value {
        None => None,
        Some(raw) => {
            let t = trim_str(raw.as_str());
            if t.as_str().is_empty() {
                None
            } else {
                Some(t)
            }
        },
    }
}

// ---------------------------------------------------------------------------
// Case
// ---------------------------------------------------------------------------

/// `char::to_ascii_lowercase`.
pub fn lower_char_exec(c: char) -> (out: char)
    ensures
        out == lower_char(c),
{
    if 'A' <= c && c <= 'Z' {
        let u: u32 = (c as u32) + 32;
        assert(u < 128);
        let b: u8 = u as u8;
        b as char
    } else {
        c
    }
}

/// `str::to_ascii_lowercase`, on characters.
pub fn ascii_lower_chars(v: &Vec<char>) -> (out: Vec<char>)
    ensures
        out@ == ascii_lower(v@),
{
    let mut out: Vec<char> = Vec::new();
    let mut i: usize = 0;
    while i < v.len()
        invariant
            i <= v.len(),
            out@ == ascii_lower(v@.take(i as int)),
        decreases v.len() - i,
    {
        out.push(lower_char_exec(v[i]));
        i += 1;
        assert(out@ =~= ascii_lower(v@.take(i as int)));
    }
    assert(v@.take(v.len() as int) =~= v@);
    out
}

/// `str::to_ascii_lowercase`.
pub fn ascii_lowercase(s: &str) -> (out: String)
    ensures
        out@ == ascii_lower(s@),
{
    let v = chars_of(s);
    let l = ascii_lower_chars(&v);
    string_of(l.as_slice())
}

/// `str::to_lowercase`: the Unicode lower-case mapping.  On ASCII text it is
/// the ASCII mapping, since the Unicode mapping of an ASCII letter is its ASCII
/// lower case and other ASCII characters map to themselves.
#[verifier::external_body]
pub(crate) fn to_lowercase(s: &str) -> (out: String)
    ensures
        out@ == unicode_lower(s@),
        all_ascii(s@) ==> out@ == ascii_lower(s@),
{
    s.to_lowercase()
}

/// `str::eq_ignore_ascii_case`.
pub fn eq_ignore_ascii_case(a: &str, b: &str) -> (eq: bool)
    ensures
        eq == (ascii_lower(a@) == ascii_lower(b@)),
{
    let av = ascii_lower_chars(&chars_of(a));
    let bv = ascii_lower_chars(&chars_of(b));
    seq_eq(&av, &bv)
}

// ---------------------------------------------------------------------------
// Search
// ---------------------------------------------------------------------------

/// Whether `v` begins with `prefix`.
pub fn starts_with_chars(v: &Vec<char>, prefix: &Vec<char>) -> (b: bool)
    ensures
        b == starts_with(v@, prefix@),
{
    if prefix.len() > v.len() {
        return false;
    }
    let mut i: usize = 0;
    while i < prefix.len()
        invariant
            prefix.len() <= v.len(),
            i <= prefix.len(),
            forall|k: int| 0 <= k < i ==> v@[k] == prefix@[k],
        decreases prefix.len() - i,
    {
        if v[i] != prefix[i] {
            assert(v@.take(prefix.len() as int)[i as int] != prefix@[i as int]);
            return false;
        }
        i += 1;
    }
    assert(v@.take(prefix.len() as int) =~= prefix@);
    true
}

/// `str::starts_with` with a string pattern.
pub fn str_starts_with(s: &str, prefix: &str) -> (b: bool)
    ensures
        b == starts_with(s@, prefix@),
{
    starts_with_chars(&chars_of(s), &chars_of(prefix))
}

/// Whether `needle` occurs in `hay` at position `at`.
pub fn occurs_at_exec(hay: &Vec<char>, needle: &Vec<char>, at: usize) -> (b: bool)
    ensures
        b == occurs_at(hay@, needle@, at as int),
{
    if at > hay.len() || needle.len() > hay.len() - at {
        return false;
    }
    let mut i: usize = 0;
    while i < needle.len()
        invariant
            at + needle.len() <= hay.len(),
            i <= needle.len(),
            forall|k: int| 0 <= k < i ==> hay@[at + k] == needle@[k],
        decreases needle.len() - i,
    {
        if hay[at + i] != needle[i] {
            assert(hay@.subrange(at as int, at + needle.len())[i as int] != needle@[i as int]);
            return false;
        }
        i += 1;
    }
    assert(hay@.subrange(at as int, at + needle.len()) =~= needle@);
    true
}

/// Whether `needle` occurs anywhere in `hay`.
pub fn contains_chars(hay: &Vec<char>, needle: &Vec<char>) -> (b: bool)
    ensures
        b == contains_sub(hay@, needle@),
{
    if needle.len() > hay.len() {
        return false;
    }
    let last = hay.len() - needle.len();
    let mut at: usize = 0;
    while at <= last
        invariant
            last == hay.len() - needle.len(),
            at <= last + 1,
            forall|k: int| 0 <= k < at ==> !occurs_at(hay@, needle@, k),
        decreases last + 1 - at,
    {
        if occurs_at_exec(hay, needle, at) {
            return true;
        }
        if at == last {
            return false;
        }
        at += 1;
    }
    false
}

/// `str::contains` with a string pattern.
pub fn str_contains(hay: &str, needle: &str) -> (b: bool)
    ensures
        b == contains_sub(hay@, needle@),
{
    contains_chars(&chars_of(hay), &chars_of(needle))
}

// ---------------------------------------------------------------------------
// Numbers
// ---------------------------------------------------------------------------

/// The decimal digit `d`.
pub fn digit_exec(d: u64) -> (c: char)
    requires
        d < 10,
    ensures
        c == digit_char(d as nat),
{
    let b: u8 = (d as u8) + 48;
    b as char
}

/// `u64::to_string`.
pub fn u64_to_string(n: u64) -> (out: String)
    ensures
        out@ == decimal(n as nat),
{
    let v = decimal_chars(n);
    string_of(v.as_slice())
}

/// The decimal rendering of a signed number (`i64::to_string`).
pub open spec fn signed_decimal(n: int) -> Seq<char> {
    if n < 0 {
        "-"@ + decimal((-n) as nat)
    } else {
        decimal(n as nat)
    }
}

/// `i64::to_string`.
pub fn i64_to_string(n: i64) -> (out: String)
    ensures
        out@ == signed_decimal(n as int),
{
    if n < 0 {
        let wide: i128 = -(n as i128);
        let m: u64 = wide as u64;
        let digits = u64_to_string(m);
        proof {
            reveal_strlit("-");
        }
        cat("-", digits.as_str())
    } else {
        u64_to_string(n as u64)
    }
}

/// The decimal digits of `n`.
pub fn decimal_chars(n: u64) -> (out: Vec<char>)
    ensures
        out@ == decimal(n as nat),
    decreases n,
{
    if n < 10 {
        let mut v: Vec<char> = Vec::new();
        v.push(digit_exec(n));
        assert(v@ =~= seq![digit_char(n as nat)]);
        v
    } else {
        let mut v = decimal_chars(n / 10);
        v.push(digit_exec(n % 10));
        v
    }
}

/// Parses an unsigned decimal number no greater than `max`, as
/// `<uN as FromStr>::from_str` does for the `uN` whose largest value is `max`.
pub fn parse_unsigned_exec(s: &str, max: u64) -> (out: Option<u64>)
    ensures
        match out {
            Some(v) => parse_unsigned(s@, max as nat) == Some(v as nat),
            None => parse_unsigned(s@, max as nat) is None,
        },
{
    let v = chars_of(s);
    let start: usize = if v.len() > 0 && v[0] == '+' {
        1
    } else {
        0
    };
    let ghost d = if s@.len() > 0 && s@[0] == '+' {
        s@.drop_first()
    } else {
        s@
    };
    assert(d =~= v@.skip(start as int));
    if start == v.len() {
        assert(d.len() == 0);
        return None;
    }
    let cap: u128 = max as u128 + 1;
    let mut acc: u128 = 0;
    let mut i: usize = start;
    while i < v.len()
        invariant
            d == v@.skip(start as int),
            v@ == s@,
            d == (if s@.len() > 0 && s@[0] == '+' {
                s@.drop_first()
            } else {
                s@
            }),
            start <= i <= v.len(),
            cap == max + 1,
            all_digits(d.take(i - start)),
            acc as nat == if digits_value(d.take(i - start)) > max as nat {
                cap as nat
            } else {
                digits_value(d.take(i - start))
            },
        decreases v.len() - i,
    {
        let c = v[i];
        if !('0' <= c && c <= '9') {
            assert(d[i - start] == c);
            assert(!is_ascii_digit(d[i - start]));
            return None;
        }
        let dv: u64 = (c as u32 - '0' as u32) as u64;
        let ghost prev = d.take(i - start);
        proof {
            assert(d.take(i + 1 - start) =~= prev.push(c));
            lemma_digits_value_push(prev, c);
        }
        if acc == cap {
            assert(digits_value(prev.push(c)) >= digits_value(prev)) by (nonlinear_arith)
                requires
                    digits_value(prev.push(c)) == 10 * digits_value(prev) + digit_value(c),
            ;
        } else {
            let wide: u128 = acc * 10 + (dv as u128);
            if wide > max as u128 {
                acc = cap;
            } else {
                acc = wide;
            }
        }
        i += 1;
        proof {
            assert forall|k: int| 0 <= k < i - start implies is_ascii_digit(
                #[trigger] d.take(i - start)[k],
            ) by {
                if k < i - 1 - start {
                    assert(d.take(i - start)[k] == prev[k]);
                }
            }
        }
    }
    assert(d.take(v.len() - start) =~= d);
    if acc == cap {
        None
    } else {
        Some(acc as u64)
    }
}

/// What `i64::from_str` accepts: an optional sign, then one or more decimal
/// digits whose value lies in the range of `i64`.
pub open spec fn parse_i64_spec(s: Seq<char>) -> Option<int> {
    if s.len() > 0 && s[0] == '-' {
        let d = s.drop_first();
        if d.len() == 0 || !all_digits(d) || digits_value(d) > 0x8000_0000_0000_0000 {
            None
        } else {
            Some(-(digits_value(d) as int))
        }
    } else {
        match parse_unsigned(s, 0x7fff_ffff_ffff_ffff) {
            Some(v) => Some(v as int),
            None => None,
        }
    }
}

/// Parses an `i64` as `i64::from_str` does.
pub fn parse_i64(s: &str) -> (out: Option<i64>)
    ensures
        match out {
            Some(v) => parse_i64_spec(s@) == Some(v as int),
            None => parse_i64_spec(s@) is None,
        },
{
    let v = chars_of(s);
    if v.len() > 0 && v[0] == '-' {
        let rest = string_of(skip_first(&v).as_slice());
        proof {
            assert(rest@ == s@.drop_first());
        }
        // A leading '+' after '-' is not accepted; `parse_unsigned_exec` would.
        let rv = chars_of(rest.as_str());
        if rv.len() > 0 && rv[0] == '+' {
            assert(!is_ascii_digit(s@.drop_first()[0]));
            return None;
        }
        match parse_unsigned_exec(rest.as_str(), 0x8000_0000_0000_0000) {
            Some(m) => {
                if m == 0x8000_0000_0000_0000 {
                    Some(i64::MIN)
                } else {
                    Some(-(m as i64))
                }
            },
            None => None,
        }
    } else {
        match parse_unsigned_exec(s, 0x7fff_ffff_ffff_ffff) {
            Some(m) => Some(m as i64),
            None => None,
        }
    }
}

fn skip_first(v: &Vec<char>) -> (out: Vec<char>)
    requires
        v@.len() > 0,
    ensures
        out@ == v@.drop_first(),
{
    let mut out: Vec<char> = Vec::new();
    let mut j: usize = 1;
    while j < v.len()
        invariant
            1 <= j <= v.len(),
            out@ == v@.subrange(1, j as int),
        decreases v.len() - j,
    {
        out.push(v[j]);
        j += 1;
    }
    out
}

/// The pieces of `s` between white-space characters (`str::split` with
/// `char::is_whitespace`).
pub open spec fn split_ws_pieces(s: Seq<char>) -> Seq<Seq<char>>
    decreases s.len(),
{
    if s.len() == 0 {
        seq![Seq::<char>::empty()]
    } else {
        let prev = split_ws_pieces(s.drop_last());
        if is_ws(s.last()) {
            prev.push(Seq::<char>::empty())
        } else {
            prev.update(prev.len() - 1, prev.last().push(s.last()))
        }
    }
}

/// The non-empty pieces, in order.
pub open spec fn nonempty_pieces(p: Seq<Seq<char>>) -> Seq<Seq<char>>
    decreases p.len(),
{
    if p.len() == 0 {
        Seq::<Seq<char>>::empty()
    } else if p.last().len() == 0 {
        nonempty_pieces(p.drop_last())
    } else {
        nonempty_pieces(p.drop_last()).push(p.last())
    }
}

/// The words of `s` (`str::split_whitespace`).
pub open spec fn words(s: Seq<char>) -> Seq<Seq<char>> {
    nonempty_pieces(split_ws_pieces(s))
}

/// The words of `s`, in order.
pub fn split_whitespace(s: &str) -> (out: Vec<String>)
    ensures
        out@.map_values(|w: String| w@) == words(s@),
{
    let v = chars_of(s);
    let ghost mut pieces: Seq<Seq<char>> = Seq::empty();
    let mut out: Vec<String> = Vec::new();
    let mut cur: Vec<char> = Vec::new();
    let mut i: usize = 0;
    while i < v.len()
        invariant
            i <= v.len(),
            v@ == s@,
            pieces.push(cur@) == split_ws_pieces(v@.take(i as int)),
            out@.map_values(|w: String| w@) == nonempty_pieces(pieces),
        decreases v.len() - i,
    {
        proof {
            assert(v@.take(i + 1).drop_last() =~= v@.take(i as int));
            assert(v@.take(i + 1).last() == v@[i as int]);
        }
        if char_is_ws(v[i]) {
            let ghost prev_pieces = pieces;
            if cur.len() > 0 {
                let w = string_of(cur.as_slice());
                let ghost prev_out = out@;
                out.push(w);
                assert(out@.map_values(|w: String| w@) =~= prev_out.map_values(|w: String| w@).push(cur@));
            }
            proof {
                pieces = prev_pieces.push(cur@);
                assert(pieces.drop_last() =~= prev_pieces);
                assert(nonempty_pieces(pieces) == if cur@.len() == 0 {
                    nonempty_pieces(prev_pieces)
                } else {
                    nonempty_pieces(prev_pieces).push(cur@)
                });
            }
            cur = Vec::new();
            assert(pieces.push(cur@) =~= split_ws_pieces(v@.take(i + 1)));
        } else {
            let ghost prev = pieces.push(cur@);
            cur.push(v[i]);
            assert(pieces.push(cur@) =~= prev.update(prev.len() - 1, prev.last().push(v@[i as int])));
        }
        i += 1;
    }
    proof {
        assert(v@.take(v.len() as int) =~= v@);
    }
    let ghost final_pieces = pieces.push(cur@);
    assert(final_pieces.drop_last() =~= pieces);
    if cur.len() > 0 {
        let w = string_of(cur.as_slice());
        let ghost prev_out = out@;
        out.push(w);
        assert(out@.map_values(|w: String| w@) =~= prev_out.map_values(|w: String| w@).push(cur@));
    }
    assert(nonempty_pieces(final_pieces) == if cur@.len() == 0 {
        nonempty_pieces(pieces)
    } else {
        nonempty_pieces(pieces).push(cur@)
    });
    out
}

/// The lines of `raw`, split at each newline (a final newline leaves an
/// empty last line).
pub open spec fn split_lines(raw: Seq<char>) -> Seq<Seq<char>>
    decreases raw.len(),
{
    if raw.len() == 0 {
        seq![Seq::<char>::empty()]
    } else {
        let prev = split_lines(raw.drop_last());
        if raw.last() == '\n' {
            prev.push(Seq::<char>::empty())
        } else {
            prev.update(prev.len() - 1, prev.last().push(raw.last()))
        }
    }
}

proof fn lemma_split_lines_nonempty(raw: Seq<char>)
    ensures
        split_lines(raw).len() >= 1,
    decreases raw.len(),
{
    if raw.len() > 0 {
        lemma_split_lines_nonempty(raw.drop_last());
    }
}

/// The lines of `raw`, split at each newline.
pub fn lines_of(raw: &str) -> (out: Vec<String>)
    ensures
        crate::sorting::views(out@) == split_lines(raw@),
{
    let v = chars_of(raw);
    let mut lines: Vec<Vec<char>> = Vec::new();
    lines.push(Vec::new());
    let mut i: usize = 0;
    while i < v.len()
        invariant
            i <= v.len(),
            v@ == raw@,
            lines@.len() >= 1,
            lines@.map_values(|l: Vec<char>| l@) == split_lines(v@.take(i as int)),
        decreases v.len() - i,
    {
        proof {
            assert(v@.take(i + 1).drop_last() =~= v@.take(i as int));
            lemma_split_lines_nonempty(v@.take(i as int));
        }
        let ghost before = lines@.map_values(|l: Vec<char>| l@);
        if v[i] == '\n' {
            lines.push(Vec::new());
            assert(lines@.map_values(|l: Vec<char>| l@) =~= before.push(Seq::<char>::empty()));
        } else {
            let last = lines.len() - 1;
            let mut cur = lines.remove(last);
            cur.push(v[i]);
            lines.push(cur);
            assert(lines@.map_values(|l: Vec<char>| l@) =~= before.update(
                before.len() - 1,
                before.last().push(v@[i as int]),
            ));
        }
        i += 1;
    }
    assert(v@.take(v.len() as int) =~= v@);
    let ghost all = lines@.map_values(|l: Vec<char>| l@);
    let mut out: Vec<String> = Vec::new();
    let mut k: usize = 0;
    while k < lines.len()
        invariant
            k <= lines.len(),
            all == lines@.map_values(|l: Vec<char>| l@),
            crate::sorting::views(out@) == all.take(k as int),
        decreases lines.len() - k,
    {
        let ghost prev = out@;
        let line = string_of(lines[k].as_slice());
        assert(line@ == all[k as int]);
        out.push(line);
        assert(crate::sorting::views(out@) =~= crate::sorting::views(prev).push(line@));
        assert(all.take(k + 1) =~= all.take(k as int).push(all[k as int]));
        k += 1;
    }
    assert(all.take(lines.len() as int) =~= all);
    out
}

} // verus!
