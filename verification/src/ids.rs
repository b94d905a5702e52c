//! Random identifiers and the clock.
use vstd::prelude::*;

verus! {

/// The lower-case hexadecimal digit of `d`.
pub open spec fn hex_char(d: nat) -> char {
    if d < 10 {
        (('0' as u32) + d) as char
    } else {
        (('a' as u32) + (d - 10)) as char
    }
}

/// The two lower-case hexadecimal digits of each byte.
pub open spec fn hex_lower(bytes: Seq<u8>) -> Seq<char>
    decreases bytes.len(),
{
    if bytes.len() == 0 {
        Seq::<char>::empty()
    } else {
        hex_lower(bytes.drop_last()).push(hex_char((bytes.last() / 16) as nat)).push(
            hex_char((bytes.last() % 16) as nat),
        )
    }
}

/// The bytes of a random (version 4, RFC 4122 variant) UUID.
pub open spec fn random_uuid_bytes(b: Seq<u8>) -> bool {
    &&& b.len() == 16
    &&& b[6] / 16 == 4
    &&& b[8] / 64 == 2
}

/// A UUID's bytes in its hyphenated form: 8-4-4-4-12 hexadecimal digits.
pub open spec fn uuid_hyphenated(bytes: Seq<u8>) -> Seq<char> {
    let h = hex_lower(bytes);
    h.subrange(0, 8) + "-"@ + h.subrange(8, 12) + "-"@ + h.subrange(12, 16) + "-"@ + h.subrange(
        16,
        20,
    ) + "-"@ + h.subrange(20, 32)
}

/// The 16 bytes of a new random (version 4) UUID, from `uuid::Uuid::new_v4`
/// and `Uuid::as_bytes`.  The bytes depend on chance; the contract states
/// their count and the fixed bits of a version 4 UUID: the high nibble of
/// byte 6 is the version, 4, and the top two bits of byte 8 are the RFC 4122
/// variant, `10`.
#[verifier::external_body]
pub(crate) fn new_uuid_bytes() -> (bytes: Vec<u8>)
    ensures
        bytes@.len() == 16,
        bytes@[6] / 16 == 4,
        bytes@[8] / 64 == 2,
{
    uuid::Uuid::new_v4().as_bytes().to_vec()
}

pub fn hex_char_exec(d: u8) -> (c: char)
    requires
        d < 16,
    ensures
        c == hex_char(d as nat),
{
    if d < 10 {
        ((d + 48) as u8) as char
    } else {
        ((d - 10 + 97) as u8) as char
    }
}

proof fn lemma_hex_lower_len(bytes: Seq<u8>)
    ensures
        hex_lower(bytes).len() == 2 * bytes.len(),
    decreases bytes.len(),
{
    if bytes.len() > 0 {
        lemma_hex_lower_len(bytes.drop_last());
    }
}

/// The lower-case hexadecimal digits of `bytes`.
pub fn hex_lower_exec(bytes: &Vec<u8>) -> (out: Vec<char>)
    ensures
        out@ == hex_lower(bytes@),
        out@.len() == 2 * bytes@.len(),
{
    let mut out: Vec<char> = Vec::new();
    let mut i: usize = 0;
    while i < bytes.len()
        invariant
            i <= bytes.len(),
            out@ == hex_lower(bytes@.take(i as int)),
        decreases bytes.len() - i,
    {
        proof {
            assert(bytes@.take(i + 1).drop_last() =~= bytes@.take(i as int));
            assert(bytes@.take(i + 1).last() == bytes@[i as int]);
        }
        out.push(hex_char_exec(bytes[i] / 16));
        out.push(hex_char_exec(bytes[i] % 16));
        i += 1;
    }
    proof {
        assert(bytes@.take(bytes.len() as int) =~= bytes@);
        lemma_hex_lower_len(bytes@);
    }
    out
}

/// A new random UUID in its hyphenated form (`Uuid::to_string`).
pub fn new_uuid_string() -> (out: String)
    ensures
        exists|b: Seq<u8>| random_uuid_bytes(b) && out@ == uuid_hyphenated(b),
{
    let bytes = new_uuid_bytes();
    let h = hex_lower_exec(&bytes);
    let mut out: Vec<char> = Vec::new();
    push_range(&mut out, &h, 0, 8);
    out.push('-');
    push_range(&mut out, &h, 8, 12);
    out.push('-');
    push_range(&mut out, &h, 12, 16);
    out.push('-');
    push_range(&mut out, &h, 16, 20);
    out.push('-');
    push_range(&mut out, &h, 20, 32);
    proof {
        reveal_strlit("-");
    }
    assert(out@ =~= uuid_hyphenated(bytes@));
    crate::text::string_of(out.as_slice())
}

/// Appends `src[a..b]` to `out`.
pub fn push_range(out: &mut Vec<char>, src: &Vec<char>, a: usize, b: usize)
    requires
        a <= b <= src@.len(),
    ensures
        final(out)@ == old(out)@ + src@.subrange(a as int, b as int),
{
    let mut k: usize = a;
    while k < b
        invariant
            a <= k <= b <= src@.len(),
            out@ == old(out)@ + src@.subrange(a as int, k as int),
        decreases b - k,
    {
        out.push(src[k]);
        k += 1;
        assert(out@ =~= old(out)@ + src@.subrange(a as int, k as int));
    }
}

/// The current time as a Unix timestamp in milliseconds, from
/// `chrono::Utc::now` and `DateTime::timestamp_millis`.  The value depends
/// on the clock; nothing is stated of it.
#[verifier::external_body]
pub(crate) fn now_millis() -> (t: i64) {
    chrono::Utc::now().timestamp_millis()
}

/// What `chrono::DateTime::<Utc>::from_timestamp_millis(ms)` followed by
/// `DateTime::to_rfc3339` gives: the RFC 3339 text of the instant, or `None`
/// where the instant lies outside chrono's range.
pub uninterp spec fn rfc3339_text(ms: i64) -> Option<Seq<char>>;

/// The RFC 3339 text of the instant `ms` milliseconds after the epoch
/// (`DateTime::from_timestamp_millis`, then `DateTime::to_rfc3339`), or
/// `None` outside chrono's range.
#[verifier::external_body]
pub(crate) fn rfc3339_of_millis(ms: i64) -> (out: Option<String>)
    ensures
        match out {
            Some(t) => rfc3339_text(ms) == Some(t@),
            None => rfc3339_text(ms) is None,
        },
{
    chrono::DateTime::from_timestamp_millis(ms).map(|t| t.to_rfc3339())
}

} // verus!
