//! What the command-line helpers promise on every input: a configured
//! value reads back, closed visits are gone, fallback chains hold no
//! repeats, encoded payloads stay in the URL alphabet, and the quiet zone of
//! a QR image is blank.
use vstd::prelude::*;
use crate::automation::registry::{Identified, has_record, without_record};
use crate::cli::browser::BrowserVisit;
use crate::cli::configure::{ConfigValue, ConfigureKey, ProfileConfig, same_value, updated, value_of};
use crate::cli::discovery::{encode_byte, hex_upper, unreserved, url_encoded};
use crate::cli::models::chain_of;
use crate::cli::qr::{QrGrid, pixel_value, png_side};

verus! {

/// After `configure set` (or `unset`) stores `v` under `key`, `configure
/// get` of that key reads `v` back, and every other key reads as before.
pub proof fn law_configure_set_then_get(
    before: ProfileConfig,
    after: ProfileConfig,
    key: ConfigureKey,
    v: ConfigValue,
    other: ConfigureKey,
)
    requires
        updated(before, after, key, v),
    ensures
        same_value(value_of(after, key), v),
        other != key ==> same_value(value_of(after, other), value_of(before, other)),
{
}

/// After closing the visits with an id, no visit with that id is left.
pub proof fn law_closed_visit_is_gone(history: Seq<BrowserVisit>, id: Seq<char>)
    ensures
        !has_record(without_record(history, id), id),
    decreases history.len(),
{
    if history.len() > 0 {
        law_closed_visit_is_gone(history.drop_last(), id);
        let rest = without_record(history.drop_last(), id);
        if history.last().id_view() != id {
            assert forall|i: int| 0 <= i < rest.push(history.last()).len() implies (#[trigger] rest.push(history.last())[i]).id_view() != id by {
                if i < rest.len() {
                    assert(rest.push(history.last())[i] == rest[i]);
                }
            }
        }
    }
}

/// A fallback chain never names the effective model and never names a
/// model twice, and every model it names is among the resolved fallbacks.
pub proof fn law_fallback_chain_distinct(effective: Seq<char>, resolved: Seq<Seq<char>>)
    ensures
        !chain_of(effective, resolved).contains(effective),
        forall|i: int, j: int|
            0 <= i < j < chain_of(effective, resolved).len() ==> chain_of(effective, resolved)[i]
                != chain_of(effective, resolved)[j],
        forall|x: Seq<char>| chain_of(effective, resolved).contains(x) ==> resolved.contains(x),
    decreases resolved.len(),
{
    if resolved.len() > 0 {
        let prev = resolved.drop_last();
        law_fallback_chain_distinct(effective, prev);
        let c = chain_of(effective, prev);
        let x = resolved.last();
        assert forall|y: Seq<char>| prev.contains(y) implies resolved.contains(y) by {
            let k = choose|k: int| 0 <= k < prev.len() && prev[k] == y;
            assert(resolved[k] == y);
        }
        if !(x == effective || c.contains(x)) {
            let n = c.push(x);
            assert forall|y: Seq<char>| n.contains(y) implies resolved.contains(y) by {
                let k = choose|k: int| 0 <= k < n.len() && n[k] == y;
                if k < c.len() {
                    assert(c[k] == y);
                    assert(c.contains(y));
                } else {
                    assert(resolved[resolved.len() - 1] == y);
                }
            }
            assert(!n.contains(effective)) by {
                if n.contains(effective) {
                    let k = choose|k: int| 0 <= k < n.len() && n[k] == effective;
                    if k < c.len() {
                        assert(c[k] == effective);
                        assert(c.contains(effective));
                    }
                }
            }
            assert forall|i: int, j: int| 0 <= i < j < n.len() implies n[i] != n[j] by {
                if j == c.len() {
                    if n[i] == n[j] {
                        assert(c[i] == x);
                        assert(c.contains(x));
                    }
                } else {
                    assert(n[i] == c[i] && n[j] == c[j]);
                }
            }
        }
    }
}

/// A character that may appear in a percent-encoded text: an unreserved
/// character, `%`, or an upper-case hexadecimal digit.
pub open spec fn url_char(c: char) -> bool {
    (('0' <= c <= '9') || ('A' <= c <= 'Z') || ('a' <= c <= 'z') || c == '-' || c == '_' || c
        == '.' || c == '~' || c == '%')
}

proof fn lemma_hex_upper_is_url_char(d: u8)
    ensures
        url_char(hex_upper(d)),
{
}

/// Percent-encoding yields only unreserved characters, `%` and hexadecimal
/// digits, whatever the bytes.
pub proof fn law_url_encoded_alphabet(bytes: Seq<u8>)
    ensures
        forall|i: int| 0 <= i < url_encoded(bytes).len() ==> url_char(#[trigger] url_encoded(bytes)[i]),
    decreases bytes.len(),
{
    if bytes.len() > 0 {
        law_url_encoded_alphabet(bytes.drop_last());
        let b = bytes.last();
        let prev = url_encoded(bytes.drop_last());
        let e = encode_byte(b);
        lemma_hex_upper_is_url_char(b / 16);
        lemma_hex_upper_is_url_char(b % 16);
        assert(forall|k: int| 0 <= k < e.len() ==> url_char(#[trigger] e[k])) by {
            if unreserved(b) {
                assert(e[0] == b as char);
            }
        }
        assert forall|i: int| 0 <= i < url_encoded(bytes).len() implies url_char(#[trigger] url_encoded(bytes)[i]) by {
            if i < prev.len() {
                assert(url_encoded(bytes)[i] == prev[i]);
            } else {
                assert(url_encoded(bytes)[i] == e[i - prev.len()]);
            }
        }
    }
}

/// Every pixel of the quiet zone round a QR code is white.
pub proof fn law_qr_quiet_zone_is_white(g: QrGrid, qz: int, ms: int, px: int, py: int)
    requires
        g.well_formed(),
        0 <= qz,
        ms > 0,
        0 <= px < png_side(g, qz, ms),
        0 <= py < png_side(g, qz, ms),
        px < qz * ms || py < qz * ms || px >= (g.size + qz) * ms || py >= (g.size + qz) * ms,
    ensures
        pixel_value(g, qz, ms, px, py) == 255,
{
    if px >= (g.size + qz) * ms {
        assert(px / ms >= g.size + qz) by (nonlinear_arith)
            requires
                px >= (g.size + qz) * ms,
                ms > 0,
        ;
    } else if py >= (g.size + qz) * ms {
        assert(py / ms >= g.size + qz) by (nonlinear_arith)
            requires
                py >= (g.size + qz) * ms,
                ms > 0,
        ;
    } else if px < qz * ms {
        assert(px / ms < qz) by (nonlinear_arith)
            requires
                0 <= px < qz * ms,
                ms > 0,
        ;
    } else {
        assert(py / ms < qz) by (nonlinear_arith)
            requires
                0 <= py < qz * ms,
                ms > 0,
        ;
    }
}

} // verus!
