//! Discovery helpers: documentation topics, resolved addresses, and the
//! payloads that QR codes carry.
use vstd::prelude::*;
use crate::error::{MosaicError, fails_with};
use crate::sorting::{sorted_distinct_texts, sorted_set_of, views};
use crate::text::{ascii_lower, ascii_lowercase, cat, cat3, decimal, owned, str_eq, trim, trim_str, u64_to_string};

verus! {

/// A byte kept as it is in a URL: an ASCII letter or digit, `-`, `_`, `.`
/// or `~`.
pub open spec fn unreserved(b: u8) -> bool {
    (48 <= b <= 57) || (65 <= b <= 90) || (97 <= b <= 122) || b == 45 || b == 95 || b == 46 || b
        == 126
}

/// The upper-case hexadecimal digit of `d`; `0` past fifteen.
pub open spec fn hex_upper(d: u8) -> char {
    if d < 10 {
        (48 + d) as char
    } else if d < 16 {
        (55 + d) as char
    } else {
        '0'
    }
}

/// The text a byte becomes in a URL: itself when unreserved, else `%` and
/// its two hexadecimal digits.
pub open spec fn encode_byte(b: u8) -> Seq<char> {
    if unreserved(b) {
        seq![b as char]
    } else {
        seq!['%', hex_upper(b / 16), hex_upper(b % 16)]
    }
}

/// Percent-encoding of a byte string.
pub open spec fn url_encoded(bytes: Seq<u8>) -> Seq<char>
    decreases bytes.len(),
{
    if bytes.len() == 0 {
        Seq::<char>::empty()
    } else {
        url_encoded(bytes.drop_last()) + encode_byte(bytes.last())
    }
}

/// The upper-case hexadecimal digit of `value`; `0` past fifteen.
pub fn hex_digit(value: u8) -> (c: char)
    ensures
        c == hex_upper(value),
{
    if value <= 9 {
        (48u8 + value) as char
    } else if value <= 15 {
        (65u8 + (value - 10)) as char
    } else {
        '0'
    }
}

/// Percent-encodes the UTF-8 bytes of `value`.
pub fn url_encode(value: &str) -> (out: String)
    ensures
        out@ == url_encoded(vstd::utf8::encode_utf8(value@)),
{
    let bytes = value.as_bytes();
    let ghost bs = bytes@;
    let mut encoded: Vec<char> = Vec::new();
    let mut i: usize = 0;
    while i < bytes.len()
        invariant
            i <= bytes.len(),
            bs == bytes@,
            encoded@ == url_encoded(bs.take(i as int)),
        decreases bytes.len() - i,
    {
        let byte = bytes[i];
        proof {
            assert(bs.take(i + 1).drop_last() =~= bs.take(i as int));
            assert(bs.take(i + 1).last() == byte);
        }
        let ghost before = encoded@;
        if (48u8 <= byte && byte <= 57u8) || (65u8 <= byte && byte <= 90u8) || (97u8 <= byte && byte
            <= 122u8) || byte == 45u8 || byte == 95u8 || byte == 46u8 || byte == 126u8 {
            encoded.push(byte as char);
        } else {
            encoded.push('%');
            let hi = byte >> 4;
            let lo = byte & 0x0f;
            assert(hi == byte / 16 && lo == byte % 16) by (bit_vector)
                requires
                    hi == byte >> 4,
                    lo == byte & 0x0f,
            ;
            encoded.push(hex_digit(hi));
            encoded.push(hex_digit(lo));
        }
        assert(encoded@ =~= before + encode_byte(byte));
        i += 1;
    }
    assert(bs.take(bs.len() as int) =~= bs);
    crate::text::string_of(encoded.as_slice())
}

/// The payload of a QR code for a value: the value, trimmed and
/// percent-encoded, in a `mosaic://qr` link.
pub fn qr_value_payload(value: &str) -> (out: Result<String, MosaicError>)
    ensures
        trim(value@).len() == 0 ==> fails_with(out, "qr value cannot be empty"@),
        trim(value@).len() > 0 ==> (out matches Ok(p) && p@ == "mosaic://qr?value="@ + url_encoded(
            vstd::utf8::encode_utf8(trim(value@)),
        )),
{
    let v = trim_str(value);
    if v.as_str().is_empty() {
        return Err(MosaicError::Validation(owned("qr value cannot be empty")));
    }
    Ok(cat("mosaic://qr?value=", url_encode(v.as_str()).as_str()))
}

/// The moment a pairing code expires: `now` plus the time to live, held at
/// the largest value rather than wrapping.
pub open spec fn expiry(now: u64, ttl_seconds: u64) -> u64 {
    if now + ttl_seconds > u64::MAX {
        u64::MAX
    } else {
        (now + ttl_seconds) as u64
    }
}

/// A pairing code's payload and when it expires.
#[derive(Debug, Clone)]
pub struct PairingPayload {
    pub device: String,
    pub node: String,
    pub expires_at: u64,
    pub payload: String,
}

/// The payload of a pairing QR code: the device and node (trimmed, neither
/// blank, percent-encoded) and the expiry `now + ttl_seconds`.
pub fn qr_pairing_payload(device: &str, node: &str, now: u64, ttl_seconds: u64) -> (out: Result<
    PairingPayload,
    MosaicError,
>)
    ensures
        trim(device@).len() == 0 ==> fails_with(out, "--device cannot be empty"@),
        trim(device@).len() > 0 && trim(node@).len() == 0 ==> fails_with(
            out,
            "--node cannot be empty"@,
        ),
        trim(device@).len() > 0 && trim(node@).len() > 0 ==> (out matches Ok(p) && p.device@ == trim(
            device@,
        ) && p.node@ == trim(node@) && p.expires_at == expiry(now, ttl_seconds) && p.payload@
            == "mosaic://pairing?device="@ + url_encoded(vstd::utf8::encode_utf8(trim(device@)))
            + "&node="@ + url_encoded(vstd::utf8::encode_utf8(trim(node@))) + "&exp="@ + decimal(
            expiry(now, ttl_seconds) as nat,
        )),
{
    let d = trim_str(device);
    if d.as_str().is_empty() {
        return Err(MosaicError::Validation(owned("--device cannot be empty")));
    }
    let n = trim_str(node);
    if n.as_str().is_empty() {
        return Err(MosaicError::Validation(owned("--node cannot be empty")));
    }
    let expires_at = match now.checked_add(ttl_seconds) {
        Some(t) => t,
        None => u64::MAX,
    };
    let mut payload = cat("mosaic://pairing?device=", url_encode(d.as_str()).as_str());
    payload.append("&node=");
    payload.append(url_encode(n.as_str()).as_str());
    payload.append("&exp=");
    payload.append(u64_to_string(expires_at).as_str());
    Ok(PairingPayload { device: d, node: n, expires_at, payload })
}

/// How a QR code is shown.
#[derive(Debug, Clone, Copy, PartialEq, Eq, Structural)]
pub enum QrRenderArg {
    Payload,
    Ascii,
    Png,
}

/// What a QR rendering asks for once its options are checked: the payload
/// alone, text art, or an image written to a path.
#[derive(Debug, Clone, PartialEq, Eq)]
pub enum QrRenderPlan {
    Payload,
    Ascii,
    Png { output: String },
}

/// Checks the options of a QR rendering: a positive module size, a quiet
/// zone of at most 32, and an output path exactly when rendering an image.
pub fn plan_qr_render(render: QrRenderArg, output: Option<&str>, quiet_zone: u8, module_size: u32) -> (out:
    Result<QrRenderPlan, MosaicError>)
    ensures
        module_size == 0 ==> fails_with(out, "--module-size must be greater than 0"@),
        module_size > 0 && quiet_zone > 32 ==> fails_with(
            out,
            "--quiet-zone must be less than or equal to 32"@,
        ),
        module_size > 0 && quiet_zone <= 32 ==> match render {
            QrRenderArg::Payload | QrRenderArg::Ascii => if output is Some {
                fails_with(out, "--output is only supported when --render png"@)
            } else {
                out == Ok::<QrRenderPlan, MosaicError>(
                    if render == QrRenderArg::Payload {
                        QrRenderPlan::Payload
                    } else {
                        QrRenderPlan::Ascii
                    },
                )
            },
            QrRenderArg::Png => match output {
                Some(o) if trim(o@).len() > 0 => out matches Ok(QrRenderPlan::Png { output: p })
                    && p@ == trim(o@),
                _ => fails_with(out, "--output is required when --render png"@),
            },
        },
{
    if module_size == 0 {
        return Err(MosaicError::Validation(owned("--module-size must be greater than 0")));
    }
    if quiet_zone > 32 {
        return Err(MosaicError::Validation(owned("--quiet-zone must be less than or equal to 32")));
    }
    match render {
        QrRenderArg::Payload | QrRenderArg::Ascii => {
            if output.is_some() {
                return Err(MosaicError::Validation(owned("--output is only supported when --render png")));
            }
            match render {
                QrRenderArg::Payload => Ok(QrRenderPlan::Payload),
                _ => Ok(QrRenderPlan::Ascii),
            }
        },
        QrRenderArg::Png => {
            let path = match output {
                Some(o) => trim_str(o),
                None => {
                    return Err(MosaicError::Validation(owned("--output is required when --render png")));
                },
            };
            if path.as_str().is_empty() {
                return Err(MosaicError::Validation(owned("--output is required when --render png")));
            }
            Ok(QrRenderPlan::Png { output: path })
        },
    }
}

/// The documentation topics and where each is found.
pub open spec fn doc_topics() -> Seq<(Seq<char>, Seq<char>)> {
    seq![
        ("cli"@, "cli/README.md"@),
        ("channels"@, "cli/docs/channels-slack.md"@),
        ("gateway"@, "cli/docs/gateway-ops.md"@),
        ("mcp"@, "cli/docs/mcp.md"@),
        ("knowledge"@, "cli/docs/knowledge.md"@),
        ("beta"@, "cli/docs/beta-release.md"@),
        ("distribution"@, "cli/docs/distribution.md"@),
        ("observability"@, "cli/docs/observability.md"@),
        ("security"@, "cli/docs/security-audit.md"@),
        ("approvals"@, "cli/docs/sandbox-approvals.md"@),
        ("safety"@, "cli/docs/sandbox-approvals.md"@),
        ("memory"@, "cli/docs/memory.md"@),
        ("agents"@, "cli/docs/agents.md"@),
        ("regression"@, "cli/docs/regression-runbook.md"@),
        ("progress"@, "cli/docs/progress.md"@),
        ("worklog"@, "WORKLOG.md"@),
    ]
}

/// The documentation topics, in order.
pub fn doc_topic_list() -> (out: Vec<(String, String)>)
    ensures
        out@.map_values(|p: (String, String)| (p.0@, p.1@)) == doc_topics(),
{
    let mut out: Vec<(String, String)> = Vec::new();
    out.push((owned("cli"), owned("cli/README.md")));
    out.push((owned("channels"), owned("cli/docs/channels-slack.md")));
    out.push((owned("gateway"), owned("cli/docs/gateway-ops.md")));
    out.push((owned("mcp"), owned("cli/docs/mcp.md")));
    out.push((owned("knowledge"), owned("cli/docs/knowledge.md")));
    out.push((owned("beta"), owned("cli/docs/beta-release.md")));
    out.push((owned("distribution"), owned("cli/docs/distribution.md")));
    out.push((owned("observability"), owned("cli/docs/observability.md")));
    out.push((owned("security"), owned("cli/docs/security-audit.md")));
    out.push((owned("approvals"), owned("cli/docs/sandbox-approvals.md")));
    out.push((owned("safety"), owned("cli/docs/sandbox-approvals.md")));
    out.push((owned("memory"), owned("cli/docs/memory.md")));
    out.push((owned("agents"), owned("cli/docs/agents.md")));
    out.push((owned("regression"), owned("cli/docs/regression-runbook.md")));
    out.push((owned("progress"), owned("cli/docs/progress.md")));
    out.push((owned("worklog"), owned("WORKLOG.md")));
    assert(out@.map_values(|p: (String, String)| (p.0@, p.1@)) =~= doc_topics());
    out
}

/// `i` is the first topic named `t`.
pub open spec fn first_topic_at(topics: Seq<(Seq<char>, Seq<char>)>, t: Seq<char>, i: int) -> bool {
    &&& 0 <= i < topics.len()
    &&& topics[i].0 == t
    &&& forall|j: int| 0 <= j < i ==> (#[trigger] topics[j]).0 != t
}

/// The topic a name asks for (trimmed, ASCII case ignored) and its place.
pub fn resolve_doc_topic(topic: &str) -> (out: Result<(String, String), MosaicError>)
    ensures
        match out {
            Ok((t, u)) => exists|i: int| first_topic_at(doc_topics(), ascii_lower(trim(topic@)), i)
                && doc_topics()[i] == (t@, u@),
            Err(e) => (forall|i: int| 0 <= i < doc_topics().len() ==> (#[trigger] doc_topics()[i]).0
                != ascii_lower(trim(topic@))) && fails_with(
                Err::<(), MosaicError>(e),
                "unknown docs topic '"@ + topic@ + "'. run `mosaic docs` to list topics"@,
            ),
        },
{
    let normalized = ascii_lowercase(trim_str(topic).as_str());
    let topics = doc_topic_list();
    let ghost ts = topics@.map_values(|p: (String, String)| (p.0@, p.1@));
    let mut i: usize = 0;
    while i < topics.len()
        invariant
            i <= topics.len(),
            ts == topics@.map_values(|p: (String, String)| (p.0@, p.1@)),
            ts == doc_topics(),
            normalized@ == ascii_lower(trim(topic@)),
            forall|j: int| 0 <= j < i ==> (#[trigger] ts[j]).0 != normalized@,
        decreases topics.len() - i,
    {
        if str_eq(topics[i].0.as_str(), normalized.as_str()) {
            let t = topics[i].0.clone();
            let u = topics[i].1.clone();
            assert(first_topic_at(ts, normalized@, i as int));
            return Ok((t, u));
        }
        i += 1;
    }
    Err(MosaicError::Validation(cat3("unknown docs topic '", topic, "'. run `mosaic docs` to list topics")))
}

/// The distinct resolved addresses of `host:port`, sorted; none is an
/// error.
pub fn dns_addresses(target: &str, ips: &Vec<String>) -> (out: Result<Vec<String>, MosaicError>)
    ensures
        ips@.len() == 0 ==> (out matches Err(MosaicError::Network(m)) && m@
            == "dns resolution returned no addresses for '"@ + target@ + "'"@),
        ips@.len() > 0 ==> (out matches Ok(a) && sorted_set_of(views(a@), views(ips@))),
{
    if ips.len() == 0 {
        return Err(MosaicError::Network(cat3("dns resolution returned no addresses for '", target, "'")));
    }
    let out = sorted_distinct_texts(ips);
    Ok(out)
}

} // verus!
