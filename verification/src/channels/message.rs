//! Message rendering: parse modes, templates and previews.
use vstd::prelude::*;
use crate::error::MosaicError;
use crate::sorting::{Ordered, is_sorted, lemma_text_le_total, lemma_text_le_trans, sort_stable, stable_sort, text_le, text_le_exec};
use crate::text::{
    cat, cat3, chars_of, is_blank, normalize_optional, normalized_opt, opt_view, owned, str_eq,
    string_of, to_lowercase, trim, trim_str, lowercase,
};

verus! {

/// The longest preview of a message kept in delivery logs.
pub const TEXT_PREVIEW_LIMIT: usize = 120;

/// The first `max_chars` characters of `s`, followed by `...` when `s` is
/// longer.
pub open spec fn truncated(s: Seq<char>, max_chars: nat) -> Seq<char> {
    if s.len() > max_chars {
        s.take(max_chars as int) + "..."@
    } else {
        s
    }
}

/// Truncates `text` to `max_chars` characters, marking the cut with `...`.
pub fn truncate_text(text: &str, max_chars: usize) -> (out: String)
    ensures
        out@ == truncated(text@, max_chars as nat),
{
    let v = chars_of(text);
    if v.len() <= max_chars {
        return owned(text);
    }
    let mut head: Vec<char> = Vec::new();
    let mut i: usize = 0;
    while i < max_chars
        invariant
            i <= max_chars < v.len(),
            head@ == v@.take(i as int),
        decreases max_chars - i,
    {
        head.push(v[i]);
        i += 1;
    }
    let h = string_of(head.as_slice());
    cat(h.as_str(), "...")
}

/// Telegram's parse mode named by `lower` (a lower-cased name), if any.
pub open spec fn parse_mode_name(lower: Seq<char>) -> Option<Seq<char>> {
    if lower == "markdown"@ {
        Some("Markdown"@)
    } else if lower == "markdownv2"@ || lower == "markdown_v2"@ || lower == "mdv2"@ {
        Some("MarkdownV2"@)
    } else if lower == "html"@ {
        Some("HTML"@)
    } else {
        None
    }
}

/// What normalizing the requested parse mode `parse_mode` for a channel of
/// kind `kind` yields.
pub open spec fn parse_mode_outcome(
    parse_mode: Option<Seq<char>>,
    kind: Seq<char>,
    out: Result<Option<String>, MosaicError>,
) -> bool {
    match normalized_opt(parse_mode) {
        None => out matches Ok(None),
        Some(pm) => if kind != "telegram_bot"@ {
            &&& out matches Err(MosaicError::Validation(m))
            &&& m@ == "--parse-mode is only supported for telegram_bot channels"@
        } else {
            match parse_mode_name(lowercase(pm)) {
                Some(name) => {
                    &&& out matches Ok(Some(n))
                    &&& n@ == name
                },
                None => {
                    &&& out matches Err(MosaicError::Validation(m))
                    &&& m@ == "unsupported parse mode '"@ + pm
                        + "', expected markdown|markdown_v2|html"@
                },
            }
        },
    }
}

/// Normalizes a requested parse mode for a channel of kind `kind`: no mode
/// when none (or a blank one) is given; an error unless the channel is a
/// Telegram bot; else the canonical name of the mode.
pub fn normalize_parse_mode(parse_mode: Option<String>, kind: &str) -> (out: Result<
    Option<String>,
    MosaicError,
>)
    ensures
        parse_mode_outcome(opt_view(parse_mode), kind@, out),
{
    let pm = match normalize_optional(parse_mode) {
        None => return Ok(None),
        Some(p) => p,
    };
    if !str_eq(kind, "telegram_bot") {
        return Err(
            MosaicError::Validation(owned("--parse-mode is only supported for telegram_bot channels")),
        );
    }
    let lower = to_lowercase(pm.as_str());
    let l = lower.as_str();
    if str_eq(l, "markdown") {
        Ok(Some(owned("Markdown")))
    } else if str_eq(l, "markdownv2") || str_eq(l, "markdown_v2") || str_eq(l, "mdv2") {
        Ok(Some(owned("MarkdownV2")))
    } else if str_eq(l, "html") {
        Ok(Some(owned("HTML")))
    } else {
        Err(
            MosaicError::Validation(
                cat3("unsupported parse mode '", pm.as_str(), "', expected markdown|markdown_v2|html"),
            ),
        )
    }
}

/// A metadata value as a message template shows it: JSON `null`, a boolean,
/// a number or a compound value in its JSON rendering, or a string as is.
#[derive(Debug)]
pub enum MetadataValue {
    Null,
    Bool(bool),
    Number(String),
    Text(String),
    Compound(String),
}

/// One metadata field of a message.
#[derive(Debug)]
pub struct MetadataEntry {
    pub key: String,
    pub value: MetadataValue,
}

impl Ordered for MetadataEntry {
    open spec fn le_spec(&self, other: &Self) -> bool {
        text_le(self.key@, other.key@)
    }

    fn le_exec(&self, other: &Self) -> (b: bool) {
        text_le_exec(self.key.as_str(), other.key.as_str())
    }

    proof fn le_total(a: &Self, b: &Self) {
        lemma_text_le_total(a.key@, b.key@);
    }

    proof fn le_trans(a: &Self, b: &Self, c: &Self) {
        lemma_text_le_trans(a.key@, b.key@, c.key@);
    }
}

/// How a metadata value reads in a message.
pub open spec fn metadata_text(v: MetadataValue) -> Seq<char> {
    match v {
        MetadataValue::Null => "null"@,
        MetadataValue::Bool(b) => if b {
            "true"@
        } else {
            "false"@
        },
        MetadataValue::Number(s) => s@,
        MetadataValue::Text(s) => s@,
        MetadataValue::Compound(s) => s@,
    }
}

/// Renders a metadata value for a message.
pub fn format_metadata_value(v: &MetadataValue) -> (out: String)
    ensures
        out@ == metadata_text(*v),
{
    match v {
        MetadataValue::Null => owned("null"),
        MetadataValue::Bool(b) => if *b {
            owned("true")
        } else {
            owned("false")
        },
        MetadataValue::Number(s) => s.clone(),
        MetadataValue::Text(s) => s.clone(),
        MetadataValue::Compound(s) => s.clone(),
    }
}

/// The pieces of `parts` joined with `sep` between them.
pub open spec fn join(parts: Seq<Seq<char>>, sep: Seq<char>) -> Seq<char>
    decreases parts.len(),
{
    if parts.len() == 0 {
        Seq::<char>::empty()
    } else if parts.len() == 1 {
        parts[0]
    } else {
        join(parts.drop_last(), sep) + sep + parts.last()
    }
}

/// Joins strings with a separator (`[String]::join`).
pub fn join_strings(parts: &Vec<String>, sep: &str) -> (out: String)
    ensures
        out@ == join(parts@.map_values(|p: String| p@), sep@),
{
    let ghost views = parts@.map_values(|p: String| p@);
    let mut out = String::new();
    let mut i: usize = 0;
    while i < parts.len()
        invariant
            i <= parts.len(),
            views == parts@.map_values(|p: String| p@),
            out@ == join(views.take(i as int), sep@),
        decreases parts.len() - i,
    {
        proof {
            assert(views.take(i + 1).drop_last() =~= views.take(i as int));
            assert(views.take(i + 1).last() == parts@[i as int]@);
            if i == 0 {
                assert(views.take(1) =~= seq![parts@[0]@]);
            }
        }
        if i > 0 {
            out.append(sep);
        }
        out.append(parts[i].as_str());
        i += 1;
    }
    assert(views.take(parts.len() as int) =~= views);
    out
}

/// The trimmed non-blank blocks, in order.
pub open spec fn nonblank_trimmed(blocks: Seq<Seq<char>>) -> Seq<Seq<char>>
    decreases blocks.len(),
{
    if blocks.len() == 0 {
        Seq::<Seq<char>>::empty()
    } else if trim(blocks.last()).len() == 0 {
        nonblank_trimmed(blocks.drop_last())
    } else {
        nonblank_trimmed(blocks.drop_last()).push(trim(blocks.last()))
    }
}

/// The `key: value` line of a metadata field.
pub open spec fn metadata_line(e: MetadataEntry) -> Seq<char> {
    e.key@ + ": "@ + metadata_text(e.value)
}

/// The segments of a rendered message: the title, the non-blank blocks, the
/// metadata lines sorted by key, and the trimmed text.
pub open spec fn template_segments(
    text: Seq<char>,
    title: Option<Seq<char>>,
    blocks: Seq<Seq<char>>,
    metadata: Option<Seq<MetadataEntry>>,
) -> Seq<Seq<char>> {
    let t = match title {
        Some(t) => if trim(t).len() == 0 {
            Seq::<Seq<char>>::empty()
        } else {
            seq![trim(t)]
        },
        None => Seq::<Seq<char>>::empty(),
    };
    let m = match metadata {
        Some(md) => if md.len() == 0 {
            Seq::<Seq<char>>::empty()
        } else {
            seq![join(stable_sort(md).map_values(|e: MetadataEntry| metadata_line(e)), "\n"@)]
        },
        None => Seq::<Seq<char>>::empty(),
    };
    t + nonblank_trimmed(blocks) + m + seq![trim(text)]
}

pub open spec fn opt_entries_view(m: Option<Vec<MetadataEntry>>) -> Option<Seq<MetadataEntry>> {
    match m {
        Some(md) => Some(md@),
        None => None,
    }
}

/// Renders a message from its text, optional title, blocks and metadata
/// fields, separating the segments with blank lines.
pub fn render_message_template(
    text: &str,
    title: Option<&str>,
    blocks: &Vec<String>,
    metadata: Option<Vec<MetadataEntry>>,
) -> (out: String)
    ensures
        out@ == join(
            template_segments(
                text@,
                crate::channels::kinds::opt_str_view(title),
                blocks@.map_values(|b: String| b@),
                opt_entries_view(metadata),
            ),
            "\n\n"@,
        ),
{
    let ghost bviews = blocks@.map_values(|b: String| b@);
    let mut segments: Vec<String> = Vec::new();
    let ghost tseg = match title {
        Some(t) => if trim(t@).len() == 0 {
            Seq::<Seq<char>>::empty()
        } else {
            seq![trim(t@)]
        },
        None => Seq::<Seq<char>>::empty(),
    };
    match title {
        Some(t) => {
            let tt = trim_str(t);
            if !tt.as_str().is_empty() {
                segments.push(tt);
            }
        },
        None => {},
    }
    assert(segments@.map_values(|p: String| p@) =~= tseg);
    let mut i: usize = 0;
    while i < blocks.len()
        invariant
            i <= blocks.len(),
            bviews == blocks@.map_values(|b: String| b@),
            segments@.map_values(|p: String| p@) == tseg + nonblank_trimmed(
                bviews.take(i as int),
            ),
        decreases blocks.len() - i,
    {
        proof {
            assert(bviews.take(i + 1).drop_last() =~= bviews.take(i as int));
            assert(bviews.take(i + 1).last() == blocks@[i as int]@);
        }
        let b = trim_str(blocks[i].as_str());
        if !b.as_str().is_empty() {
            assert(nonblank_trimmed(bviews.take(i + 1)) == nonblank_trimmed(
                bviews.take(i as int),
            ).push(b@));
            let ghost prev = segments@;
            segments.push(b);
            assert(segments@.map_values(|p: String| p@) =~= prev.map_values(|p: String| p@).push(
                trim(blocks@[i as int]@),
            ));
            assert(segments@.map_values(|p: String| p@) =~= tseg + nonblank_trimmed(
                bviews.take(i + 1),
            ));
        } else {
            assert(segments@.map_values(|p: String| p@) =~= tseg + nonblank_trimmed(
                bviews.take(i + 1),
            ));
        }
        i += 1;
    }
    assert(bviews.take(blocks.len() as int) =~= bviews);
    let ghost before_md = segments@.map_values(|p: String| p@);
    let ghost md_view = opt_entries_view(metadata);
    match metadata {
        Some(md) => {
            if md.len() > 0 {
                let sorted = sort_stable(md);
                let mut lines: Vec<String> = Vec::new();
                let mut k: usize = 0;
                while k < sorted.len()
                    invariant
                        k <= sorted.len(),
                        lines@.map_values(|p: String| p@) == sorted@.take(k as int).map_values(
                            |e: MetadataEntry| metadata_line(e),
                        ),
                    decreases sorted.len() - k,
                {
                    let value = format_metadata_value(&sorted[k].value);
                    let line = cat3(sorted[k].key.as_str(), ": ", value.as_str());
                    assert(line@ == metadata_line(sorted@[k as int]));
                    let ghost prevl = lines@;
                    lines.push(line);
                    assert(lines@.map_values(|p: String| p@) =~= prevl.map_values(|p: String| p@).push(
                        metadata_line(sorted@[k as int]),
                    ));
                    assert(sorted@.take(k + 1).map_values(|e: MetadataEntry| metadata_line(e))
                        =~= sorted@.take(k as int).map_values(|e: MetadataEntry| metadata_line(e)).push(
                        metadata_line(sorted@[k as int]),
                    ));
                    proof {
                        assert(lines@.map_values(|p: String| p@) =~= sorted@.take(k + 1).map_values(
                            |e: MetadataEntry| metadata_line(e),
                        ));
                    }
                    k += 1;
                }
                assert(sorted@.take(sorted.len() as int) =~= sorted@);
                let joined = join_strings(&lines, "\n");
                segments.push(joined);
            }
        },
        None => {},
    }
    let tt = trim_str(text);
    segments.push(tt);
    let ghost mseg = match md_view {
        Some(md) => if md.len() == 0 {
            Seq::<Seq<char>>::empty()
        } else {
            seq![join(stable_sort(md).map_values(|e: MetadataEntry| metadata_line(e)), "\n"@)]
        },
        None => Seq::<Seq<char>>::empty(),
    };
    assert(segments@.map_values(|p: String| p@) =~= before_md + mseg + seq![trim(text@)]);
    join_strings(&segments, "\n\n")
}

} // verus!
