//! The parts of an absolute URL that the library reads, as plain values.
use vstd::prelude::*;
use crate::text::all_ascii;

verus! {

/// The scheme, host, path and query pairs of a parsed URL.
#[derive(Debug, Clone)]
pub struct UrlParts {
    pub scheme: String,
    pub host: Option<String>,
    pub path: String,
    pub query: Vec<(String, String)>,
}

/// The view of a parsed URL: scheme, host, path and decoded query pairs.
pub type UrlView = (Seq<char>, Option<Seq<char>>, Seq<char>, Seq<(Seq<char>, Seq<char>)>);

/// What `url::Url::parse` (re-exported as `reqwest::Url`) yields for an input:
/// the URL's parts, or the text of its parse error.
pub uninterp spec fn parsed_url(input: Seq<char>) -> Result<UrlView, Seq<char>>;

impl UrlParts {
    pub open spec fn view_parts(&self) -> UrlView {
        (
            self.scheme@,
            match self.host {
                Some(h) => Some(h@),
                None => None,
            },
            self.path@,
            self.query@.map_values(|p: (String, String)| (p.0@, p.1@)),
        )
    }
}

/// Parses an absolute URL with `reqwest::Url::parse` and reads back its
/// scheme (`Url::scheme`), host (`Url::host_str`), path (`Url::path`) and
/// query pairs (`Url::query_pairs`).  The contract names the result and
/// states what the crate's documentation gives: the scheme, host and path are
/// ASCII strings (the host punycode-encoded, the path percent-encoded).
#[verifier::external_body]
pub(crate) fn parse_url(input: &str) -> (out: Result<UrlParts, String>)
    ensures
        match out {
            Ok(p) => {
                &&& parsed_url(input@) == Ok::<UrlView, Seq<char>>(p.view_parts())
                &&& all_ascii(p.scheme@)
                &&& all_ascii(p.path@)
                &&& (p.host matches Some(h) ==> all_ascii(h@))
            },
            Err(e) => parsed_url(input@) == Err::<UrlView, Seq<char>>(e@),
        },
{
    match reqwest::Url::parse(input) {
        Ok(url) => Ok(UrlParts {
            scheme: url.scheme().to_string(),
            host: url.host_str().map(|h| h.to_string()),
            path: url.path().to_string(),
            query: url.query_pairs().map(|(k, v)| (k.into_owned(), v.into_owned())).collect(),
        }),
        Err(err) => Err(err.to_string()),
    }
}

} // verus!
