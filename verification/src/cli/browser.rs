//! The browser runtime's records: visits kept in a history, the runtime's
//! state, and the pages of `mock://` addresses.
use vstd::prelude::*;
use crate::automation::registry::{
    Identified, first_record_at, has_record, lemma_without_record_len, position_of, remove_with_id,
    without_record,
};
use crate::error::{MosaicError, fails_with};
use crate::sorting::{Ordered, sorted_tail, stable_sort, tail_of};
use crate::text::{opt_view, cat, cat3, decimal, eq_ignore_ascii_case, ascii_lower, owned, parse_unsigned, parse_unsigned_exec, str_eq, u64_to_string};
use crate::weburl::{UrlParts, UrlView, parse_url, parsed_url};

verus! {

/// One page visit: its id, time (milliseconds since the epoch), address and
/// what was fetched.
#[derive(Debug, Clone)]
pub struct BrowserVisit {
    pub id: String,
    pub ts: i64,
    pub url: String,
    pub ok: bool,
    pub http_status: Option<u16>,
    pub title: Option<String>,
    pub content_type: Option<String>,
    pub content_length: Option<usize>,
    pub preview: Option<String>,
    pub error: Option<String>,
}

impl Identified for BrowserVisit {
    open spec fn id_view(&self) -> Seq<char> {
        self.id@
    }

    fn id_str(&self) -> (s: &str) {
        self.id.as_str()
    }
}

impl Ordered for BrowserVisit {
    open spec fn le_spec(&self, other: &Self) -> bool {
        self.ts <= other.ts
    }

    fn le_exec(&self, other: &Self) -> (b: bool) {
        self.ts <= other.ts
    }

    proof fn le_total(a: &Self, b: &Self) {
    }

    proof fn le_trans(a: &Self, b: &Self, c: &Self) {
    }
}

/// Whether the browser runtime runs, when it last started and stopped, and
/// the visit in focus.
#[derive(Debug, Clone)]
pub struct BrowserRuntimeState {
    pub running: bool,
    pub started_at: Option<i64>,
    pub stopped_at: Option<i64>,
    pub active_visit_id: Option<String>,
}

impl BrowserRuntimeState {
    /// Starts the runtime at `now`; a running one keeps its start time.
    pub fn start(&mut self, now: i64)
        ensures
            final(self).running,
            final(self).started_at == (if old(self).running { old(self).started_at } else { Some(now) }),
            final(self).stopped_at == old(self).stopped_at,
            final(self).active_visit_id == old(self).active_visit_id,
    {
        if !self.running {
            self.running = true;
            self.started_at = Some(now);
        }
    }

    /// Stops the runtime at `now`.
    pub fn stop(&mut self, now: i64)
        ensures
            !final(self).running,
            final(self).stopped_at == Some(now),
            final(self).started_at == old(self).started_at,
            final(self).active_visit_id == old(self).active_visit_id,
    {
        self.running = false;
        self.stopped_at = Some(now);
    }
}

/// A page fetch must be given a positive time limit.
pub fn validate_browser_timeout(timeout_ms: u64) -> (out: Result<(), MosaicError>)
    ensures
        timeout_ms > 0 ==> out is Ok,
        timeout_ms == 0 ==> fails_with(out, "--timeout-ms must be greater than 0"@),
{
    if timeout_ms == 0 {
        Err(MosaicError::Validation(owned("--timeout-ms must be greater than 0")))
    } else {
        Ok(())
    }
}

/// The visits ordered by time (equal times kept in order), the last `tail`
/// of them.
pub fn sorted_tail_visits(visits: Vec<BrowserVisit>, tail: usize) -> (out: Vec<BrowserVisit>)
    ensures
        out@ == tail_of(stable_sort(visits@), tail as nat),
{
    sorted_tail(visits, tail)
}

/// `i` is the position of the latest visit: none is later, and every visit
/// after it is earlier (the last of equally late ones).
pub open spec fn latest_at(s: Seq<BrowserVisit>, i: int) -> bool {
    &&& 0 <= i < s.len()
    &&& forall|j: int| 0 <= j < s.len() ==> (#[trigger] s[j]).ts <= s[i].ts
    &&& forall|j: int| i < j < s.len() ==> (#[trigger] s[j]).ts < s[i].ts
}

/// The position of the latest visit, the last of equally late ones.
pub fn latest_visit(history: &Vec<BrowserVisit>) -> (out: Option<usize>)
    ensures
        match out {
            Some(i) => latest_at(history@, i as int),
            None => history@.len() == 0,
        },
{
    if history.len() == 0 {
        return None;
    }
    let mut best: usize = 0;
    let mut i: usize = 1;
    while i < history.len()
        invariant
            1 <= i <= history.len(),
            best < i,
            forall|j: int| 0 <= j < i ==> (#[trigger] history@[j]).ts <= history@[best as int].ts,
            forall|j: int| best < j < i ==> (#[trigger] history@[j]).ts < history@[best as int].ts,
        decreases history.len() - i,
    {
        if history[i].ts >= history[best].ts {
            best = i;
        }
        i += 1;
    }
    Some(best)
}

/// The message for an unknown visit id.
pub open spec fn visit_not_found(id: Seq<char>) -> Seq<char> {
    "visit '"@ + id + "' not found"@
}

/// The position of the first visit with the id `visit_id`.
pub fn find_visit_by_id(history: &Vec<BrowserVisit>, visit_id: &str) -> (out: Result<
    usize,
    MosaicError,
>)
    ensures
        match out {
            Ok(i) => first_record_at(history@, visit_id@, i as int),
            Err(e) => !has_record(history@, visit_id@) && fails_with(
                Err::<(), MosaicError>(e),
                visit_not_found(visit_id@),
            ),
        },
{
    match position_of(history, visit_id) {
        Some(i) => Ok(i),
        None => Err(MosaicError::Validation(cat3("visit '", visit_id, "' not found"))),
    }
}

/// The message when the history is empty.
pub open spec fn no_visits_message() -> Seq<char> {
    "no browser visits available; run `mosaic browser open --url <...>` first"@
}

/// The visit a snapshot shows: the one named, else the visit in focus if it
/// is still there, else the latest one.
pub fn resolve_snapshot_visit(
    history: &Vec<BrowserVisit>,
    visit_id: Option<&str>,
    active_visit_id: Option<&str>,
) -> (out: Result<usize, MosaicError>)
    ensures
        history@.len() == 0 ==> fails_with(out, no_visits_message()),
        history@.len() > 0 ==> match visit_id {
            Some(id) => match out {
                Ok(i) => first_record_at(history@, id@, i as int),
                Err(e) => !has_record(history@, id@) && fails_with(
                    Err::<(), MosaicError>(e),
                    visit_not_found(id@),
                ),
            },
            None => match active_visit_id {
                Some(a) if has_record(history@, a@) => out matches Ok(i) && first_record_at(
                    history@,
                    a@,
                    i as int,
                ),
                _ => out matches Ok(i) && latest_at(history@, i as int),
            },
        },
{
    if history.len() == 0 {
        return Err(MosaicError::Validation(owned(
            "no browser visits available; run `mosaic browser open --url <...>` first",
        )));
    }
    if let Some(id) = visit_id {
        return find_visit_by_id(history, id);
    }
    if let Some(active) = active_visit_id {
        if let Ok(found) = find_visit_by_id(history, active) {
            return Ok(found);
        }
    }
    match latest_visit(history) {
        Some(i) => Ok(i),
        None => Err(MosaicError::Validation(owned("no browser visits available"))),
    }
}

/// The visit in focus once visits are closed: a focus on a visit that is
/// gone moves to the last remaining one (or to none).
pub open spec fn active_after_close(
    active: Option<Seq<char>>,
    rest: Seq<BrowserVisit>,
    removed: bool,
) -> Option<Seq<char>> {
    match active {
        Some(a) => if removed && !has_record(rest, a) {
            if rest.len() > 0 {
                Some(rest.last().id@)
            } else {
                None
            }
        } else {
            active
        },
        None => None,
    }
}

/// Closes the visit `visit_id`, or all visits with `all` (exactly one of
/// the two); how many visits went.
pub fn close_visits(
    history: &mut Vec<BrowserVisit>,
    state: &mut BrowserRuntimeState,
    visit_id: Option<&str>,
    all: bool,
) -> (out: Result<usize, MosaicError>)
    ensures
        all && visit_id is Some ==> fails_with(out, "cannot set visit_id and --all together"@),
        !all && visit_id is None ==> fails_with(out, "specify visit_id or use --all"@),
        out is Err ==> final(history)@ == old(history)@ && *final(state) == *old(state),
        all && visit_id is None ==> {
            &&& out == Ok::<usize, MosaicError>(old(history)@.len() as usize)
            &&& final(history)@.len() == 0
            &&& final(state).active_visit_id is None
        },
        !all && visit_id is Some ==> {
            let id = visit_id->0@;
            let rest = without_record(old(history)@, id);
            &&& final(history)@ == rest
            &&& out == Ok::<usize, MosaicError>((old(history)@.len() - rest.len()) as usize)
            &&& opt_view(final(state).active_visit_id) == active_after_close(
                opt_view(old(state).active_visit_id),
                rest,
                rest.len() < old(history)@.len(),
            )
        },
        final(state).running == old(state).running,
        final(state).started_at == old(state).started_at,
        final(state).stopped_at == old(state).stopped_at,
{
    if all && visit_id.is_some() {
        return Err(MosaicError::Validation(owned("cannot set visit_id and --all together")));
    }
    match visit_id {
        None => {
            if !all {
                return Err(MosaicError::Validation(owned("specify visit_id or use --all")));
            }
            let removed = history.len();
            *history = Vec::new();
            state.active_visit_id = None;
            Ok(removed)
        },
        Some(id) => {
            let before = history.len();
            remove_with_id(history, id);
            proof {
                lemma_without_record_len(old(history)@, id@);
            }
            let removed = before - history.len();
            if removed > 0 {
                let stale = match &state.active_visit_id {
                    Some(a) => position_of(history, a.as_str()).is_none(),
                    None => false,
                };
                if stale {
                    if history.len() > 0 {
                        let last = history.len() - 1;
                        state.active_visit_id = Some(history[last].id.clone());
                    } else {
                        state.active_visit_id = None;
                    }
                }
            }
            Ok(removed)
        },
    }
}

/// `s` without its leading `/`s.
pub open spec fn strip_leading_slashes(s: Seq<char>) -> Seq<char>
    decreases s.len(),
{
    if s.len() > 0 && s[0] == '/' {
        strip_leading_slashes(s.drop_first())
    } else {
        s
    }
}

/// `s` without its leading `/`s (`str::trim_start_matches('/')`).
pub fn trim_leading_slashes(s: &str) -> (out: String)
    ensures
        out@ == strip_leading_slashes(s@),
{
    let v = crate::text::chars_of(s);
    let mut i: usize = 0;
    assert(v@.skip(0) =~= v@);
    while i < v.len() && v[i] == '/'
        invariant
            i <= v.len(),
            v@ == s@,
            strip_leading_slashes(s@) == strip_leading_slashes(v@.skip(i as int)),
        decreases v.len() - i,
    {
        assert(v@.skip(i as int).drop_first() =~= v@.skip(i + 1));
        i += 1;
    }
    let mut rest: Vec<char> = Vec::new();
    crate::ids::push_range(&mut rest, &v, i, v.len());
    proof {
        assert(rest@ =~= v@.skip(i as int));
    }
    crate::text::string_of(rest.as_slice())
}

/// The status a `mock://` address asks for: host `ok` gives 200, a numeric
/// host gives that number, host `status` gives the number in the path, and
/// anything else 200.
pub open spec fn mock_status(v: UrlView) -> u16 {
    match v.1 {
        Some(h) => if ascii_lower(h) == ascii_lower("ok"@) {
            200
        } else {
            match parse_unsigned(h, 65535) {
                Some(n) => n as u16,
                None => if ascii_lower(h) == ascii_lower("status"@) {
                    match parse_unsigned(strip_leading_slashes(v.2), 65535) {
                        Some(n) => n as u16,
                        None => 200,
                    }
                } else {
                    200
                },
            }
        },
        None => 200,
    }
}

/// The status a parsed `mock://` address asks for.
pub fn resolve_mock_browser_status(parts: &UrlParts) -> (status: u16)
    ensures
        status == mock_status(parts.view_parts()),
{
    match &parts.host {
        Some(host) => {
            if eq_ignore_ascii_case(host.as_str(), "ok") {
                return 200;
            }
            if let Some(code) = parse_unsigned_exec(host.as_str(), 65535) {
                return code as u16;
            }
            if eq_ignore_ascii_case(host.as_str(), "status") {
                let path = trim_leading_slashes(parts.path.as_str());
                if let Some(code) = parse_unsigned_exec(path.as_str(), 65535) {
                    return code as u16;
                }
            }
            200
        },
        None => 200,
    }
}

/// The value of the first query pair with the key `key`.
pub open spec fn first_query_value(q: Seq<(Seq<char>, Seq<char>)>, key: Seq<char>) -> Option<
    Seq<char>,
>
    decreases q.len(),
{
    if q.len() == 0 {
        None
    } else if q[0].0 == key {
        Some(q[0].1)
    } else {
        first_query_value(q.drop_first(), key)
    }
}

/// The title of a mock page: the `title` query value, else `Mock Page`.
pub open spec fn mock_title(v: UrlView) -> Seq<char> {
    match first_query_value(v.3, "title"@) {
        Some(t) => t,
        None => "Mock Page"@,
    }
}

/// The HTML of a mock page.
pub open spec fn mock_body(title: Seq<char>, status: u16) -> Seq<char> {
    "<html><head><title>"@ + title + "</title></head><body>mock browser response status "@
        + decimal(status as nat) + "</body></html>"@
}

/// A status counts as success in `200..300`.
pub open spec fn status_ok(status: u16) -> bool {
    200 <= status < 300
}

/// The error of a visit with an unsuccessful status.
pub open spec fn status_error(status: u16) -> Seq<char> {
    "http status "@ + decimal(status as nat)
}

/// The error a visit with this outcome records.
pub fn visit_error(ok: bool, status: u16) -> (out: Option<String>)
    ensures
        ok ==> out is None,
        !ok ==> (out matches Some(e) && e@ == status_error(status)),
{
    if ok {
        None
    } else {
        Some(cat("http status ", u64_to_string(status as u64).as_str()))
    }
}

/// The record of a visit whose page was read over HTTP with status
/// `status`: successful for a 2xx status (else the error `http status N`),
/// with the content type, the body's length in bytes, and the title and
/// preview taken from the body.
pub fn http_visit_record(
    id: String,
    ts: i64,
    url: String,
    status: u16,
    content_type: Option<String>,
    body: &str,
    title: Option<String>,
    preview: Option<String>,
) -> (v: BrowserVisit)
    ensures
        v.id == id && v.ts == ts && v.url == url,
        v.ok == status_ok(status),
        v.http_status == Some(status),
        v.title == title,
        v.content_type == content_type,
        v.content_length == Some(vstd::utf8::encode_utf8(body@).len() as usize),
        v.preview == preview,
        status_ok(status) ==> v.error is None,
        !status_ok(status) ==> (v.error matches Some(e) && e@ == status_error(status)),
{
    let ok = 200 <= status && status < 300;
    BrowserVisit {
        id,
        ts,
        url,
        ok,
        http_status: Some(status),
        title,
        content_type,
        content_length: Some(body.len()),
        preview,
        error: visit_error(ok, status),
    }
}

/// The record of a visit that failed before its page was read: the client
/// could not be built, the request failed (no status), or the body could
/// not be read (the status and content type known); `error` says which.
pub fn failed_http_visit(
    id: String,
    ts: i64,
    url: String,
    http_status: Option<u16>,
    content_type: Option<String>,
    error: String,
) -> (v: BrowserVisit)
    ensures
        v.id == id && v.ts == ts && v.url == url,
        !v.ok,
        v.http_status == http_status,
        v.title is None,
        v.content_type == content_type,
        v.content_length is None,
        v.preview is None,
        v.error == Some(error),
{
    BrowserVisit {
        id,
        ts,
        url,
        ok: false,
        http_status,
        title: None,
        content_type,
        content_length: None,
        preview: None,
        error: Some(error),
    }
}

/// What a `mock://` address serves.
#[derive(Debug, Clone)]
pub struct MockPage {
    pub status: u16,
    pub title: String,
    pub body: String,
    pub content_length: usize,
    pub ok: bool,
    pub error: Option<String>,
}

/// The page a parsed `mock://` address serves: its status, title, HTML and
/// the HTML's length in bytes.
pub fn browser_mock_page(parts: &UrlParts) -> (page: MockPage)
    ensures
        page.status == mock_status(parts.view_parts()),
        page.title@ == mock_title(parts.view_parts()),
        page.body@ == mock_body(page.title@, page.status),
        page.content_length == vstd::utf8::encode_utf8(page.body@).len() as usize,
        page.ok == status_ok(page.status),
        page.ok ==> page.error is None,
        !page.ok ==> (page.error matches Some(e) && e@ == status_error(page.status)),
{
    let status = resolve_mock_browser_status(parts);
    let ghost q = parts.view_parts().3;
    let mut found: Option<String> = None;
    let mut i: usize = 0;
    assert(q.skip(0) =~= q);
    while i < parts.query.len()
        invariant
            i <= parts.query.len(),
            q == parts.view_parts().3,
            match found {
                Some(t) => first_query_value(q, "title"@) == Some(t@),
                None => first_query_value(q, "title"@) == first_query_value(
                    q.skip(i as int),
                    "title"@,
                ),
            },
        decreases parts.query.len() - i,
    {
        assert(q.skip(i as int).drop_first() =~= q.skip(i + 1));
        assert(q.skip(i as int)[0] == q[i as int]);
        if found.is_none() && str_eq(parts.query[i].0.as_str(), "title") {
            found = Some(parts.query[i].1.clone());
        }
        i += 1;
    }
    let title = match found {
        Some(t) => t,
        None => {
            proof {
                assert(q.skip(i as int).len() == 0);
            }
            owned("Mock Page")
        },
    };
    let status_text = u64_to_string(status as u64);
    let body = crate::text::cat5(
        "<html><head><title>",
        title.as_str(),
        "</title></head><body>mock browser response status ",
        status_text.as_str(),
        "</body></html>",
    );
    let content_length = body.as_str().len();
    let ok = 200 <= status && status < 300;
    let error = visit_error(ok, status);
    MockPage { status, title, body, content_length, ok, error }
}

/// How a visit is made: a mock page, or a fetch over HTTP(S).
#[derive(Debug, Clone)]
pub enum VisitTarget {
    Mock(UrlParts),
    Http(UrlParts),
}

/// The message for a browser address that does not parse.
pub open spec fn invalid_url_message(url: Seq<char>, err: Seq<char>) -> Seq<char> {
    "invalid browser url '"@ + url + "': "@ + err
}

/// The message for a scheme that is neither `http`, `https` nor `mock`.
pub open spec fn unsupported_scheme_message(scheme: Seq<char>) -> Seq<char> {
    "unsupported browser url scheme '"@ + scheme + "', expected http/https/mock"@
}

/// Parses a browser address (`reqwest::Url::parse`) and tells a mock page
/// from an HTTP(S) fetch by its scheme.
pub fn browser_visit_target(url: &str) -> (out: Result<VisitTarget, MosaicError>)
    ensures
        match parsed_url(url@) {
            Err(e) => fails_with(out, invalid_url_message(url@, e)),
            Ok(v) => if v.0 == "mock"@ {
                out matches Ok(VisitTarget::Mock(p)) && p.view_parts() == v
            } else if v.0 == "http"@ || v.0 == "https"@ {
                out matches Ok(VisitTarget::Http(p)) && p.view_parts() == v
            } else {
                fails_with(out, unsupported_scheme_message(v.0))
            },
        },
{
    match parse_url(url) {
        Err(e) => {
            let mut m = cat3("invalid browser url '", url, "': ");
            m.append(e.as_str());
            Err(MosaicError::Validation(m))
        },
        Ok(parts) => {
            if str_eq(parts.scheme.as_str(), "mock") {
                Ok(VisitTarget::Mock(parts))
            } else if str_eq(parts.scheme.as_str(), "http") || str_eq(parts.scheme.as_str(), "https") {
                Ok(VisitTarget::Http(parts))
            } else {
                Err(MosaicError::Validation(cat3(
                    "unsupported browser url scheme '",
                    parts.scheme.as_str(),
                    "', expected http/https/mock",
                )))
            }
        },
    }
}

/// `true` or `false`, as `bool::to_string` writes it.
pub open spec fn bool_text(b: bool) -> Seq<char> {
    if b {
        "true"@
    } else {
        "false"@
    }
}

/// The status of a visit as text: its number, or `-`.
pub open spec fn status_text(s: Option<u16>) -> Seq<char> {
    match s {
        Some(n) => decimal(n as nat),
        None => "-"@,
    }
}

/// An optional text, or `-`.
pub open spec fn or_dash(s: Option<String>) -> Seq<char> {
    match s {
        Some(t) => t@,
        None => "-"@,
    }
}

/// The text artifact a browser screenshot writes for a visit whose time is
/// shown as `ts_text`.
pub open spec fn screenshot_text(v: BrowserVisit, ts_text: Seq<char>) -> Seq<char> {
    "MOSAIC_BROWSER_SCREENSHOT_V1\nvisit_id="@ + v.id@ + "\nts="@ + ts_text + "\nurl="@ + v.url@
        + "\nok="@ + bool_text(v.ok) + "\nstatus="@ + status_text(v.http_status) + "\ntitle="@
        + or_dash(v.title) + "\npreview="@ + or_dash(v.preview) + "\n"@
}

fn bool_string(b: bool) -> (out: String)
    ensures
        out@ == bool_text(b),
{
    if b {
        owned("true")
    } else {
        owned("false")
    }
}

fn dash_or(s: &Option<String>) -> (out: String)
    ensures
        out@ == or_dash(*s),
{
    match s {
        Some(t) => t.clone(),
        None => owned("-"),
    }
}

/// The screenshot artifact of a visit, its time written in RFC 3339
/// (`DateTime::to_rfc3339`); `None` where chrono cannot represent the time.
pub fn screenshot_payload(visit: &BrowserVisit) -> (out: Option<String>)
    ensures
        match crate::ids::rfc3339_text(visit.ts) {
            Some(t) => out matches Some(p) && p@ == screenshot_text(*visit, t),
            None => out is None,
        },
{
    let ts = match crate::ids::rfc3339_of_millis(visit.ts) {
        Some(t) => t,
        None => return None,
    };
    let status = match visit.http_status {
        Some(n) => u64_to_string(n as u64),
        None => owned("-"),
    };
    let title = dash_or(&visit.title);
    let preview = dash_or(&visit.preview);
    let okt = bool_string(visit.ok);
    let mut out = owned("MOSAIC_BROWSER_SCREENSHOT_V1\nvisit_id=");
    out.append(visit.id.as_str());
    out.append("\nts=");
    out.append(ts.as_str());
    out.append("\nurl=");
    out.append(visit.url.as_str());
    out.append("\nok=");
    out.append(okt.as_str());
    out.append("\nstatus=");
    out.append(status.as_str());
    out.append("\ntitle=");
    out.append(title.as_str());
    out.append("\npreview=");
    out.append(preview.as_str());
    out.append("\n");
    proof {
        reveal_strlit("-");
        assert(out@ =~= screenshot_text(*visit, ts@));
    }
    Some(out)
}

/// Where a screenshot goes: the path given (taken from `cwd` when relative),
/// else `<data_dir>/browser-screenshots/<visit id>.txt`.
pub fn screenshot_output_path(out: Option<&str>, cwd: &str, data_dir: &str, visit_id: &str) -> (p: String)
    ensures
        p@ == match out {
            Some(o) => if o@.len() > 0 && o@[0] == '/' {
                o@
            } else {
                crate::paths::join_path(cwd@, o@)
            },
            None => crate::paths::join_path(
                crate::paths::join_path(data_dir@, "browser-screenshots"@),
                visit_id@ + ".txt"@,
            ),
        },
{
    match out {
        Some(o) => {
            let v = crate::text::chars_of(o);
            if v.len() > 0 && v[0] == '/' {
                owned(o)
            } else {
                crate::paths::join(cwd, o)
            }
        },
        None => {
            let dir = crate::paths::join(data_dir, "browser-screenshots");
            let name = cat(visit_id, ".txt");
            crate::paths::join(dir.as_str(), name.as_str())
        },
    }
}

/// Records a new visit and puts it in focus.
pub fn record_visit(history: &mut Vec<BrowserVisit>, state: &mut BrowserRuntimeState, visit: BrowserVisit)
    ensures
        final(history)@ == old(history)@.push(visit),
        opt_view(final(state).active_visit_id) == Some(visit.id@),
        final(state).running == old(state).running,
        final(state).started_at == old(state).started_at,
        final(state).stopped_at == old(state).stopped_at,
{
    state.active_visit_id = Some(visit.id.clone());
    history.push(visit);
}

/// Puts the first visit with the id `visit_id` in focus; its position.
pub fn focus_visit(history: &Vec<BrowserVisit>, state: &mut BrowserRuntimeState, visit_id: &str) -> (out:
    Result<usize, MosaicError>)
    ensures
        match out {
            Ok(i) => first_record_at(history@, visit_id@, i as int) && opt_view(
                final(state).active_visit_id,
            ) == Some(visit_id@),
            Err(e) => !has_record(history@, visit_id@) && fails_with(
                Err::<(), MosaicError>(e),
                visit_not_found(visit_id@),
            ) && *final(state) == *old(state),
        },
        final(state).running == old(state).running,
        final(state).started_at == old(state).started_at,
        final(state).stopped_at == old(state).stopped_at,
{
    let i = find_visit_by_id(history, visit_id)?;
    state.active_visit_id = Some(history[i].id.clone());
    Ok(i)
}

} // verus!
