//! Playlist candidates captured by the extraction browser, and checking a candidate.
use vstd::prelude::*;
use crate::headers::{
    merge_headers, request_headers_line, spec_merge_headers, spec_request_headers_line,
    RequestHeaders,
};
use crate::hls::{playlist_kind, spec_playlist_kind};
use crate::json::{json_get, json_get_str, json_parse, json_view, json_views, lemma_json_views, parse_json, view_array, view_get, view_str, JsonValue, JsonView};
use crate::messages::{command_tail, response_preview, spec_command_tail, spec_response_preview};
use crate::names::{sanitize_file_stem, spec_sanitize_file_stem};
use crate::settings::BrowserLaunchMode;
use crate::text::{chars_of, clone_opt, decimal, decimal_chars, opt_view, push_all, push_chars, string_of, trim, trim_chars, views};
use crate::urls::{url_join, WebUrl};

verus! {

/// The string fields of a captured candidate object (`None` where a field is missing
/// or is not a string).
#[derive(Debug)]
pub struct CandidateFields {
    pub url: Option<String>,
    pub referer: Option<String>,
    pub origin: Option<String>,
    pub cookie: Option<String>,
    pub user_agent: Option<String>,
    pub accept: Option<String>,
    pub accept_language: Option<String>,
    pub playlist_text: Option<String>,
    pub page_title: Option<String>,
}

/// One item of the extraction script's `candidates` list.
#[derive(Debug)]
pub enum CandidateItem {
    /// A bare address.
    Text(String),
    /// An object with the address and what the browser sent and received.
    Fields(CandidateFields),
    /// Anything else.
    Other,
}

/// A playlist address the browser saw, with the headers it sent, the playlist body
/// where it was captured, and the page title as a name.
#[derive(Debug)]
pub struct BrowserCandidate {
    pub url: WebUrl,
    pub headers: RequestHeaders,
    pub playlist_text: Option<String>,
    pub suggested_name: Option<String>,
}

/// The playlist chosen for a download.
#[derive(Debug)]
pub struct ExtractedM3u8 {
    pub url: WebUrl,
    pub headers: RequestHeaders,
    pub playlist_text: Option<String>,
    pub suggested_name: Option<String>,
}

/// A candidate or chosen playlist as values.
pub struct CandidateView {
    pub url: Seq<char>,
    pub headers: RequestHeaders,
    pub playlist_text: Option<Seq<char>>,
    pub suggested_name: Option<Seq<char>>,
}

pub open spec fn candidate_view(c: BrowserCandidate) -> CandidateView {
    CandidateView {
        url: c.url@,
        headers: c.headers,
        playlist_text: opt_view(c.playlist_text),
        suggested_name: opt_view(c.suggested_name),
    }
}

pub open spec fn extracted_view(e: ExtractedM3u8) -> CandidateView {
    CandidateView {
        url: e.url@,
        headers: e.headers,
        playlist_text: opt_view(e.playlist_text),
        suggested_name: opt_view(e.suggested_name),
    }
}

pub open spec fn candidate_views(v: Seq<BrowserCandidate>) -> Seq<CandidateView> {
    v.map_values(|c: BrowserCandidate| candidate_view(c))
}

/// A field kept only where it is not empty.
pub open spec fn non_empty(v: Option<String>) -> Option<String> {
    match v {
        Some(s) => if s@.len() > 0 {
            Some(s)
        } else {
            None
        },
        None => None,
    }
}

fn non_empty_exec(v: &Option<String>) -> (r: Option<String>)
    ensures
        r == non_empty(*v),
{
    match v {
        Some(s) => if s.as_str().is_empty() {
            None
        } else {
            Some(s.clone())
        },
        None => None,
    }
}

/// The candidate an item makes: its address resolved against the page; from an
/// object, its non-empty headers and playlist body, and its page title cleaned into a
/// name. Items without an address that resolves make none.
pub open spec fn spec_parse_browser_candidate(page_url: Seq<char>, item: CandidateItem) -> Option<CandidateView> {
    match item {
        CandidateItem::Text(raw) => match url_join(page_url, raw@) {
            Some(u) => Some(
                CandidateView {
                    url: u,
                    headers: RequestHeaders {
                        referer: None,
                        origin: None,
                        cookie: None,
                        user_agent: None,
                        accept: None,
                        accept_language: None,
                    },
                    playlist_text: None,
                    suggested_name: None,
                },
            ),
            None => None,
        },
        CandidateItem::Fields(f) => match f.url {
            None => None,
            Some(raw) => match url_join(page_url, raw@) {
                None => None,
                Some(u) => Some(
                    CandidateView {
                        url: u,
                        headers: RequestHeaders {
                            referer: non_empty(f.referer),
                            origin: non_empty(f.origin),
                            cookie: non_empty(f.cookie),
                            user_agent: non_empty(f.user_agent),
                            accept: non_empty(f.accept),
                            accept_language: non_empty(f.accept_language),
                        },
                        playlist_text: opt_view(non_empty(f.playlist_text)),
                        suggested_name: match f.page_title {
                            Some(t) => spec_sanitize_file_stem(t@),
                            None => None,
                        },
                    },
                ),
            },
        },
        CandidateItem::Other => None,
    }
}

pub fn parse_browser_candidate(page_url: &WebUrl, item: &CandidateItem) -> (r: Option<BrowserCandidate>)
    ensures
        match r {
            Some(c) => spec_parse_browser_candidate(page_url@, *item) == Some(candidate_view(c)),
            None => spec_parse_browser_candidate(page_url@, *item) is None,
        },
{
    match item {
        CandidateItem::Text(raw) => match page_url.join(raw.as_str()) {
            Some(url) => Some(
                BrowserCandidate {
                    url,
                    headers: RequestHeaders::default(),
                    playlist_text: None,
                    suggested_name: None,
                },
            ),
            None => None,
        },
        CandidateItem::Fields(f) => {
            let raw = match &f.url {
                Some(raw) => raw,
                None => {
                    return None;
                },
            };
            let url = match page_url.join(raw.as_str()) {
                Some(url) => url,
                None => {
                    return None;
                },
            };
            let headers = RequestHeaders {
                referer: non_empty_exec(&f.referer),
                origin: non_empty_exec(&f.origin),
                cookie: non_empty_exec(&f.cookie),
                user_agent: non_empty_exec(&f.user_agent),
                accept: non_empty_exec(&f.accept),
                accept_language: non_empty_exec(&f.accept_language),
            };
            let suggested_name = match &f.page_title {
                Some(t) => sanitize_file_stem(t.as_str()),
                None => None,
            };
            Some(
                BrowserCandidate {
                    url,
                    headers,
                    playlist_text: non_empty_exec(&f.playlist_text),
                    suggested_name,
                },
            )
        },
        CandidateItem::Other => None,
    }
}

/// Candidates kept once per address, in order of first appearance.
pub open spec fn add_unique_candidate(acc: Seq<CandidateView>, c: CandidateView) -> Seq<CandidateView> {
    if exists|i: int| 0 <= i < acc.len() && (#[trigger] acc[i]).url == c.url {
        acc
    } else {
        acc.push(c)
    }
}

/// The candidates the items make, each address once.
pub open spec fn spec_collect_browser_candidates(page_url: Seq<char>, items: Seq<CandidateItem>) -> Seq<CandidateView>
    decreases items.len(),
{
    if items.len() == 0 {
        seq![]
    } else {
        let acc = spec_collect_browser_candidates(page_url, items.drop_last());
        match spec_parse_browser_candidate(page_url, items.last()) {
            Some(c) => add_unique_candidate(acc, c),
            None => acc,
        }
    }
}

pub fn collect_browser_candidates(page_url: &WebUrl, items: &Vec<CandidateItem>) -> (r: Vec<BrowserCandidate>)
    ensures
        candidate_views(r@) == spec_collect_browser_candidates(page_url@, items@),
{
    let mut out: Vec<BrowserCandidate> = Vec::new();
    let mut i: usize = 0;
    assert(candidate_views(out@) =~= Seq::<CandidateView>::empty());
    while i < items.len()
        invariant
            i <= items@.len(),
            candidate_views(out@) == spec_collect_browser_candidates(page_url@, items@.take(i as int)),
        decreases items@.len() - i,
    {
        proof {
            assert(items@.take(i + 1).drop_last() =~= items@.take(i as int));
            assert(items@.take(i + 1).last() == items@[i as int]);
        }
        match parse_browser_candidate(page_url, &items[i]) {
            Some(c) => {
                let ghost acc = candidate_views(out@);
                let mut seen = false;
                let mut j: usize = 0;
                while j < out.len()
                    invariant
                        j <= out@.len(),
                        acc == candidate_views(out@),
                        seen == exists|k: int| 0 <= k < j && (#[trigger] out@[k]).url@ == c.url@,
                    decreases out@.len() - j,
                {
                    if out[j].url.same(&c.url) {
                        seen = true;
                    }
                    j = j + 1;
                }
                proof {
                    if seen {
                        let k = choose|k: int| 0 <= k < out@.len() && (#[trigger] out@[k]).url@ == c.url@;
                        assert(acc[k].url == candidate_view(c).url);
                    } else {
                        assert(!(exists|k: int| 0 <= k < acc.len() && (#[trigger] acc[k]).url == candidate_view(c).url)) by {
                            if exists|k: int| 0 <= k < acc.len() && (#[trigger] acc[k]).url == candidate_view(c).url {
                                let k = choose|k: int| 0 <= k < acc.len() && (#[trigger] acc[k]).url == candidate_view(c).url;
                                assert(out@[k].url@ == c.url@);
                            }
                        }
                    }
                }
                if !seen {
                    let ghost cv = candidate_view(c);
                    out.push(c);
                    assert(candidate_views(out@) =~= acc.push(cv));
                }
            },
            None => {},
        }
        i = i + 1;
    }
    assert(items@.take(items@.len() as int) =~= items@);
    out
}

fn clone_candidate_url(u: &WebUrl) -> (r: WebUrl)
    ensures
        r@ == u@,
{
    u.clone()
}

/// The first candidate as it would be downloaded without checking: with its headers
/// merged over the fallback headers.
pub open spec fn spec_first_direct_candidate(candidates: Seq<CandidateView>, fallback: RequestHeaders) -> Option<CandidateView> {
    if candidates.len() == 0 {
        None
    } else {
        let c = candidates[0];
        Some(
            CandidateView {
                url: c.url,
                headers: spec_merge_headers(c.headers, fallback),
                playlist_text: c.playlist_text,
                suggested_name: c.suggested_name,
            },
        )
    }
}

pub fn first_direct_candidate(candidates: &Vec<BrowserCandidate>, fallback: &RequestHeaders) -> (r: Option<ExtractedM3u8>)
    ensures
        match r {
            Some(e) => spec_first_direct_candidate(candidate_views(candidates@), *fallback) == Some(extracted_view(e)),
            None => spec_first_direct_candidate(candidate_views(candidates@), *fallback) is None,
        },
{
    if candidates.len() == 0 {
        return None;
    }
    let c = &candidates[0];
    Some(
        ExtractedM3u8 {
            url: clone_candidate_url(&c.url),
            headers: merge_headers(&c.headers, fallback),
            playlist_text: clone_opt(&c.playlist_text),
            suggested_name: clone_opt(&c.suggested_name),
        },
    )
}

/// The log lines of a captured list: each candidate's address, numbered from 1, and the
/// headers it carries.
pub open spec fn candidate_log_lines(label: Seq<char>, cs: Seq<CandidateView>) -> Seq<Seq<char>>
    decreases cs.len(),
{
    if cs.len() == 0 {
        seq![]
    } else {
        let before = candidate_log_lines(label, cs.drop_last());
        let line = label + " #"@ + decimal(cs.len()) + ": "@ + cs.last().url + "\n"@;
        match spec_request_headers_line(cs.last().headers) {
            Some(h) => before.push(line).push(h),
            None => before.push(line),
        }
    }
}

pub fn candidate_log(label: &str, candidates: &Vec<BrowserCandidate>) -> (r: Vec<String>)
    ensures
        views(r@) == candidate_log_lines(label@, candidate_views(candidates@)),
{
    let mut out: Vec<String> = Vec::new();
    let mut i: usize = 0;
    assert(views(out@) =~= Seq::<Seq<char>>::empty());
    while i < candidates.len()
        invariant
            i <= candidates@.len(),
            views(out@) == candidate_log_lines(label@, candidate_views(candidates@.take(i as int))),
        decreases candidates@.len() - i,
    {
        let ghost cs = candidate_views(candidates@.take(i + 1));
        proof {
            assert(cs.drop_last() =~= candidate_views(candidates@.take(i as int)));
            assert(cs.last() == candidate_view(candidates@[i as int]));
            assert(cs.len() == i + 1);
        }
        let mut line = chars_of(label);
        push_all(&mut line, " #");
        push_chars(&mut line, &decimal_chars((i + 1) as u64));
        push_all(&mut line, ": ");
        push_all(&mut line, candidates[i].url.as_str());
        push_all(&mut line, "\n");
        let ghost before = views(out@);
        let l = string_of(line.as_slice());
        out.push(l);
        match request_headers_line(&candidates[i].headers) {
            Some(h) => {
                let ghost hv = h@;
                out.push(h);
                assert(views(out@) =~= before.push(l@).push(hv));
            },
            None => {
                assert(views(out@) =~= before.push(l@));
            },
        }
        i = i + 1;
    }
    assert(candidates@.take(candidates@.len() as int) =~= candidates@);
    out
}

/// The arguments of the extraction script: the page, the browser profile, 15 seconds
/// per load, three loads, the capture mode and the browser mode.
pub fn browser_script_args(
    script: &str,
    page_url: &WebUrl,
    profile_dir: &str,
    capture_mode: &str,
    mode: BrowserLaunchMode,
) -> (r: Vec<String>)
    ensures
        views(r@) == seq![
            script@,
            page_url@,
            profile_dir@,
            "15000"@,
            "3"@,
            capture_mode@,
            mode.spec_script_arg(),
        ],
{
    let mut r: Vec<String> = Vec::new();
    r.push(String::from_str(script));
    r.push(String::from_str(page_url.as_str()));
    r.push(String::from_str(profile_dir));
    r.push(String::from_str("15000"));
    r.push(String::from_str("3"));
    r.push(String::from_str(capture_mode));
    r.push(String::from_str(mode.script_arg()));
    assert(views(r@) =~= seq![
        script@,
        page_url@,
        profile_dir@,
        "15000"@,
        "3"@,
        capture_mode@,
        mode.spec_script_arg(),
    ]);
    r
}

/// The log lines before the extraction browser starts.
pub fn browser_launch_log(script: &str, label: &str, mode: BrowserLaunchMode, profile_dir: &str) -> (r: Vec<String>)
    ensures
        views(r@) == seq![
            "网页提取脚本: "@ + script@ + "\n"@,
            "启动 Playwright 捕获网络请求（"@ + label@ + "，"@ + mode.spec_label() + "），浏览器 Profile: "@
                + profile_dir@ + "\n"@,
            mode.spec_status() + "，将最多尝试 3 轮加载，每轮等待 15 秒。\n"@,
        ],
{
    let mut a = chars_of("网页提取脚本: ");
    push_all(&mut a, script);
    push_all(&mut a, "\n");
    let mut b = chars_of("启动 Playwright 捕获网络请求（");
    push_all(&mut b, label);
    push_all(&mut b, "，");
    push_all(&mut b, mode.label());
    push_all(&mut b, "），浏览器 Profile: ");
    push_all(&mut b, profile_dir);
    push_all(&mut b, "\n");
    let mut c = chars_of(mode.status());
    push_all(&mut c, "，将最多尝试 3 轮加载，每轮等待 15 秒。\n");
    let mut r: Vec<String> = Vec::new();
    r.push(string_of(a.as_slice()));
    r.push(string_of(b.as_slice()));
    r.push(string_of(c.as_slice()));
    assert(views(r@) =~= seq![
        "网页提取脚本: "@ + script@ + "\n"@,
        "启动 Playwright 捕获网络请求（"@ + label@ + "，"@ + mode.spec_label() + "），浏览器 Profile: "@
            + profile_dir@ + "\n"@,
        mode.spec_status() + "，将最多尝试 3 轮加载，每轮等待 15 秒。\n"@,
    ]);
    r
}

/// What the extraction script's run gives: a failed run is an error with the end of its
/// error output; unreadable output is an error; output without a candidate list is an
/// error; else the candidates.
pub open spec fn spec_capture_result(
    page_url: Seq<char>,
    success: bool,
    stderr_text: Seq<char>,
    parsed: Result<Option<Seq<CandidateItem>>, Seq<char>>,
) -> Result<Seq<CandidateView>, Seq<char>> {
    if !success {
        Err("网页网络捕获失败。"@ + spec_command_tail(stderr_text))
    } else {
        match parsed {
            Err(e) => Err("解析网页提取结果失败："@ + e),
            Ok(None) => Err("网页提取脚本没有返回候选地址。"@),
            Ok(Some(items)) => Ok(spec_collect_browser_candidates(page_url, items)),
        }
    }
}

/// The candidates of a run of the extraction script: whether it exited successfully,
/// its error output, and its output read as JSON (the error's message where it could
/// not be read; `None` where it has no `candidates` list).
pub fn capture_result(
    page_url: &WebUrl,
    success: bool,
    stderr_text: &str,
    parsed: Result<Option<Vec<CandidateItem>>, String>,
) -> (r: Result<Vec<BrowserCandidate>, String>)
    ensures
        match r {
            Ok(v) => spec_capture_result(
                page_url@,
                success,
                stderr_text@,
                match parsed {
                    Ok(Some(items)) => Ok(Some(items@)),
                    Ok(None) => Ok(None),
                    Err(e) => Err(e@),
                },
            ) == Ok::<Seq<CandidateView>, Seq<char>>(candidate_views(v@)),
            Err(e) => spec_capture_result(
                page_url@,
                success,
                stderr_text@,
                match parsed {
                    Ok(Some(items)) => Ok(Some(items@)),
                    Ok(None) => Ok(None),
                    Err(e) => Err(e@),
                },
            ) == Err::<Seq<CandidateView>, Seq<char>>(e@),
        },
{
    if !success {
        return Err(crate::text::concat("网页网络捕获失败。", command_tail(stderr_text).as_str()));
    }
    match parsed {
        Err(e) => Err(crate::text::concat("解析网页提取结果失败：", e.as_str())),
        Ok(None) => Err(String::from_str("网页提取脚本没有返回候选地址。")),
        Ok(Some(items)) => Ok(collect_browser_candidates(page_url, &items)),
    }
}

/// The log line after a capture: how many candidates were found.
pub fn capture_count_log(label: &str, count: usize) -> (r: String)
    ensures
        r@ == label@ + " 捕获发现 "@ + decimal(count as nat) + " 个候选地址。\n"@,
{
    let mut v = chars_of(label);
    push_all(&mut v, " 捕获发现 ");
    push_chars(&mut v, &decimal_chars(count as u64));
    push_all(&mut v, " 个候选地址。\n");
    string_of(v.as_slice())
}

/// The string fields of a candidate object.
pub open spec fn fields_read(f: CandidateFields, v: JsonView) -> bool {
    &&& opt_view(f.url) == view_str(view_get(v, "url"@))
    &&& opt_view(f.referer) == view_str(view_get(v, "referer"@))
    &&& opt_view(f.origin) == view_str(view_get(v, "origin"@))
    &&& opt_view(f.cookie) == view_str(view_get(v, "cookie"@))
    &&& opt_view(f.user_agent) == view_str(view_get(v, "userAgent"@))
    &&& opt_view(f.accept) == view_str(view_get(v, "accept"@))
    &&& opt_view(f.accept_language) == view_str(view_get(v, "acceptLanguage"@))
    &&& opt_view(f.playlist_text) == view_str(view_get(v, "playlistText"@))
    &&& opt_view(f.page_title) == view_str(view_get(v, "pageTitle"@))
}

/// An entry of the `candidates` list: a string is a bare address, an object gives its
/// fields, anything else is ignored.
pub open spec fn item_read(it: CandidateItem, v: JsonView) -> bool {
    match v {
        JsonView::Str(s) => it matches CandidateItem::Text(t) && t@ == s,
        JsonView::Object(_) => it matches CandidateItem::Fields(f) && fields_read(f, v),
        _ => it is Other,
    }
}

/// The items of the script's report: its `candidates` list entry by entry; none where
/// the report has no such list.
pub open spec fn items_read(r: Option<Vec<CandidateItem>>, doc: JsonView) -> bool {
    match view_array(view_get(doc, "candidates"@)) {
        None => r is None,
        Some(a) => r matches Some(items) && items@.len() == a.len() && forall|k: int|
            0 <= k < a.len() ==> item_read(#[trigger] items@[k], a[k]),
    }
}

fn candidate_item(item: &JsonValue) -> (r: CandidateItem)
    ensures
        item_read(r, json_view(*item)),
{
    match item {
        JsonValue::Str(s) => CandidateItem::Text(s.clone()),
        JsonValue::Object(_) => CandidateItem::Fields(
            CandidateFields {
                url: json_get_str(item, "url"),
                referer: json_get_str(item, "referer"),
                origin: json_get_str(item, "origin"),
                cookie: json_get_str(item, "cookie"),
                user_agent: json_get_str(item, "userAgent"),
                accept: json_get_str(item, "accept"),
                accept_language: json_get_str(item, "acceptLanguage"),
                playlist_text: json_get_str(item, "playlistText"),
                page_title: json_get_str(item, "pageTitle"),
            },
        ),
        _ => CandidateItem::Other,
    }
}

/// The entries of the `candidates` list of the extraction script's report.
pub fn candidate_items(doc: &JsonValue) -> (r: Option<Vec<CandidateItem>>)
    ensures
        items_read(r, json_view(*doc)),
{
    match json_get(doc, "candidates") {
        Some(JsonValue::Array(list)) => {
            let ghost a = json_views(list@);
            proof {
                lemma_json_views(list@);
            }
            let mut out: Vec<CandidateItem> = Vec::new();
            let mut i: usize = 0;
            while i < list.len()
                invariant
                    i <= list@.len(),
                    a == json_views(list@),
                    a.len() == list@.len(),
                    forall|k: int| 0 <= k < list@.len() ==> #[trigger] a[k] == json_view(list@[k]),
                    out@.len() == i,
                    forall|k: int| 0 <= k < i ==> item_read(#[trigger] out@[k], a[k]),
                decreases list@.len() - i,
            {
                let it = candidate_item(&list[i]);
                out.push(it);
                i = i + 1;
            }
            Some(out)
        },
        _ => None,
    }
}

/// The candidates of a run of the extraction script from its exit status and its
/// output: a failed run gives its error, otherwise the trimmed output is read as JSON.
pub fn capture_from_output(page_url: &WebUrl, success: bool, stderr_text: &str, stdout_text: &str) -> (r: Result<
    Vec<BrowserCandidate>,
    String,
>)
    ensures
        !success ==> (r matches Err(e) && e@ == "网页网络捕获失败。"@ + spec_command_tail(stderr_text@)),
        success ==> match json_parse(trim(stdout_text@)) {
            Err(e) => r matches Err(x) && x@ == "解析网页提取结果失败："@ + e,
            Ok(doc) => match view_array(view_get(doc, "candidates"@)) {
                None => r matches Err(x) && x@ == "网页提取脚本没有返回候选地址。"@,
                Some(a) => exists|items: Vec<CandidateItem>|
                    items_read(Some(items), doc) && match r {
                        Ok(v) => spec_capture_result(page_url@, true, stderr_text@, Ok(Some(items@)))
                            == Ok::<Seq<CandidateView>, Seq<char>>(candidate_views(v@)),
                        Err(_) => false,
                    },
            },
        },
{
    if !success {
        return capture_result(page_url, false, stderr_text, Ok(None));
    }
    let text = string_of(trim_chars(&chars_of(stdout_text)).as_slice());
    let parsed = match parse_json(text.as_str()) {
        Err(e) => Err(e),
        Ok(doc) => Ok(candidate_items(&doc)),
    };
    capture_result(page_url, true, stderr_text, parsed)
}

} // verus!
