//! Finding the playlist of a web page: static scans of the page, then the extraction
//! browser with a persistent profile, fresh profiles, and (for short-token sites) a mode
//! that keeps the playlist bodies. The caller performs each action and reports back.
use vstd::prelude::*;
use crate::browser::{
    candidate_view, candidate_views, extracted_view, first_direct_candidate,
    spec_first_direct_candidate, BrowserCandidate, CandidateView, ExtractedM3u8,
};
use crate::headers::{
    is_short_token_page, merge_headers, page_request_headers, request_headers_line,
    spec_is_short_token_page, spec_merge_headers, spec_page_origin, spec_request_headers_line,
    RequestHeaders,
};
use crate::hls::{playlist_kind, spec_playlist_kind};
use crate::messages::{response_preview, spec_response_preview};
use crate::text::{chars_of, clone_opt, contains, contains_chars, decimal, decimal_chars, opt_view, push_all, push_chars, string_of};
use crate::urls::WebUrl;

verus! {

/// Something to show while the extraction runs.
pub enum Notice {
    /// The task's stage text changes (its status stays "parsing").
    Stage(String),
    /// A line for the task log.
    Log(String),
}

pub enum NoticeView {
    Stage(Seq<char>),
    Log(Seq<char>),
}

pub open spec fn notice_view(n: Notice) -> NoticeView {
    match n {
        Notice::Stage(s) => NoticeView::Stage(s@),
        Notice::Log(s) => NoticeView::Log(s@),
    }
}

pub open spec fn notice_views(v: Seq<Notice>) -> Seq<NoticeView> {
    v.map_values(|n: Notice| notice_view(n))
}

/// Which browser profile a run uses.
#[derive(PartialEq, Eq, Structural, Clone, Copy, Debug)]
pub enum ProfileChoice {
    /// The profile kept between runs.
    Persistent,
    /// A new temporary profile, for this attempt.
    Fresh(u32),
    /// A new temporary profile, in the mode that lets playlist requests through.
    FreshAllow(u32),
}

/// What the caller does next.
pub enum ExtractAction {
    /// Fetch the page and collect the playlist addresses in it; report with
    /// `static_scanned`.
    ScanStatic,
    /// Wait a second; report with `slept`.
    Sleep,
    /// Fetch this playlist with these headers; report with `playlist_fetched`.
    Fetch(WebUrl, RequestHeaders),
    /// Run the extraction browser with this profile, label and capture mode; report with
    /// `browser_ran`.
    RunBrowser(ProfileChoice, String, String),
    /// The extraction is over.
    Finish(Result<ExtractedM3u8, String>),
}

pub enum ActionView {
    ScanStatic,
    Sleep,
    Fetch(Seq<char>, RequestHeaders),
    RunBrowser(ProfileChoice, Seq<char>, Seq<char>),
    Finish(Result<CandidateView, Seq<char>>),
}

pub open spec fn action_view(a: ExtractAction) -> ActionView {
    match a {
        ExtractAction::ScanStatic => ActionView::ScanStatic,
        ExtractAction::Sleep => ActionView::Sleep,
        ExtractAction::Fetch(u, h) => ActionView::Fetch(u@, h),
        ExtractAction::RunBrowser(p, l, m) => ActionView::RunBrowser(p, l@, m@),
        ExtractAction::Finish(Ok(e)) => ActionView::Finish(Ok(extracted_view(e))),
        ExtractAction::Finish(Err(e)) => ActionView::Finish(Err(e@)),
    }
}

/// Where the extraction stands; the numbers are attempts, from 1 to 3.
#[derive(PartialEq, Eq, Structural, Clone, Copy, Debug)]
pub enum Phase {
    Static(u32),
    StaticCheck(u32),
    StaticSleep(u32),
    Persistent,
    PersistentCheck,
    Fresh(u32),
    FreshCheck(u32),
    FreshFirstCheck(u32),
    Allow(u32),
    AllowCheck(u32),
    Done,
}

/// The attempt numbers stay between 1 and 3.
pub open spec fn phase_ok(p: Phase) -> bool {
    match p {
        Phase::Static(a) => 1 <= a <= 3,
        Phase::StaticCheck(a) => 1 <= a <= 3,
        Phase::StaticSleep(a) => 1 <= a < 3,
        Phase::Fresh(a) => 1 <= a <= 3,
        Phase::FreshCheck(a) => 1 <= a <= 3,
        Phase::FreshFirstCheck(a) => 1 <= a <= 3,
        Phase::Allow(a) => 1 <= a <= 3,
        Phase::AllowCheck(a) => 1 <= a <= 3,
        _ => true,
    }
}

/// Candidates are being checked in this phase.
pub open spec fn is_check_phase(p: Phase) -> bool {
    p is StaticCheck || p is PersistentCheck || p is FreshCheck || p is FreshFirstCheck || p is AllowCheck
}

/// The extraction.
pub struct Extraction {
    pub page_url: WebUrl,
    pub page_headers: RequestHeaders,
    pub short_token: bool,
    pub phase: Phase,
    pub first_unverified: Option<ExtractedM3u8>,
    pub pending: Vec<BrowserCandidate>,
    pub next: usize,
}

/// The extraction as values.
pub struct ExtractionView {
    pub page_url: Seq<char>,
    pub page_headers: RequestHeaders,
    pub short_token: bool,
    pub phase: Phase,
    pub first_unverified: Option<CandidateView>,
    pub pending: Seq<CandidateView>,
    pub next: nat,
}

pub open spec fn opt_extracted_view(e: Option<ExtractedM3u8>) -> Option<CandidateView> {
    match e {
        Some(x) => Some(extracted_view(x)),
        None => None,
    }
}

pub open spec fn ex_view(e: Extraction) -> ExtractionView {
    ExtractionView {
        page_url: e.page_url@,
        page_headers: e.page_headers,
        short_token: e.short_token,
        phase: e.phase,
        first_unverified: opt_extracted_view(e.first_unverified),
        pending: candidate_views(e.pending@),
        next: e.next as nat,
    }
}

/// A step's effect: the new state, the notices so far, and the action.
pub struct Outcome {
    pub state: ExtractionView,
    pub notices: Seq<NoticeView>,
    pub action: ActionView,
}

pub open spec fn log(s: Seq<char>) -> NoticeView {
    NoticeView::Log(s)
}

/// `prefix` + `a` + `/3` + `suffix`.
pub open spec fn attempt_text(prefix: Seq<char>, a: u32, suffix: Seq<char>) -> Seq<char> {
    prefix + decimal(a as nat) + "/3"@ + suffix
}

pub open spec fn no_playlist_message() -> Seq<char> {
    "没有从网页中提取到可用 m3u8。若页面需要登录，请在弹出的提取浏览器中登录后重试。"@
}

pub open spec fn short_token_failure_message() -> Seq<char> {
    "已提取到 m3u8 候选，但服务端对所有短 token 候选都返回 404 或无效 playlist。"@
}

/// A playlist was chosen: the extraction ends with it, logged as found by the static
/// scan or by the network capture.
pub open spec fn spec_found(s: ExtractionView, e: CandidateView, acc: Seq<NoticeView>) -> Outcome {
    let line = if s.phase is StaticCheck {
        "静态扫描找到 m3u8: "@ + e.url + "\n"@
    } else {
        "网络捕获找到 m3u8: "@ + e.url + "\n"@
    };
    Outcome {
        state: ExtractionView { phase: Phase::Done, ..s },
        notices: acc.push(log(line)),
        action: ActionView::Finish(Ok(e)),
    }
}

/// Starts a run with a fresh temporary profile.
pub open spec fn spec_start_fresh(s: ExtractionView, a: u32, acc: Seq<NoticeView>) -> Outcome {
    Outcome {
        state: ExtractionView { phase: Phase::Fresh(a), ..s },
        notices: acc.push(log(attempt_text("全新临时 Profile 尝试 "@, a, "。\n"@))),
        action: ActionView::RunBrowser(
            ProfileChoice::Fresh(a),
            attempt_text("全新临时 Profile "@, a, ""@),
            "abort"@,
        ),
    }
}

/// Starts a run in the mode that lets playlist requests through.
pub open spec fn spec_start_allow(s: ExtractionView, a: u32, acc: Seq<NoticeView>) -> Outcome {
    Outcome {
        state: ExtractionView { phase: Phase::Allow(a), ..s },
        notices: acc.push(log(attempt_text("浏览器响应正文模式尝试 "@, a, "。\n"@))),
        action: ActionView::RunBrowser(
            ProfileChoice::FreshAllow(a),
            attempt_text("浏览器响应正文模式 "@, a, ""@),
            "allow"@,
        ),
    }
}

/// After the fresh profiles: short-token sites with a captured candidate retry in the
/// mode that keeps playlist bodies; otherwise the first captured candidate is used
/// unchecked; otherwise nothing was found.
pub open spec fn spec_after_fresh(s: ExtractionView, acc: Seq<NoticeView>) -> Outcome {
    if s.short_token && s.first_unverified is Some {
        spec_start_allow(
            s,
            1,
            acc.push(log("中止浏览器 m3u8 请求模式未成功，改用浏览器响应正文模式重试。\n"@)),
        )
    } else {
        match s.first_unverified {
            Some(x) => Outcome {
                state: ExtractionView { phase: Phase::Done, ..s },
                notices: acc.push(log("已提取到 m3u8 候选但校验失败，继续使用第一个候选直接尝试下载。\n"@)).push(
                    log("网络捕获找到 m3u8: "@ + x.url + "\n"@),
                ),
                action: ActionView::Finish(Ok(x)),
            },
            None => Outcome {
                state: ExtractionView { phase: Phase::Done, ..s },
                notices: acc,
                action: ActionView::Finish(Err(no_playlist_message())),
            },
        }
    }
}

pub open spec fn spec_next_fresh(s: ExtractionView, a: u32, acc: Seq<NoticeView>) -> Outcome {
    if a < 3 {
        spec_start_fresh(s, (a + 1) as u32, acc)
    } else {
        spec_after_fresh(s, acc)
    }
}

pub open spec fn spec_next_allow(s: ExtractionView, a: u32, acc: Seq<NoticeView>) -> Outcome {
    if a < 3 {
        spec_start_allow(s, (a + 1) as u32, acc)
    } else {
        Outcome {
            state: ExtractionView { phase: Phase::Done, ..s },
            notices: acc,
            action: ActionView::Finish(Err(short_token_failure_message())),
        }
    }
}

/// The static scans are over: the browser comes next, with the persistent profile
/// unless the site has short-lived tokens.
pub open spec fn spec_begin_browser(s: ExtractionView, acc: Seq<NoticeView>) -> Outcome {
    let acc2 = acc.push(log("静态扫描未找到可验证的 m3u8，准备捕获网络请求。\n"@)).push(
        NoticeView::Stage("正在捕获网络请求"@),
    );
    if !s.short_token {
        Outcome {
            state: ExtractionView { phase: Phase::Persistent, ..s },
            notices: acc2,
            action: ActionView::RunBrowser(ProfileChoice::Persistent, "持久 Profile"@, "abort"@),
        }
    } else {
        spec_start_fresh(s, 1, acc2.push(log("该站点优先使用全新临时 Profile，跳过持久 Profile。\n"@)))
    }
}

/// After static attempt `a`: wait and try again, or move on to the browser.
pub open spec fn spec_after_static(s: ExtractionView, a: u32, acc: Seq<NoticeView>) -> Outcome {
    if a < 3 {
        Outcome {
            state: ExtractionView { phase: Phase::StaticSleep(a), ..s },
            notices: acc.push(log("等待 1 秒后重试静态扫描。\n"@)),
            action: ActionView::Sleep,
        }
    } else {
        spec_begin_browser(s, acc)
    }
}

/// No candidate of the list passed: what comes after depends on the phase.
pub open spec fn spec_exhausted(s: ExtractionView, acc: Seq<NoticeView>) -> Outcome {
    match s.phase {
        Phase::StaticCheck(a) => spec_after_static(s, a, acc.push(log("本次静态扫描未找到可验证的 m3u8。\n"@))),
        Phase::PersistentCheck => spec_start_fresh(
            s,
            1,
            acc.push(log("持久 Profile 未捕获到可验证的 m3u8，改用全新临时 Profile 多轮重试。\n"@)),
        ),
        Phase::FreshCheck(a) => spec_next_fresh(
            s,
            a,
            acc.push(log(attempt_text("全新临时 Profile 尝试 "@, a, " 未得到可验证 m3u8。\n"@))),
        ),
        Phase::FreshFirstCheck(a) => spec_next_fresh(s, a, acc.push(log("本次短 token m3u8 不可用，立即换新 Profile。\n"@))),
        Phase::AllowCheck(a) => spec_next_allow(
            s,
            a,
            acc.push(log(attempt_text("浏览器响应正文模式尝试 "@, a, " 未得到可用 playlist。\n"@))),
        ),
        _ => Outcome { state: s, notices: acc, action: ActionView::Finish(Err(seq![])) },
    }
}

/// The log line of the headers a request uses, where there is one.
pub open spec fn header_notices(h: RequestHeaders) -> Seq<NoticeView> {
    match spec_request_headers_line(h) {
        Some(l) => seq![log(l)],
        None => seq![],
    }
}

/// Checks candidate `k` of the list: a captured playlist body that is a playlist passes
/// at once; otherwise the playlist is fetched.
pub open spec fn spec_check_from(s: ExtractionView, k: nat, acc: Seq<NoticeView>) -> Outcome {
    if k >= s.pending.len() {
        spec_exhausted(ExtractionView { next: k, ..s }, acc)
    } else {
        let c = s.pending[k as int];
        let merged = spec_merge_headers(c.headers, s.page_headers);
        let acc2 = acc.push(log("校验候选 m3u8: "@ + c.url + "\n"@)) + header_notices(merged);
        match c.playlist_text {
            Some(t) => if spec_playlist_kind(t) is Some {
                spec_found(
                    ExtractionView { next: k, ..s },
                    CandidateView { headers: merged, ..c },
                    acc2.push(log("候选已带浏览器响应正文，校验通过。\n"@)),
                )
            } else {
                Outcome {
                    state: ExtractionView { next: k, ..s },
                    notices: acc2.push(log("候选浏览器响应不是有效 HLS，响应摘要: "@ + spec_response_preview(t) + "\n"@)),
                    action: ActionView::Fetch(c.url, merged),
                }
            },
            None => Outcome {
                state: ExtractionView { next: k, ..s },
                notices: acc2,
                action: ActionView::Fetch(c.url, merged),
            },
        }
    }
}

/// Static candidates: their addresses with no headers of their own.
pub open spec fn static_candidates(urls: Seq<Seq<char>>) -> Seq<CandidateView> {
    urls.map_values(
        |u: Seq<char>|
            CandidateView {
                url: u,
                headers: RequestHeaders {
                    referer: None,
                    origin: None,
                    cookie: None,
                    user_agent: None,
                    accept: None,
                    accept_language: None,
                },
                playlist_text: None,
                suggested_name: None,
            },
    )
}

/// After static scan `a`: the addresses found are checked; a failed scan is retried,
/// except after a 404, which goes on to the browser at once.
pub open spec fn spec_static_scanned(s: ExtractionView, a: u32, result: Result<Seq<Seq<char>>, Seq<char>>) -> Outcome {
    match result {
        Ok(urls) => spec_check_from(
            ExtractionView { phase: Phase::StaticCheck(a), pending: static_candidates(urls), ..s },
            0,
            seq![],
        ),
        Err(e) => {
            let acc = seq![log("本次静态扫描失败："@ + e + "\n"@)];
            if contains(e, "404 Not Found"@) {
                spec_begin_browser(s, acc.push(log("网页静态请求返回 404，跳过后续静态重试。\n"@)))
            } else {
                spec_after_static(s, a, acc)
            }
        },
    }
}

/// After the pause that follows static attempt `a`: the next attempt.
pub open spec fn spec_slept(s: ExtractionView, a: u32) -> Outcome {
    Outcome {
        state: ExtractionView { phase: Phase::Static((a + 1) as u32), ..s },
        notices: seq![log(attempt_text("静态扫描尝试 "@, (a + 1) as u32, "。\n"@))],
        action: ActionView::ScanStatic,
    }
}

/// The first captured candidate is remembered (once) to be used unchecked if nothing
/// passes.
pub open spec fn remember_first(s: ExtractionView, c: Seq<CandidateView>) -> Option<CandidateView> {
    if s.first_unverified is None {
        spec_first_direct_candidate(c, s.page_headers)
    } else {
        s.first_unverified
    }
}

/// After a browser run: its candidates are checked. A failed persistent run ends the
/// extraction with its error; a failed fresh run goes on to the next attempt. On a
/// short-token site only the first candidate of a fresh run is checked.
pub open spec fn spec_browser_ran(s: ExtractionView, result: Result<Seq<CandidateView>, Seq<char>>) -> Outcome {
    match s.phase {
        Phase::Persistent => match result {
            Err(e) => Outcome {
                state: ExtractionView { phase: Phase::Done, ..s },
                notices: seq![],
                action: ActionView::Finish(Err(e)),
            },
            Ok(c) => spec_check_from(
                ExtractionView {
                    phase: Phase::PersistentCheck,
                    pending: c,
                    first_unverified: remember_first(s, c),
                    ..s
                },
                0,
                seq![],
            ),
        },
        Phase::Fresh(a) => match result {
            Err(e) => spec_next_fresh(
                s,
                a,
                seq![log(attempt_text("全新临时 Profile 尝试 "@, a, " 捕获失败："@ + e + "\n"@))],
            ),
            Ok(c) => if s.short_token && c.len() > 0 {
                spec_check_from(
                    ExtractionView {
                        phase: Phase::FreshFirstCheck(a),
                        pending: seq![c[0]],
                        first_unverified: remember_first(s, c),
                        ..s
                    },
                    0,
                    seq![log("短 token 站点已提取到 m3u8，立即请求第一个候选 playlist。\n"@)],
                )
            } else {
                spec_check_from(
                    ExtractionView {
                        phase: Phase::FreshCheck(a),
                        pending: c,
                        first_unverified: remember_first(s, c),
                        ..s
                    },
                    0,
                    seq![],
                )
            },
        },
        Phase::Allow(a) => match result {
            Err(e) => spec_next_allow(
                s,
                a,
                seq![log(attempt_text("浏览器响应正文模式尝试 "@, a, " 捕获失败："@ + e + "\n"@))],
            ),
            Ok(c) => spec_check_from(
                ExtractionView { phase: Phase::AllowCheck(a), pending: c, ..s },
                0,
                seq![],
            ),
        },
        _ => Outcome { state: s, notices: seq![], action: ActionView::Finish(Err(seq![])) },
    }
}

/// After fetching the playlist of the candidate under check: a playlist passes; else
/// the next candidate is checked.
pub open spec fn spec_playlist_fetched(s: ExtractionView, result: Result<Seq<char>, Seq<char>>) -> Outcome {
    let c = s.pending[s.next as int];
    let merged = spec_merge_headers(c.headers, s.page_headers);
    match result {
        Ok(t) => if spec_playlist_kind(t) is Some {
            spec_found(
                s,
                CandidateView { headers: merged, playlist_text: Some(t), ..c },
                seq![log("候选校验通过。\n"@)],
            )
        } else {
            spec_check_from(
                s,
                s.next + 1,
                seq![log("候选不是有效 HLS，响应摘要: "@ + spec_response_preview(t) + "\n"@)],
            )
        },
        Err(e) => spec_check_from(s, s.next + 1, seq![log("候选校验失败: "@ + c.url + "，"@ + e + "\n"@)]),
    }
}

/// The extraction is well formed.
pub open spec fn ex_ok(e: Extraction) -> bool {
    &&& phase_ok(e.phase)
    &&& e.next <= e.pending@.len()
    &&& is_check_phase(e.phase) ==> e.next < e.pending@.len()
}

fn push_log(notices: &mut Vec<Notice>, s: String)
    ensures
        notice_views(final(notices)@) == notice_views(old(notices)@).push(log(s@)),
{
    let ghost before = notices@;
    let ghost sv = s@;
    notices.push(Notice::Log(s));
    assert(notice_views(notices@) =~= notice_views(before).push(log(sv)));
}

fn push_log_str(notices: &mut Vec<Notice>, s: &str)
    ensures
        notice_views(final(notices)@) == notice_views(old(notices)@).push(log(s@)),
{
    push_log(notices, String::from_str(s));
}

fn attempt_string(prefix: &str, a: u32, suffix: &str) -> (r: String)
    ensures
        r@ == attempt_text(prefix@, a, suffix@),
{
    let mut v = chars_of(prefix);
    push_chars(&mut v, &decimal_chars(a as u64));
    push_all(&mut v, "/3");
    push_all(&mut v, suffix);
    string_of(v.as_slice())
}

fn clone_extracted(e: &ExtractedM3u8) -> (r: ExtractedM3u8)
    ensures
        extracted_view(r) == extracted_view(*e),
{
    ExtractedM3u8 {
        url: e.url.clone(),
        headers: e.headers.clone(),
        playlist_text: clone_opt(&e.playlist_text),
        suggested_name: clone_opt(&e.suggested_name),
    }
}

impl Extraction {
    /// Starts the extraction for a page: the first static scan.
    pub fn start(page_url: WebUrl) -> (r: (Extraction, Vec<Notice>, ExtractAction))
        ensures
            ex_ok(r.0),
            ex_view(r.0).page_url == page_url@,
            ex_view(r.0).short_token == spec_is_short_token_page(page_url@),
            r.0.page_headers.referer matches Some(v) && v@ == page_url@,
            opt_view(r.0.page_headers.origin) == spec_page_origin(page_url@),
            r.0.page_headers.cookie is None && r.0.page_headers.user_agent is None
                && r.0.page_headers.accept is None && r.0.page_headers.accept_language is None,
            r.0.phase == Phase::Static(1),
            r.0.first_unverified is None,
            notice_views(r.1@) == seq![
                NoticeView::Stage("正在解析网页"@),
                log("网页 URL: "@ + page_url@ + "\n"@),
                NoticeView::Stage("正在静态扫描"@),
                log(attempt_text("静态扫描尝试 "@, 1, "。\n"@)),
            ],
            action_view(r.2) == ActionView::ScanStatic,
    {
        let page_headers = page_request_headers(&page_url);
        let short_token = is_short_token_page(&page_url);
        let mut notices: Vec<Notice> = Vec::new();
        notices.push(Notice::Stage(String::from_str("正在解析网页")));
        let mut line = chars_of("网页 URL: ");
        push_all(&mut line, page_url.as_str());
        push_all(&mut line, "\n");
        notices.push(Notice::Log(string_of(line.as_slice())));
        notices.push(Notice::Stage(String::from_str("正在静态扫描")));
        notices.push(Notice::Log(attempt_string("静态扫描尝试 ", 1, "。\n")));
        assert(notice_views(notices@) =~= seq![
            NoticeView::Stage("正在解析网页"@),
            log("网页 URL: "@ + page_url@ + "\n"@),
            NoticeView::Stage("正在静态扫描"@),
            log(attempt_text("静态扫描尝试 "@, 1, "。\n"@)),
        ]);
        (
            Extraction {
                page_url,
                page_headers,
                short_token,
                phase: Phase::Static(1),
                first_unverified: None,
                pending: Vec::new(),
                next: 0,
            },
            notices,
            ExtractAction::ScanStatic,
        )
    }

    fn found(&mut self, e: ExtractedM3u8, notices: &mut Vec<Notice>) -> (r: ExtractAction)
        ensures
            ({
                let o = spec_found(ex_view(*old(self)), extracted_view(e), notice_views(old(notices)@));
                &&& ex_view(*final(self)) == o.state
                &&& notice_views(final(notices)@) == o.notices
                &&& action_view(r) == o.action
            }),
            final(self).pending == old(self).pending,
            final(self).next == old(self).next,
    {
        let is_static = match self.phase {
            Phase::StaticCheck(_) => true,
            _ => false,
        };
        let mut line = if is_static {
            chars_of("静态扫描找到 m3u8: ")
        } else {
            chars_of("网络捕获找到 m3u8: ")
        };
        push_all(&mut line, e.url.as_str());
        push_all(&mut line, "\n");
        push_log(notices, string_of(line.as_slice()));
        self.phase = Phase::Done;
        ExtractAction::Finish(Ok(e))
    }

    fn start_fresh(&mut self, a: u32, notices: &mut Vec<Notice>) -> (r: ExtractAction)
        requires
            1 <= a <= 3,
        ensures
            ({
                let o = spec_start_fresh(ex_view(*old(self)), a, notice_views(old(notices)@));
                &&& ex_view(*final(self)) == o.state
                &&& notice_views(final(notices)@) == o.notices
                &&& action_view(r) == o.action
            }),
            final(self).pending == old(self).pending,
            final(self).next == old(self).next,
    {
        push_log(notices, attempt_string("全新临时 Profile 尝试 ", a, "。\n"));
        self.phase = Phase::Fresh(a);
        ExtractAction::RunBrowser(
            ProfileChoice::Fresh(a),
            attempt_string("全新临时 Profile ", a, ""),
            String::from_str("abort"),
        )
    }

    fn start_allow(&mut self, a: u32, notices: &mut Vec<Notice>) -> (r: ExtractAction)
        requires
            1 <= a <= 3,
        ensures
            ({
                let o = spec_start_allow(ex_view(*old(self)), a, notice_views(old(notices)@));
                &&& ex_view(*final(self)) == o.state
                &&& notice_views(final(notices)@) == o.notices
                &&& action_view(r) == o.action
            }),
            final(self).pending == old(self).pending,
            final(self).next == old(self).next,
    {
        push_log(notices, attempt_string("浏览器响应正文模式尝试 ", a, "。\n"));
        self.phase = Phase::Allow(a);
        ExtractAction::RunBrowser(
            ProfileChoice::FreshAllow(a),
            attempt_string("浏览器响应正文模式 ", a, ""),
            String::from_str("allow"),
        )
    }

    fn after_fresh(&mut self, notices: &mut Vec<Notice>) -> (r: ExtractAction)
        ensures
            ({
                let o = spec_after_fresh(ex_view(*old(self)), notice_views(old(notices)@));
                &&& ex_view(*final(self)) == o.state
                &&& notice_views(final(notices)@) == o.notices
                &&& action_view(r) == o.action
            }),
            final(self).pending == old(self).pending,
            final(self).next == old(self).next,
    {
        if self.short_token && self.first_unverified.is_some() {
            push_log_str(notices, "中止浏览器 m3u8 请求模式未成功，改用浏览器响应正文模式重试。\n");
            return self.start_allow(1, notices);
        }
        match &self.first_unverified {
            Some(x) => {
                let chosen = clone_extracted(x);
                push_log_str(notices, "已提取到 m3u8 候选但校验失败，继续使用第一个候选直接尝试下载。\n");
                let mut line = chars_of("网络捕获找到 m3u8: ");
                push_all(&mut line, chosen.url.as_str());
                push_all(&mut line, "\n");
                push_log(notices, string_of(line.as_slice()));
                self.phase = Phase::Done;
                ExtractAction::Finish(Ok(chosen))
            },
            None => {
                self.phase = Phase::Done;
                ExtractAction::Finish(
                    Err(
                        String::from_str(
                            "没有从网页中提取到可用 m3u8。若页面需要登录，请在弹出的提取浏览器中登录后重试。",
                        ),
                    ),
                )
            },
        }
    }

    fn next_fresh(&mut self, a: u32, notices: &mut Vec<Notice>) -> (r: ExtractAction)
        requires
            1 <= a <= 3,
        ensures
            ({
                let o = spec_next_fresh(ex_view(*old(self)), a, notice_views(old(notices)@));
                &&& ex_view(*final(self)) == o.state
                &&& notice_views(final(notices)@) == o.notices
                &&& action_view(r) == o.action
            }),
            final(self).pending == old(self).pending,
            final(self).next == old(self).next,
    {
        if a < 3 {
            self.start_fresh(a + 1, notices)
        } else {
            self.after_fresh(notices)
        }
    }

    fn next_allow(&mut self, a: u32, notices: &mut Vec<Notice>) -> (r: ExtractAction)
        requires
            1 <= a <= 3,
        ensures
            ({
                let o = spec_next_allow(ex_view(*old(self)), a, notice_views(old(notices)@));
                &&& ex_view(*final(self)) == o.state
                &&& notice_views(final(notices)@) == o.notices
                &&& action_view(r) == o.action
            }),
            final(self).pending == old(self).pending,
            final(self).next == old(self).next,
    {
        if a < 3 {
            self.start_allow(a + 1, notices)
        } else {
            self.phase = Phase::Done;
            ExtractAction::Finish(
                Err(String::from_str("已提取到 m3u8 候选，但服务端对所有短 token 候选都返回 404 或无效 playlist。")),
            )
        }
    }

    fn begin_browser(&mut self, notices: &mut Vec<Notice>) -> (r: ExtractAction)
        ensures
            ({
                let o = spec_begin_browser(ex_view(*old(self)), notice_views(old(notices)@));
                &&& ex_view(*final(self)) == o.state
                &&& notice_views(final(notices)@) == o.notices
                &&& action_view(r) == o.action
            }),
            final(self).pending == old(self).pending,
            final(self).next == old(self).next,
    {
        push_log_str(notices, "静态扫描未找到可验证的 m3u8，准备捕获网络请求。\n");
        let ghost before = notices@;
        notices.push(Notice::Stage(String::from_str("正在捕获网络请求")));
        assert(notice_views(notices@) =~= notice_views(before).push(NoticeView::Stage("正在捕获网络请求"@)));
        if !self.short_token {
            self.phase = Phase::Persistent;
            ExtractAction::RunBrowser(
                ProfileChoice::Persistent,
                String::from_str("持久 Profile"),
                String::from_str("abort"),
            )
        } else {
            push_log_str(notices, "该站点优先使用全新临时 Profile，跳过持久 Profile。\n");
            self.start_fresh(1, notices)
        }
    }

    fn after_static(&mut self, a: u32, notices: &mut Vec<Notice>) -> (r: ExtractAction)
        requires
            1 <= a <= 3,
        ensures
            ({
                let o = spec_after_static(ex_view(*old(self)), a, notice_views(old(notices)@));
                &&& ex_view(*final(self)) == o.state
                &&& notice_views(final(notices)@) == o.notices
                &&& action_view(r) == o.action
            }),
            final(self).pending == old(self).pending,
            final(self).next == old(self).next,
    {
        if a < 3 {
            push_log_str(notices, "等待 1 秒后重试静态扫描。\n");
            self.phase = Phase::StaticSleep(a);
            ExtractAction::Sleep
        } else {
            self.begin_browser(notices)
        }
    }

    fn exhausted(&mut self, notices: &mut Vec<Notice>) -> (r: ExtractAction)
        requires
            phase_ok(old(self).phase),
            is_check_phase(old(self).phase),
        ensures
            ({
                let o = spec_exhausted(ex_view(*old(self)), notice_views(old(notices)@));
                &&& ex_view(*final(self)) == o.state
                &&& notice_views(final(notices)@) == o.notices
                &&& action_view(r) == o.action
            }),
            final(self).pending == old(self).pending,
            final(self).next == old(self).next,
    {
        match self.phase {
            Phase::StaticCheck(a) => {
                push_log_str(notices, "本次静态扫描未找到可验证的 m3u8。\n");
                self.after_static(a, notices)
            },
            Phase::PersistentCheck => {
                push_log_str(notices, "持久 Profile 未捕获到可验证的 m3u8，改用全新临时 Profile 多轮重试。\n");
                self.start_fresh(1, notices)
            },
            Phase::FreshCheck(a) => {
                push_log(notices, attempt_string("全新临时 Profile 尝试 ", a, " 未得到可验证 m3u8。\n"));
                self.next_fresh(a, notices)
            },
            Phase::FreshFirstCheck(a) => {
                push_log_str(notices, "本次短 token m3u8 不可用，立即换新 Profile。\n");
                self.next_fresh(a, notices)
            },
            Phase::AllowCheck(a) => {
                push_log(notices, attempt_string("浏览器响应正文模式尝试 ", a, " 未得到可用 playlist。\n"));
                self.next_allow(a, notices)
            },
            _ => ExtractAction::Finish(Err(String::new())),
        }
    }

    fn check_from(&mut self, k: usize, notices: &mut Vec<Notice>) -> (r: ExtractAction)
        requires
            phase_ok(old(self).phase),
            is_check_phase(old(self).phase),
            k <= old(self).pending@.len(),
        ensures
            ({
                let o = spec_check_from(ex_view(*old(self)), k as nat, notice_views(old(notices)@));
                &&& ex_view(*final(self)) == o.state
                &&& notice_views(final(notices)@) == o.notices
                &&& action_view(r) == o.action
            }),
            final(self).pending == old(self).pending,
            ex_ok(*final(self)),
    {
        self.next = k;
        if k >= self.pending.len() {
            return self.exhausted(notices);
        }
        let url = self.pending[k].url.clone();
        let merged = merge_headers(&self.pending[k].headers, &self.page_headers);
        let mut line = chars_of("校验候选 m3u8: ");
        push_all(&mut line, url.as_str());
        push_all(&mut line, "\n");
        push_log(notices, string_of(line.as_slice()));
        match request_headers_line(&merged) {
            Some(h) => {
                let ghost before = notice_views(notices@);
                push_log(notices, h);
                assert(notice_views(notices@) =~= before + header_notices(merged));
            },
            None => {
                assert(notice_views(notices@) =~= notice_views(notices@) + header_notices(merged));
            },
        }
        let text = clone_opt(&self.pending[k].playlist_text);
        match text {
            Some(t) => {
                if playlist_kind(t.as_str()).is_some() {
                    push_log_str(notices, "候选已带浏览器响应正文，校验通过。\n");
                    let e = ExtractedM3u8 {
                        url,
                        headers: merged,
                        playlist_text: Some(t),
                        suggested_name: clone_opt(&self.pending[k].suggested_name),
                    };
                    self.found(e, notices)
                } else {
                    let mut line = chars_of("候选浏览器响应不是有效 HLS，响应摘要: ");
                    push_all(&mut line, response_preview(t.as_str()).as_str());
                    push_all(&mut line, "\n");
                    push_log(notices, string_of(line.as_slice()));
                    ExtractAction::Fetch(url, merged)
                }
            },
            None => ExtractAction::Fetch(url, merged),
        }
    }

    /// Takes the addresses found by a static scan, or its error.
    pub fn static_scanned(&mut self, result: Result<Vec<WebUrl>, String>) -> (r: (Vec<Notice>, ExtractAction))
        requires
            ex_ok(*old(self)),
            old(self).phase is Static,
        ensures
            ex_ok(*final(self)),
            ({
                let o = spec_static_scanned(
                    ex_view(*old(self)),
                    old(self).phase->Static_0,
                    match result {
                        Ok(v) => Ok(crate::candidates::url_views(v@)),
                        Err(e) => Err(e@),
                    },
                );
                &&& ex_view(*final(self)) == o.state
                &&& notice_views(r.0@) == o.notices
                &&& action_view(r.1) == o.action
            }),
    {
        let a = match self.phase {
            Phase::Static(a) => a,
            _ => 1,
        };
        let mut notices: Vec<Notice> = Vec::new();
        assert(notice_views(notices@) =~= Seq::<NoticeView>::empty());
        match result {
            Ok(urls) => {
                let mut pending: Vec<BrowserCandidate> = Vec::new();
                let mut i: usize = 0;
                assert(candidate_views(pending@) =~= Seq::<CandidateView>::empty());
                while i < urls.len()
                    invariant
                        i <= urls@.len(),
                        candidate_views(pending@) == static_candidates(crate::candidates::url_views(urls@).take(i as int)),
                    decreases urls@.len() - i,
                {
                    let ghost before = candidate_views(pending@);
                    let c = BrowserCandidate {
                        url: urls[i].clone(),
                        headers: RequestHeaders::default(),
                        playlist_text: None,
                        suggested_name: None,
                    };
                    let ghost cv = candidate_view(c);
                    pending.push(c);
                    assert(candidate_views(pending@) =~= before.push(cv));
                    assert(static_candidates(crate::candidates::url_views(urls@).take(i + 1)) =~= static_candidates(
                        crate::candidates::url_views(urls@).take(i as int),
                    ).push(cv));
                    i = i + 1;
                }
                assert(crate::candidates::url_views(urls@).take(urls@.len() as int) =~= crate::candidates::url_views(urls@));
                self.phase = Phase::StaticCheck(a);
                self.pending = pending;
                let action = self.check_from(0, &mut notices);
                (notices, action)
            },
            Err(e) => {
                let mut line = chars_of("本次静态扫描失败：");
                push_all(&mut line, e.as_str());
                push_all(&mut line, "\n");
                push_log(&mut notices, string_of(line.as_slice()));
                let action = if contains_chars(&chars_of(e.as_str()), &chars_of("404 Not Found")) {
                    push_log_str(&mut notices, "网页静态请求返回 404，跳过后续静态重试。\n");
                    self.begin_browser(&mut notices)
                } else {
                    self.after_static(a, &mut notices)
                };
                (notices, action)
            },
        }
    }

    /// Takes the end of the pause between static attempts.
    pub fn slept(&mut self) -> (r: (Vec<Notice>, ExtractAction))
        requires
            ex_ok(*old(self)),
            old(self).phase is StaticSleep,
        ensures
            ex_ok(*final(self)),
            ({
                let o = spec_slept(ex_view(*old(self)), old(self).phase->StaticSleep_0);
                &&& ex_view(*final(self)) == o.state
                &&& notice_views(r.0@) == o.notices
                &&& action_view(r.1) == o.action
            }),
    {
        let a = match self.phase {
            Phase::StaticSleep(a) => a,
            _ => 1,
        };
        let mut notices: Vec<Notice> = Vec::new();
        assert(notice_views(notices@) =~= Seq::<NoticeView>::empty());
        push_log(&mut notices, attempt_string("静态扫描尝试 ", a + 1, "。\n"));
        self.phase = Phase::Static(a + 1);
        (notices, ExtractAction::ScanStatic)
    }

    /// Takes the candidates of a browser run, or its error.
    pub fn browser_ran(&mut self, result: Result<Vec<BrowserCandidate>, String>) -> (r: (Vec<Notice>, ExtractAction))
        requires
            ex_ok(*old(self)),
            old(self).phase is Persistent || old(self).phase is Fresh || old(self).phase is Allow,
        ensures
            ex_ok(*final(self)),
            ({
                let o = spec_browser_ran(
                    ex_view(*old(self)),
                    match result {
                        Ok(v) => Ok(candidate_views(v@)),
                        Err(e) => Err(e@),
                    },
                );
                &&& ex_view(*final(self)) == o.state
                &&& notice_views(r.0@) == o.notices
                &&& action_view(r.1) == o.action
            }),
    {
        let mut notices: Vec<Notice> = Vec::new();
        assert(notice_views(notices@) =~= Seq::<NoticeView>::empty());
        match self.phase {
            Phase::Persistent => match result {
                Err(e) => {
                    self.phase = Phase::Done;
                    (notices, ExtractAction::Finish(Err(e)))
                },
                Ok(c) => {
                    if self.first_unverified.is_none() {
                        self.first_unverified = first_direct_candidate(&c, &self.page_headers);
                    }
                    self.phase = Phase::PersistentCheck;
                    self.pending = c;
                    let action = self.check_from(0, &mut notices);
                    (notices, action)
                },
            },
            Phase::Fresh(a) => match result {
                Err(e) => {
                    let mut tail = chars_of(" 捕获失败：");
                    push_all(&mut tail, e.as_str());
                    push_all(&mut tail, "\n");
                    let tail_s = string_of(tail.as_slice());
                    push_log(&mut notices, attempt_string("全新临时 Profile 尝试 ", a, tail_s.as_str()));
                    let action = self.next_fresh(a, &mut notices);
                    (notices, action)
                },
                Ok(c) => {
                    if self.first_unverified.is_none() {
                        self.first_unverified = first_direct_candidate(&c, &self.page_headers);
                    }
                    if self.short_token && c.len() > 0 {
                        push_log_str(&mut notices, "短 token 站点已提取到 m3u8，立即请求第一个候选 playlist。\n");
                        let mut first: Vec<BrowserCandidate> = Vec::new();
                        let ghost c0 = candidate_view(c@[0]);
                        let mut c = c;
                        let head = c.remove(0);
                        assert(candidate_view(head) == c0);
                        first.push(head);
                        assert(candidate_views(first@) =~= seq![c0]);
                        self.phase = Phase::FreshFirstCheck(a);
                        self.pending = first;
                        let action = self.check_from(0, &mut notices);
                        (notices, action)
                    } else {
                        self.phase = Phase::FreshCheck(a);
                        self.pending = c;
                        let action = self.check_from(0, &mut notices);
                        (notices, action)
                    }
                },
            },
            Phase::Allow(a) => match result {
                Err(e) => {
                    let mut tail = chars_of(" 捕获失败：");
                    push_all(&mut tail, e.as_str());
                    push_all(&mut tail, "\n");
                    let tail_s = string_of(tail.as_slice());
                    push_log(&mut notices, attempt_string("浏览器响应正文模式尝试 ", a, tail_s.as_str()));
                    let action = self.next_allow(a, &mut notices);
                    (notices, action)
                },
                Ok(c) => {
                    self.phase = Phase::AllowCheck(a);
                    self.pending = c;
                    let action = self.check_from(0, &mut notices);
                    (notices, action)
                },
            },
            _ => (notices, ExtractAction::Finish(Err(String::new()))),
        }
    }

    /// Takes the body of the playlist of the candidate under check, or the error of
    /// fetching it.
    pub fn playlist_fetched(&mut self, result: Result<String, String>) -> (r: (Vec<Notice>, ExtractAction))
        requires
            ex_ok(*old(self)),
            is_check_phase(old(self).phase),
        ensures
            ex_ok(*final(self)),
            ({
                let o = spec_playlist_fetched(
                    ex_view(*old(self)),
                    match result {
                        Ok(t) => Ok(t@),
                        Err(e) => Err(e@),
                    },
                );
                &&& ex_view(*final(self)) == o.state
                &&& notice_views(r.0@) == o.notices
                &&& action_view(r.1) == o.action
            }),
    {
        let mut notices: Vec<Notice> = Vec::new();
        assert(notice_views(notices@) =~= Seq::<NoticeView>::empty());
        let k = self.next;
        let count = self.pending.len();
        assert(k < count);
        let merged = merge_headers(&self.pending[k].headers, &self.page_headers);
        match result {
            Ok(t) => {
                if playlist_kind(t.as_str()).is_some() {
                    push_log_str(&mut notices, "候选校验通过。\n");
                    let e = ExtractedM3u8 {
                        url: self.pending[k].url.clone(),
                        headers: merged,
                        playlist_text: Some(t),
                        suggested_name: clone_opt(&self.pending[k].suggested_name),
                    };
                    let action = self.found(e, &mut notices);
                    proof {
                        assert(ex_ok(*self));
                    }
                    (notices, action)
                } else {
                    let mut line = chars_of("候选不是有效 HLS，响应摘要: ");
                    push_all(&mut line, response_preview(t.as_str()).as_str());
                    push_all(&mut line, "\n");
                    push_log(&mut notices, string_of(line.as_slice()));
                    let action = self.check_from(k + 1, &mut notices);
                    (notices, action)
                }
            },
            Err(e) => {
                let mut line = chars_of("候选校验失败: ");
                push_all(&mut line, self.pending[k].url.as_str());
                push_all(&mut line, "，");
                push_all(&mut line, e.as_str());
                push_all(&mut line, "\n");
                push_log(&mut notices, string_of(line.as_slice()));
                let action = self.check_from(k + 1, &mut notices);
                (notices, action)
            },
        }
    }
}

} // verus!

verus! {

/// Short-token sites never use the persistent profile: once the static scans are over,
/// their first browser run is a fresh profile; other sites start with the persistent
/// profile.
pub proof fn lemma_browser_begins_by_site(s: ExtractionView, acc: Seq<NoticeView>)
    ensures
        s.short_token ==> spec_begin_browser(s, acc).action == ActionView::RunBrowser(
            ProfileChoice::Fresh(1),
            attempt_text("全新临时 Profile "@, 1, ""@),
            "abort"@,
        ),
        !s.short_token ==> spec_begin_browser(s, acc).action == ActionView::RunBrowser(
            ProfileChoice::Persistent,
            "持久 Profile"@,
            "abort"@,
        ),
{
}

/// A failed run with the persistent profile ends the extraction with that run's error.
pub proof fn lemma_persistent_failure_is_final(s: ExtractionView, e: Seq<char>)
    requires
        s.phase == Phase::Persistent,
    ensures
        spec_browser_ran(s, Err(e)).action == ActionView::Finish(Err(e)),
        spec_browser_ran(s, Err(e)).state.phase == Phase::Done,
{
}

/// After the third fresh profile, a site without short-lived tokens uses the first
/// captured candidate unchecked if there was one; without one the extraction fails.
pub proof fn lemma_after_fresh_fallback(s: ExtractionView, acc: Seq<NoticeView>)
    requires
        !s.short_token,
    ensures
        s.first_unverified matches Some(x) ==> spec_after_fresh(s, acc).action == ActionView::Finish(Ok(x)),
        s.first_unverified is None ==> spec_after_fresh(s, acc).action == ActionView::Finish(
            Err(no_playlist_message()),
        ),
{
}

} // verus!
