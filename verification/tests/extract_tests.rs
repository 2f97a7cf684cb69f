use streamweave::browser::{
    browser_launch_log, browser_script_args, candidate_log, capture_count_log, capture_result,
    collect_browser_candidates, first_direct_candidate, parse_browser_candidate, BrowserCandidate,
    CandidateFields, CandidateItem,
};
use streamweave::extract::{ExtractAction, Extraction, Notice, ProfileChoice};
use streamweave::headers::RequestHeaders;
use streamweave::settings::BrowserLaunchMode;
use streamweave::urls::WebUrl;

const MEDIA: &str = "#EXTM3U\n#EXTINF:4,\na.ts\n";

fn url(s: &str) -> WebUrl {
    WebUrl::parse(s).unwrap()
}

fn logs(notices: &[Notice]) -> Vec<String> {
    notices
        .iter()
        .map(|n| match n {
            Notice::Log(l) => l.clone(),
            Notice::Stage(s) => format!("[stage] {s}"),
        })
        .collect()
}

fn fields(u: &str) -> CandidateFields {
    CandidateFields {
        url: Some(u.to_string()),
        referer: Some("https://page.example/".to_string()),
        origin: Some(String::new()),
        cookie: None,
        user_agent: None,
        accept: None,
        accept_language: None,
        playlist_text: None,
        page_title: Some("好看的视频 - 在线观看".to_string()),
    }
}

#[test]
fn browser_candidates() {
    let page = url("https://page.example/watch/1");
    let c = parse_browser_candidate(&page, &CandidateItem::Text("/v/a.m3u8".to_string())).unwrap();
    assert_eq!(c.url.as_str(), "https://page.example/v/a.m3u8");
    assert!(c.headers.referer.is_none());
    let c = parse_browser_candidate(&page, &CandidateItem::Fields(fields("https://cdn/x.m3u8"))).unwrap();
    assert_eq!(c.headers.referer.as_deref(), Some("https://page.example/"));
    assert_eq!(c.headers.origin, None);
    assert_eq!(c.suggested_name.as_deref(), Some("好看的视频"));
    assert!(parse_browser_candidate(&page, &CandidateItem::Other).is_none());
    let mut no_url = fields("x");
    no_url.url = None;
    assert!(parse_browser_candidate(&page, &CandidateItem::Fields(no_url)).is_none());
    let items = vec![
        CandidateItem::Text("https://cdn/x.m3u8".to_string()),
        CandidateItem::Fields(fields("https://cdn/x.m3u8")),
        CandidateItem::Text("https://cdn/y.m3u8".to_string()),
    ];
    let all = collect_browser_candidates(&page, &items);
    assert_eq!(all.len(), 2);
    assert!(all[0].headers.referer.is_none());
    let fallback = RequestHeaders { cookie: Some("c".to_string()), ..RequestHeaders::default() };
    let first = first_direct_candidate(&all, &fallback).unwrap();
    assert_eq!(first.url.as_str(), "https://cdn/x.m3u8");
    assert_eq!(first.headers.cookie.as_deref(), Some("c"));
    assert!(first_direct_candidate(&Vec::new(), &fallback).is_none());
    assert_eq!(
        candidate_log("持久 Profile", &all),
        vec!["持久 Profile #1: https://cdn/x.m3u8\n".to_string(), "持久 Profile #2: https://cdn/y.m3u8\n".to_string()]
    );
}

#[test]
fn capture_results() {
    let page = url("https://page.example/watch/1");
    assert_eq!(
        capture_result(&page, false, "a\nlast\n", Ok(None)).err().unwrap(),
        "网页网络捕获失败。错误输出：a | last"
    );
    assert_eq!(
        capture_result(&page, true, "", Err("expected value".to_string())).err().unwrap(),
        "解析网页提取结果失败：expected value"
    );
    assert_eq!(capture_result(&page, true, "", Ok(None)).err().unwrap(), "网页提取脚本没有返回候选地址。");
    let got = capture_result(&page, true, "", Ok(Some(vec![CandidateItem::Text("a.m3u8".to_string())]))).unwrap();
    assert_eq!(got[0].url.as_str(), "https://page.example/watch/a.m3u8");
    assert_eq!(capture_count_log("全新临时 Profile 1/3", 2), "全新临时 Profile 1/3 捕获发现 2 个候选地址。\n");
}

#[test]
fn script_invocation() {
    let page = url("https://page.example/watch/1");
    let args = browser_script_args("/s.mjs", &page, "/prof", "abort", BrowserLaunchMode::Headless);
    assert_eq!(args[..6], ["/s.mjs", "https://page.example/watch/1", "/prof", "15000", "3", "abort"]);
    assert_eq!(args.len(), 7);
    let lines = browser_launch_log("/s.mjs", "持久 Profile", BrowserLaunchMode::Headed, "/prof");
    assert_eq!(lines[0], "网页提取脚本: /s.mjs\n");
    assert!(lines[1].starts_with("启动 Playwright 捕获网络请求（持久 Profile，"));
    assert!(lines[2].ends_with("，将最多尝试 3 轮加载，每轮等待 15 秒。\n"));
}

#[test]
fn static_scan_finds_playlist() {
    let (mut ex, notices, action) = Extraction::start(url("https://page.example/watch/1"));
    assert_eq!(
        logs(&notices),
        vec![
            "[stage] 正在解析网页".to_string(),
            "网页 URL: https://page.example/watch/1\n".to_string(),
            "[stage] 正在静态扫描".to_string(),
            "静态扫描尝试 1/3。\n".to_string(),
        ]
    );
    assert!(matches!(action, ExtractAction::ScanStatic));
    let (n, a) = ex.static_scanned(Ok(vec![url("https://cdn/a.m3u8"), url("https://cdn/b.m3u8")]));
    match a {
        ExtractAction::Fetch(u, h) => {
            assert_eq!(u.as_str(), "https://cdn/a.m3u8");
            assert_eq!(h.referer.as_deref(), Some("https://page.example/watch/1"));
        }
        _ => panic!("first candidate is fetched"),
    }
    assert_eq!(logs(&n)[0], "校验候选 m3u8: https://cdn/a.m3u8\n");
    let (n, a) = ex.playlist_fetched(Err("HTTP 404".to_string()));
    assert_eq!(logs(&n)[0], "候选校验失败: https://cdn/a.m3u8，HTTP 404\n");
    assert!(matches!(a, ExtractAction::Fetch(ref u, _) if u.as_str() == "https://cdn/b.m3u8"));
    let (n, a) = ex.playlist_fetched(Ok(MEDIA.to_string()));
    assert_eq!(logs(&n), vec!["候选校验通过。\n".to_string(), "静态扫描找到 m3u8: https://cdn/b.m3u8\n".to_string()]);
    match a {
        ExtractAction::Finish(Ok(e)) => {
            assert_eq!(e.url.as_str(), "https://cdn/b.m3u8");
            assert_eq!(e.playlist_text.as_deref(), Some(MEDIA));
        }
        _ => panic!("found"),
    }
}

#[test]
fn static_404_skips_to_browser_and_falls_back() {
    let (mut ex, _, _) = Extraction::start(url("https://page.example/watch/1"));
    let (n, a) = ex.static_scanned(Err("网页请求失败，HTTP 状态码：404 Not Found，响应摘要：x".to_string()));
    let l = logs(&n);
    assert_eq!(l[1], "网页静态请求返回 404，跳过后续静态重试。\n");
    assert_eq!(l[3], "[stage] 正在捕获网络请求");
    assert!(matches!(a, ExtractAction::RunBrowser(ProfileChoice::Persistent, ref label, ref mode) if label == "持久 Profile" && mode == "abort"));
    let cand = BrowserCandidate {
        url: url("https://cdn/p.m3u8"),
        headers: RequestHeaders::default(),
        playlist_text: Some("not a playlist".to_string()),
        suggested_name: None,
    };
    let (n, a) = ex.browser_ran(Ok(vec![cand]));
    assert!(logs(&n).iter().any(|l| l.starts_with("候选浏览器响应不是有效 HLS，响应摘要: not a playlist")));
    assert!(matches!(a, ExtractAction::Fetch(..)));
    let (n, a) = ex.playlist_fetched(Ok("<html>".to_string()));
    assert!(logs(&n).iter().any(|l| l == "持久 Profile 未捕获到可验证的 m3u8，改用全新临时 Profile 多轮重试。\n"));
    assert!(matches!(a, ExtractAction::RunBrowser(ProfileChoice::Fresh(1), ref label, _) if label == "全新临时 Profile 1/3"));
    let (_, a) = ex.browser_ran(Err("x".to_string()));
    assert!(matches!(a, ExtractAction::RunBrowser(ProfileChoice::Fresh(2), _, _)));
    let (_, a) = ex.browser_ran(Ok(vec![]));
    assert!(matches!(a, ExtractAction::RunBrowser(ProfileChoice::Fresh(3), _, _)));
    let (n, a) = ex.browser_ran(Ok(vec![]));
    assert_eq!(
        logs(&n).last().unwrap(),
        "网络捕获找到 m3u8: https://cdn/p.m3u8\n"
    );
    match a {
        ExtractAction::Finish(Ok(e)) => assert_eq!(e.url.as_str(), "https://cdn/p.m3u8"),
        _ => panic!("first unverified candidate is used"),
    }
}

#[test]
fn static_retries_then_nothing_found() {
    let (mut ex, _, _) = Extraction::start(url("https://page.example/watch/1"));
    let (n, a) = ex.static_scanned(Ok(vec![]));
    assert_eq!(logs(&n), vec!["本次静态扫描未找到可验证的 m3u8。\n".to_string(), "等待 1 秒后重试静态扫描。\n".to_string()]);
    assert!(matches!(a, ExtractAction::Sleep));
    let (n, a) = ex.slept();
    assert_eq!(logs(&n), vec!["静态扫描尝试 2/3。\n".to_string()]);
    assert!(matches!(a, ExtractAction::ScanStatic));
    ex.static_scanned(Err("timeout".to_string()));
    ex.slept();
    let (_, a) = ex.static_scanned(Err("timeout".to_string()));
    assert!(matches!(a, ExtractAction::RunBrowser(ProfileChoice::Persistent, _, _)));
    let (_, a) = ex.browser_ran(Ok(vec![]));
    assert!(matches!(a, ExtractAction::RunBrowser(ProfileChoice::Fresh(1), _, _)));
    ex.browser_ran(Ok(vec![]));
    ex.browser_ran(Ok(vec![]));
    let (_, a) = ex.browser_ran(Ok(vec![]));
    match a {
        ExtractAction::Finish(Err(m)) => {
            assert_eq!(m, "没有从网页中提取到可用 m3u8。若页面需要登录，请在弹出的提取浏览器中登录后重试。")
        }
        _ => panic!("nothing found"),
    }
}

#[test]
fn persistent_failure_ends_extraction() {
    let (mut ex, _, _) = Extraction::start(url("https://page.example/watch/1"));
    ex.static_scanned(Err("404 Not Found".to_string()));
    let (_, a) = ex.browser_ran(Err("启动网页提取脚本失败：x".to_string()));
    assert!(matches!(a, ExtractAction::Finish(Err(ref m)) if m == "启动网页提取脚本失败：x"));
}

#[test]
fn short_token_site_flow() {
    let (mut ex, _, _) = Extraction::start(url("https://haouu8.top/play/9"));
    let (n, a) = ex.static_scanned(Err("404 Not Found".to_string()));
    assert!(logs(&n).iter().any(|l| l == "该站点优先使用全新临时 Profile，跳过持久 Profile。\n"));
    assert!(matches!(a, ExtractAction::RunBrowser(ProfileChoice::Fresh(1), _, ref m) if m == "abort"));
    let c = |u: &str| BrowserCandidate {
        url: url(u),
        headers: RequestHeaders::default(),
        playlist_text: None,
        suggested_name: None,
    };
    let (n, a) = ex.browser_ran(Ok(vec![c("https://cdn/1.m3u8"), c("https://cdn/2.m3u8")]));
    assert_eq!(logs(&n)[0], "短 token 站点已提取到 m3u8，立即请求第一个候选 playlist。\n");
    assert!(matches!(a, ExtractAction::Fetch(ref u, _) if u.as_str() == "https://cdn/1.m3u8"));
    let (n, a) = ex.playlist_fetched(Err("404".to_string()));
    assert!(logs(&n).iter().any(|l| l == "本次短 token m3u8 不可用，立即换新 Profile。\n"));
    assert!(matches!(a, ExtractAction::RunBrowser(ProfileChoice::Fresh(2), _, _)));
    ex.browser_ran(Err("x".to_string()));
    let (n, a) = ex.browser_ran(Ok(vec![]));
    assert!(logs(&n).iter().any(|l| l == "中止浏览器 m3u8 请求模式未成功，改用浏览器响应正文模式重试。\n"));
    assert!(matches!(a, ExtractAction::RunBrowser(ProfileChoice::FreshAllow(1), ref label, ref m) if label == "浏览器响应正文模式 1/3" && m == "allow"));
    let with_body = BrowserCandidate { playlist_text: Some(MEDIA.to_string()), ..c("https://cdn/3.m3u8") };
    let (n, a) = ex.browser_ran(Ok(vec![with_body]));
    assert!(logs(&n).iter().any(|l| l == "候选已带浏览器响应正文，校验通过。\n"));
    assert!(matches!(a, ExtractAction::Finish(Ok(ref e)) if e.url.as_str() == "https://cdn/3.m3u8"));
}

#[test]
fn short_token_site_gives_up() {
    let (mut ex, _, _) = Extraction::start(url("https://nvhai86.top/play/9"));
    ex.static_scanned(Err("404 Not Found".to_string()));
    let c = BrowserCandidate {
        url: url("https://cdn/1.m3u8"),
        headers: RequestHeaders::default(),
        playlist_text: None,
        suggested_name: None,
    };
    ex.browser_ran(Ok(vec![c]));
    ex.playlist_fetched(Err("404".to_string()));
    ex.browser_ran(Ok(vec![]));
    ex.browser_ran(Ok(vec![]));
    ex.browser_ran(Err("a".to_string()));
    let (n, _) = ex.browser_ran(Err("b".to_string()));
    assert_eq!(logs(&n)[0], "浏览器响应正文模式尝试 2/3 捕获失败：b\n");
    let (_, a) = ex.browser_ran(Ok(vec![]));
    assert!(matches!(a, ExtractAction::Finish(Err(ref m)) if m == "已提取到 m3u8 候选，但服务端对所有短 token 候选都返回 404 或无效 playlist。"));
}
