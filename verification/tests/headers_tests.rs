use streamweave::args::{aria2_args, ffmpeg_merge_args, ffprobe_stream_args, ffprobe_verify_args, parse_extra_args};
use streamweave::headers::{
    inferred_direct_m3u8_headers, is_short_token_page, merge_headers, page_origin,
    page_request_headers, request_header_pairs, request_headers_line,
    should_direct_download_first_candidate, should_try_persistent_profile, RequestHeaders,
    BROWSER_USER_AGENT,
};
use streamweave::urls::WebUrl;

fn headers(referer: Option<&str>, origin: Option<&str>, cookie: Option<&str>) -> RequestHeaders {
    RequestHeaders {
        referer: referer.map(str::to_string),
        origin: origin.map(str::to_string),
        cookie: cookie.map(str::to_string),
        user_agent: None,
        accept: None,
        accept_language: None,
    }
}

#[test]
fn merging_headers() {
    let fallback = RequestHeaders {
        user_agent: Some("UA".to_string()),
        ..headers(Some("https://page/"), Some("https://page"), Some("c=1"))
    };
    let own = headers(Some("https://own/"), None, None);
    let merged = merge_headers(&own, &fallback);
    assert_eq!(merged.referer.as_deref(), Some("https://own/"));
    assert_eq!(merged.cookie, None);
    assert_eq!(merged.user_agent, None);
    let cookie_only = headers(None, None, Some("own=1"));
    let merged = merge_headers(&cookie_only, &fallback);
    assert_eq!(merged.referer.as_deref(), Some("https://page/"));
    assert_eq!(merged.origin.as_deref(), Some("https://page"));
    assert_eq!(merged.cookie.as_deref(), Some("own=1"));
    assert_eq!(merged.user_agent.as_deref(), Some("UA"));
    let none = merge_headers(&RequestHeaders::default(), &fallback);
    assert_eq!(none.referer, fallback.referer);
    assert_eq!(none.user_agent, fallback.user_agent);
}

#[test]
fn short_token_sites() {
    for page in ["https://nvhai86.top/v/1", "https://HAOUU8.top/", "https://pochu123.top/a"] {
        let u = WebUrl::parse(page).unwrap();
        assert!(is_short_token_page(&u), "{page}");
        assert!(should_direct_download_first_candidate(&u));
        assert!(!should_try_persistent_profile(&u));
    }
    for page in ["https://example.com/", "https://pochu.com/", "https://x.haouu8.top/", "file:///tmp/a"] {
        let u = WebUrl::parse(page).unwrap();
        assert!(!is_short_token_page(&u), "{page}");
        assert!(should_try_persistent_profile(&u));
    }
}

#[test]
fn inferred_headers() {
    let u = WebUrl::parse("https://v.LLDVIDEO.top/x/index.m3u8").unwrap();
    let h = inferred_direct_m3u8_headers(&u);
    assert_eq!(h.referer.as_deref(), Some("https://haouu8.top/"));
    assert_eq!(h.user_agent.as_deref(), Some(BROWSER_USER_AGENT));
    assert_eq!(h.origin, None);
    let other = inferred_direct_m3u8_headers(&WebUrl::parse("https://notlldvideo.top/a.m3u8").unwrap());
    assert_eq!(other.referer, None);
    assert_eq!(other.user_agent, None);
}

#[test]
fn origins_and_page_headers() {
    let u = WebUrl::parse("https://Example.com:8443/watch?v=1").unwrap();
    assert_eq!(page_origin(&u).as_deref(), Some("https://example.com"));
    assert_eq!(page_origin(&WebUrl::parse("data:text/plain,x").unwrap()), None);
    let h = page_request_headers(&u);
    assert_eq!(h.referer.as_deref(), Some("https://example.com:8443/watch?v=1"));
    assert_eq!(h.origin.as_deref(), Some("https://example.com"));
}

#[test]
fn header_log_lines() {
    assert_eq!(request_headers_line(&RequestHeaders::default()), None);
    let only_accept = RequestHeaders { accept: Some("*/*".to_string()), ..RequestHeaders::default() };
    assert_eq!(request_headers_line(&only_accept), None);
    let h = RequestHeaders { user_agent: Some("UA".to_string()), ..headers(Some("https://r/"), None, Some("c=1")) };
    assert_eq!(
        request_headers_line(&h).unwrap(),
        "使用请求头: Referer=https://r/ Origin=<无> Cookie=<有> UA=<有>\n"
    );
}

#[test]
fn header_pairs() {
    let h = RequestHeaders {
        accept_language: Some("zh".to_string()),
        ..headers(Some("https://r/"), None, Some("c=1"))
    };
    let pairs = request_header_pairs(&h);
    assert_eq!(
        pairs,
        vec![
            ("Referer".to_string(), "https://r/".to_string()),
            ("Cookie".to_string(), "c=1".to_string()),
            ("Accept-Language".to_string(), "zh".to_string()),
        ]
    );
}

#[test]
fn extra_arguments() {
    assert_eq!(parse_extra_args(None).unwrap(), Vec::<String>::new());
    assert_eq!(parse_extra_args(Some("   ")).unwrap(), Vec::<String>::new());
    assert_eq!(
        parse_extra_args(Some(" --a  \"b c\" 'd\\'e' f\\ g ")).unwrap(),
        vec!["--a".to_string(), "b c".to_string(), "d'e".to_string(), "f g".to_string()]
    );
    assert_eq!(parse_extra_args(Some("a\"\"b")).unwrap(), vec!["ab".to_string()]);
    assert_eq!(parse_extra_args(Some("\"open")).unwrap_err(), "附加参数中的引号未闭合。");
    assert_eq!(parse_extra_args(Some("x\\")).unwrap(), vec!["x".to_string()]);
}

#[test]
fn tool_command_lines() {
    let h = RequestHeaders { accept: Some("*/*".to_string()), ..headers(Some("https://r/"), None, None) };
    let args = aria2_args("/w", &h, Some("--max-connection-per-server=4")).unwrap();
    assert_eq!(&args[..5], &["--enable-rpc=false", "-i", "/w/aria2.txt", "-d", "/w/parts"]);
    assert_eq!(args[15], "--header=Referer: https://r/");
    assert_eq!(args[16], format!("--user-agent={BROWSER_USER_AGENT}"));
    assert_eq!(args[17], "--header=Accept: */*");
    assert_eq!(args[18], "--max-connection-per-server=4");
    assert_eq!(args.len(), 19);
    assert_eq!(aria2_args("/w", &h, Some("'")).unwrap_err(), "附加参数中的引号未闭合。");
    let merge = ffmpeg_merge_args("/w", "/out/a.mp4", Some("-movflags +faststart")).unwrap();
    assert_eq!(merge[7], "/w/concat.txt");
    assert_eq!(&merge[12..], &["-movflags", "+faststart", "/out/a.mp4"]);
    assert_eq!(ffprobe_stream_args("/p/s.ts").last().unwrap(), "/p/s.ts");
    assert_eq!(ffprobe_verify_args("/o.mp4")[4], "format=duration,size");
}
