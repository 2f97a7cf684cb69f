use streamweave::fetch::{
    binary_fetch_result, page_fetch_result, page_fetch_start_line, static_candidates_log, text_fetch_result,
    BinaryReply, HttpReply,
};
use streamweave::names::{fresh_profile_name, output_name, sanitize_file_stem, stable_hash};
use streamweave::probe::verify_failure_message;
use streamweave::urls::WebUrl;

#[test]
fn page_replies() {
    let page = WebUrl::parse("https://example.com/watch").unwrap();
    assert_eq!(page_fetch_start_line(&page), "开始请求网页 HTML: https://example.com/watch\n");
    let (logs, r) = page_fetch_result(HttpReply::SendFailed("timeout".to_string()));
    assert!(logs.is_empty());
    assert_eq!(r, Err("网页请求失败：timeout".to_string()));
    let (logs, r) = page_fetch_result(HttpReply::Refused("404 Not Found".to_string(), "gone\nnow".to_string()));
    assert_eq!(logs, vec!["网页 HTTP 状态码: 404 Not Found\n".to_string()]);
    assert_eq!(r, Err("网页请求失败，HTTP 状态码：404 Not Found，响应摘要：gone\\nnow".to_string()));
    let (logs, r) = page_fetch_result(HttpReply::Body("200 OK".to_string(), Err("decode".to_string())));
    assert_eq!(logs.len(), 1);
    assert_eq!(r, Err("读取网页内容失败：decode".to_string()));
    let (logs, r) = page_fetch_result(HttpReply::Body("200 OK".to_string(), Ok("<p>你好</p>".to_string())));
    assert_eq!(logs, vec!["网页 HTTP 状态码: 200 OK\n".to_string(), "静态 HTML 响应长度: 9 字符。\n".to_string()]);
    assert_eq!(r, Ok("<p>你好</p>".to_string()));
}

#[test]
fn static_candidate_lines() {
    let a = WebUrl::parse("https://cdn.example/a.m3u8").unwrap();
    let b = WebUrl::parse("https://cdn.example/b.m3u8").unwrap();
    assert_eq!(static_candidates_log(&vec![]), vec!["静态扫描发现 0 个候选地址。\n".to_string()]);
    assert_eq!(
        static_candidates_log(&vec![a, b]),
        vec![
            "静态扫描发现 2 个候选地址。\n".to_string(),
            "静态候选 #1: https://cdn.example/a.m3u8\n".to_string(),
            "静态候选 #2: https://cdn.example/b.m3u8\n".to_string(),
        ]
    );
}

#[test]
fn playlist_and_key_replies() {
    assert_eq!(
        text_fetch_result(HttpReply::SendFailed("dns".to_string())),
        Err("网络请求失败，请检查链接是否可访问：dns".to_string())
    );
    assert_eq!(
        text_fetch_result(HttpReply::Refused("403 Forbidden".to_string(), String::new())),
        Err("m3u8 请求失败，HTTP 状态码：403 Forbidden，响应摘要：<空响应>".to_string())
    );
    assert_eq!(
        text_fetch_result(HttpReply::Body("200 OK".to_string(), Err("eof".to_string()))),
        Err("读取 m3u8 内容失败：eof".to_string())
    );
    assert_eq!(text_fetch_result(HttpReply::Body("200 OK".to_string(), Ok("#EXTM3U".to_string()))), Ok("#EXTM3U".to_string()));
    assert_eq!(binary_fetch_result(BinaryReply::Body(Ok(vec![1, 2, 3]))), Ok(vec![1, 2, 3]));
    assert_eq!(
        binary_fetch_result(BinaryReply::Body(Err("eof".to_string()))),
        Err("读取二进制内容失败：eof".to_string())
    );
    assert_eq!(
        binary_fetch_result(BinaryReply::Refused("500 Internal Server Error".to_string(), "oops".to_string())),
        Err("m3u8 请求失败，HTTP 状态码：500 Internal Server Error，响应摘要：oops".to_string())
    );
    assert_eq!(
        binary_fetch_result(BinaryReply::SendFailed("reset".to_string())),
        Err("网络请求失败，请检查链接是否可访问：reset".to_string())
    );
}

#[test]
fn profile_names_and_messages() {
    let page = WebUrl::parse("https://example.com/v").unwrap();
    let hash = stable_hash("https://example.com/v");
    assert_eq!(
        fresh_profile_name("20240101120000", &page, 2, false),
        format!("streamweave-browser-profile-20240101120000-{hash}-2")
    );
    assert_eq!(
        fresh_profile_name("20240101120000", &page, 3, true),
        format!("streamweave-browser-profile-20240101120000-{hash}-allow-3")
    );
    assert_eq!(verify_failure_message(""), "ffprobe 验证失败。没有错误输出。");
    assert_eq!(verify_failure_message("a\n\nb\n"), "ffprobe 验证失败。错误输出：a | b");
}

#[test]
fn cleaned_names_are_file_safe() {
    let forbidden = ['/', '\\', ':', '*', '?', '"', '<', '>', '|', '\u{7}', '\u{85}'];
    for raw in ["a/b\\c", "\u{1}x\u{9f}y", "<<Title>> | Part: 1?", &"z/".repeat(200)] {
        if let Some(name) = sanitize_file_stem(raw) {
            assert!(!name.is_empty() && name.chars().count() <= 120);
            assert!(!name.chars().any(|c| forbidden.contains(&c) || c.is_control()));
        }
    }
    let input = WebUrl::parse("https://cdn.example/path/a%3Ab.m3u8").unwrap();
    for (user, title) in [(Some("x/y"), None), (None, Some("t:1")), (None, None), (Some("///"), Some("???"))] {
        let name = output_name(&input, user.map(str::to_string), title, "20240101-000000");
        assert!(name.ends_with(".mp4"));
        let stem = name.trim_end_matches(".mp4");
        assert!(!stem.is_empty());
        assert!(!stem.chars().any(|c| forbidden.contains(&c)));
    }
    let bare = WebUrl::parse("https://cdn.example/").unwrap();
    assert_eq!(output_name(&bare, None, None, "20240101-000000"), "video-20240101-000000.mp4");
}

#[test]
fn ascii_pages_can_be_scanned() {
    let page = WebUrl::parse("https://example.com/watch/1").unwrap();
    let html = r#"<script>var src = "https:\/\/cdn.example\/Video\/INDEX.M3U8?t=1&amp;x=2";</script> 'b.m3u8'"#;
    let found = streamweave::candidates::collect_m3u8_candidates_checked(&page, html).unwrap();
    let urls: Vec<&str> = found.iter().map(|u| u.as_str()).collect();
    assert_eq!(urls, vec!["https://cdn.example/Video/INDEX.M3U8?t=1&x=2", "https://example.com/watch/b.m3u8"]);
}
