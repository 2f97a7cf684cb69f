use std::collections::VecDeque;
use streamweave::candidates::{
    candidates_scannable_check, collect_m3u8_candidates, collect_m3u8_candidates_checked,
    find_candidate_end, find_candidate_start, normalize_candidate_text, push_unique_url,
};
use streamweave::messages::{
    command_tail, escape_applescript_string, recent_lines_summary, remember_line, response_preview,
};
use streamweave::names::{output_name, sanitize_file_stem, stable_hash, working_dir_name};
use streamweave::sizes::{format_duration, format_size};
use streamweave::task::log_lines_from_text;
use streamweave::text::join_strings;
use streamweave::urls::WebUrl;

#[test]
fn previews() {
    assert_eq!(response_preview(""), "<空响应>");
    assert_eq!(response_preview("a\r\nb"), "a\\r\\nb");
    let long: String = std::iter::repeat('字').take(600).collect();
    assert_eq!(response_preview(&long).chars().count(), 500);
}

#[test]
fn command_tails() {
    assert_eq!(command_tail(""), "没有错误输出。");
    assert_eq!(command_tail("  \n\n"), "没有错误输出。");
    assert_eq!(command_tail(" a \nb\n\n c"), "错误输出：a | b | c");
    assert_eq!(command_tail("1\n2\n3\n4\n5\n6\n7\n8"), "错误输出：3 | 4 | 5 | 6 | 7 | 8");
}

#[test]
fn recent_output_keeps_twelve() {
    let mut recent: VecDeque<String> = VecDeque::new();
    assert_eq!(recent_lines_summary(&recent), "没有捕获到命令输出。");
    remember_line(&mut recent, "   ");
    assert!(recent.is_empty());
    for i in 0..15 {
        remember_line(&mut recent, &format!(" line {i}\n"));
    }
    assert_eq!(recent.len(), 12);
    assert_eq!(recent.front().unwrap(), "line 3");
    assert_eq!(recent.back().unwrap(), "line 14");
    let mut two: VecDeque<String> = VecDeque::new();
    remember_line(&mut two, "x");
    remember_line(&mut two, "y");
    assert_eq!(recent_lines_summary(&two), "最后输出：x | y");
}

#[test]
fn applescript_escaping() {
    assert_eq!(escape_applescript_string("a\\b\"c"), "a\\\\b\\\"c");
    assert_eq!(escape_applescript_string("选择下载目录"), "选择下载目录");
}

#[test]
fn candidate_text_normalization() {
    assert_eq!(
        normalize_candidate_text("https:\\/\\/a.com\\/x.m3u8?a=1\\u0026b\\u003d2\\u003f&amp;c"),
        "https://a.com/x.m3u8?a=1&b=2?&c"
    );
}

#[test]
fn candidate_bounds() {
    let text = "src=\"https://a.com/v.m3u8?t=1\" next";
    let index = text.find(".m3u8").unwrap();
    assert_eq!(find_candidate_start(text, index), 5);
    assert_eq!(find_candidate_end(text, index + 5), text.find("\" next").unwrap());
    assert_eq!(find_candidate_end(text, 1000), 1000);
    assert_eq!(find_candidate_start("abc", 0), 0);
}

#[test]
fn collecting_candidates() {
    let base = WebUrl::parse("https://site.example/watch/1").unwrap();
    let html = "<video src='https:\\/\\/cdn.example\\/a.m3u8'></video> \"/b/index.M3U8?x=1\" (https://cdn.example/a.m3u8)";
    let found = collect_m3u8_candidates(&base, html);
    let urls: Vec<&str> = found.iter().map(|u| u.as_str()).collect();
    assert_eq!(urls, vec!["https://cdn.example/a.m3u8", "https://site.example/b/index.M3U8?x=1"]);
    assert!(candidates_scannable_check(html));
    assert_eq!(collect_m3u8_candidates_checked(&base, html).unwrap().len(), 2);
    assert!(collect_m3u8_candidates(&base, "no playlists here").is_empty());
    let chinese = "视频地址：https://cdn.example/中文.m3u8 结束";
    let got = collect_m3u8_candidates_checked(&base, chinese).unwrap();
    assert_eq!(got.len(), 1);
}

#[test]
fn unique_urls() {
    let mut v: Vec<WebUrl> = Vec::new();
    push_unique_url(&mut v, WebUrl::parse("https://a.com/x").unwrap());
    push_unique_url(&mut v, WebUrl::parse("https://a.com/x").unwrap());
    push_unique_url(&mut v, WebUrl::parse("https://a.com/y").unwrap());
    assert_eq!(v.len(), 2);
}

#[test]
fn file_stems() {
    assert_eq!(sanitize_file_stem("  My Video.mp4.mp4 ").as_deref(), Some("My Video"));
    assert_eq!(sanitize_file_stem("电影 - 在线观看").as_deref(), Some("电影"));
    assert_eq!(sanitize_file_stem("节目_在线播放").as_deref(), Some("节目"));
    assert_eq!(sanitize_file_stem("a/b:c*d?e\"f<g>h|i\\j").as_deref(), Some("a b c d e f g h i j"));
    assert_eq!(sanitize_file_stem("  ..  "), None);
    assert_eq!(sanitize_file_stem("...name..."), Some("name".to_string()));
    assert_eq!(sanitize_file_stem("tab\tand\nnewline"), Some("tab and newline".to_string()));
    let long: String = std::iter::repeat('x').take(200).collect();
    assert_eq!(sanitize_file_stem(&long).unwrap().chars().count(), 120);
}

#[test]
fn output_names() {
    let input = WebUrl::parse("https://cdn.example/path/movie.m3u8?token=1").unwrap();
    assert_eq!(output_name(&input, Some("Mine".to_string()), Some("Title"), "20240101-000000"), "Mine.mp4");
    assert_eq!(output_name(&input, Some("   ".to_string()), Some("Title"), "20240101-000000"), "Title.mp4");
    assert_eq!(output_name(&input, None, None, "20240101-000000"), "movie.mp4");
    let bare = WebUrl::parse("https://cdn.example/.m3u8").unwrap();
    assert_eq!(output_name(&bare, None, None, "20240101-000000"), "video-20240101-000000.mp4");
}

#[test]
fn stable_hashes() {
    assert_eq!(stable_hash(""), 1469598103934665603);
    assert_eq!(stable_hash("a"), 4953267810257967366);
    assert_eq!(stable_hash("a"), stable_hash("a"));
    assert_ne!(stable_hash("a"), stable_hash("b"));
    let input = WebUrl::parse("https://a.com/x.m3u8").unwrap();
    let name = working_dir_name("20240101-000000", "task-1", &input);
    assert_eq!(name, format!("20240101-000000-task-1-{}", stable_hash("https://a.com/x.m3u8")));
}

fn float_size(size: u64) -> String {
    const KIB: f64 = 1024.0;
    const MIB: f64 = KIB * 1024.0;
    const GIB: f64 = MIB * 1024.0;
    let size = size as f64;
    if size >= GIB {
        format!("{:.1} GB", size / GIB)
    } else if size >= MIB {
        format!("{:.1} MB", size / MIB)
    } else if size >= KIB {
        format!("{:.1} KB", size / KIB)
    } else {
        format!("{size:.0} B")
    }
}

#[test]
fn sizes_match_float_formatting() {
    let samples: Vec<u64> = vec![
        0, 1, 1023, 1024, 1126, 1127, 1536, 1075, 1177, 1048575, 1048576, 1572864, 1073741823,
        1073741824, 1181116006, 1234567890123, 9007199254740993, u64::MAX, u64::MAX - 1024,
        18014398509481985, 5 * 1024 * 1024 + 52428, 1280, 2304, 3328, 1792, 2621440, 2883584,
    ];
    for s in samples {
        assert_eq!(format_size(s), float_size(s), "size {s}");
    }
    for s in (0u64..5000).step_by(7) {
        assert_eq!(format_size(s * 103), float_size(s * 103), "size {}", s * 103);
    }
    assert_eq!(format_size(1536), "1.5 KB");
    assert_eq!(format_size(512), "512 B");
}

#[test]
fn durations() {
    assert_eq!(format_duration(0), "0:00");
    assert_eq!(format_duration(59), "0:59");
    assert_eq!(format_duration(61), "1:01");
    assert_eq!(format_duration(3600), "1:00:00");
    assert_eq!(format_duration(3725), "1:02:05");
}

#[test]
fn logs_round_trip_through_text() {
    let lines = vec!["first".to_string(), "second line".to_string(), "third".to_string()];
    let text = join_strings(&lines, "\n");
    assert_eq!(log_lines_from_text(&text), lines);
    assert_eq!(log_lines_from_text("a\r\nb\n"), vec!["a".to_string(), "b".to_string()]);
}
