use streamweave::browser::{candidate_items, capture_from_output, CandidateItem};
use streamweave::json::{json_get, json_get_str, JsonValue};
use streamweave::pipeline::{cleanup_log_line, control_check, output_file_check, ControlCheck};
use streamweave::probe::{stream_fields, stream_report};
use streamweave::segments::{DecryptSlots, SlotStep};
use streamweave::urls::WebUrl;

fn object(entries: Vec<(&str, JsonValue)>) -> JsonValue {
    JsonValue::Object(entries.into_iter().map(|(k, v)| (k.to_string(), v)).collect())
}

fn text(s: &str) -> JsonValue {
    JsonValue::Str(s.to_string())
}

#[test]
fn object_lookup() {
    let doc = object(vec![("a", text("x")), ("b", JsonValue::Number("3".to_string()))]);
    assert!(matches!(json_get(&doc, "a"), Some(JsonValue::Str(s)) if s == "x"));
    assert!(json_get(&doc, "c").is_none());
    assert_eq!(json_get_str(&doc, "a").as_deref(), Some("x"));
    assert_eq!(json_get_str(&doc, "b"), None);
    assert!(json_get(&JsonValue::Array(vec![text("a")]), "a").is_none());
}

#[test]
fn candidate_entries() {
    let doc = object(vec![(
        "candidates",
        JsonValue::Array(vec![
            text("/a.m3u8"),
            object(vec![
                ("url", text("https://cdn.example/b.m3u8")),
                ("referer", text("https://example.com/")),
                ("pageTitle", text("Title")),
                ("accept", JsonValue::Null),
            ]),
            JsonValue::Bool(true),
        ]),
    )]);
    let items = candidate_items(&doc).unwrap();
    assert_eq!(items.len(), 3);
    assert!(matches!(&items[0], CandidateItem::Text(s) if s == "/a.m3u8"));
    match &items[1] {
        CandidateItem::Fields(f) => {
            assert_eq!(f.url.as_deref(), Some("https://cdn.example/b.m3u8"));
            assert_eq!(f.referer.as_deref(), Some("https://example.com/"));
            assert_eq!(f.page_title.as_deref(), Some("Title"));
            assert_eq!(f.accept, None);
            assert_eq!(f.cookie, None);
        },
        _ => panic!("expected fields"),
    }
    assert!(matches!(items[2], CandidateItem::Other));
    assert!(candidate_items(&object(vec![("other", JsonValue::Null)])).is_none());
    assert!(candidate_items(&object(vec![("candidates", text("x"))])).is_none());
}

#[test]
fn capture_output() {
    let page = WebUrl::parse("https://example.com/watch/1").unwrap();
    let out = r#"  {"candidates": ["/v/index.m3u8", {"url": "https://cdn.example/x.m3u8", "cookie": "k=v"}, 3]} "#;
    let found = capture_from_output(&page, true, "", out).unwrap();
    assert_eq!(found.len(), 2);
    assert_eq!(found[0].url.as_str(), "https://example.com/v/index.m3u8");
    assert_eq!(found[1].url.as_str(), "https://cdn.example/x.m3u8");
    assert_eq!(found[1].headers.cookie.as_deref(), Some("k=v"));
    let err = capture_from_output(&page, true, "", "{}").unwrap_err();
    assert_eq!(err, "网页提取脚本没有返回候选地址。");
    let err = capture_from_output(&page, true, "", "not json").unwrap_err();
    assert!(err.starts_with("解析网页提取结果失败："));
    let err = capture_from_output(&page, false, "line1\nboom\n", "").unwrap_err();
    assert!(err.starts_with("网页网络捕获失败。"));
    assert!(err.contains("boom"));
}

#[test]
fn stream_reports() {
    let doc = object(vec![(
        "streams",
        JsonValue::Array(vec![
            object(vec![("codec_type", text("video")), ("codec_name", text("h264"))]),
            object(vec![("codec_type", text("audio"))]),
        ]),
    )]);
    let fields = stream_fields(&doc);
    assert_eq!(fields.len(), 2);
    assert_eq!(fields[0].codec_name.as_deref(), Some("h264"));
    assert_eq!(fields[1].codec_name, None);
    assert!(stream_fields(&object(vec![])).is_empty());

    let report = stream_report(
        true,
        r#"{"streams":[{"codec_type":"video","codec_name":"h264"},{"codec_type":"data"},{"codec_type":"video","codec_name":"h264"}]}"#,
        "",
    )
    .unwrap();
    assert!(report.has_media_stream);
    assert_eq!(report.stream_summary, "流：video/h264, data/unknown");
    let report = stream_report(true, r#"{"streams":[]}"#, "").unwrap();
    assert!(!report.has_media_stream);
    assert_eq!(report.stream_summary, "未检测到任何流");
    let report = stream_report(true, "{}", "").unwrap();
    assert_eq!(report.stream_summary, "未检测到任何流");
    let err = stream_report(true, "oops", "").err().unwrap();
    assert!(err.starts_with("解析 ffprobe 输出失败："));
    let err = stream_report(false, "", "bad input\n").err().unwrap();
    assert_eq!(err, "错误输出：bad input");
}

#[test]
fn decrypt_slots() {
    let mut slots = DecryptSlots { active: 0 };
    assert!(matches!(slots.try_acquire(2, false), SlotStep::Acquired));
    assert!(matches!(slots.try_acquire(2, false), SlotStep::Acquired));
    assert_eq!(slots.active, 2);
    match slots.try_acquire(2, false) {
        SlotStep::LogWait(m) => assert_eq!(m, "全局解密槽位已满，等待可用槽位（2/2 已占用）。\n"),
        _ => panic!("expected a wait line"),
    }
    assert!(matches!(slots.try_acquire(2, true), SlotStep::Wait));
    assert_eq!(slots.active, 2);
    slots.release();
    assert_eq!(slots.active, 1);
    assert!(matches!(slots.try_acquire(0, false), SlotStep::LogWait(_)));
    slots.release();
    slots.release();
    assert_eq!(slots.active, 0);
    let mut many = DecryptSlots { active: 16 };
    assert!(matches!(many.try_acquire(100, true), SlotStep::Wait));
}

#[test]
fn control_points() {
    assert!(matches!(control_check(true, true), ControlCheck::Cancelled(ref m) if m == "下载已取消。"));
    assert!(matches!(control_check(false, true), ControlCheck::Wait));
    assert!(matches!(control_check(false, false), ControlCheck::Proceed));
}

#[test]
fn output_checks() {
    assert_eq!(output_file_check(None), Err("合并完成后没有找到输出 mp4。".to_string()));
    assert_eq!(output_file_check(Some(0)), Err("合并后的 mp4 文件大小为 0。".to_string()));
    assert_eq!(output_file_check(Some(1)), Ok(()));
    assert_eq!(cleanup_log_line("/w", Ok(())), "临时文件已清理: /w\n");
    assert_eq!(cleanup_log_line("/w", Err("denied".to_string())), "临时文件清理失败，已保留目录: /w，denied\n");
}
