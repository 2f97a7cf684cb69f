use streamweave::settings::AppSettings;
use streamweave::start::{
    is_direct_playlist_input, output_directory_choice, start_settings, task_id_for, validate_input_url,
};
use streamweave::tools::{find_tool_with_override, ToolAction};
use streamweave::urls::WebUrl;

#[test]
fn input_url_checks() {
    assert_eq!(validate_input_url("   ").err().as_deref(), Some("请输入 m3u8 或视频网页 URL。"));
    assert_eq!(validate_input_url("").err().as_deref(), Some("请输入 m3u8 或视频网页 URL。"));
    assert_eq!(validate_input_url("not a url").err().as_deref(), Some("请输入有效 URL。"));
    let (text, url) = validate_input_url("  https://example.com/v/index.m3u8 \n").unwrap();
    assert_eq!(text, "https://example.com/v/index.m3u8");
    assert_eq!(url.as_str(), "https://example.com/v/index.m3u8");
}

#[test]
fn task_ids() {
    assert_eq!(task_id_for(1), "task-1");
    assert_eq!(task_id_for(0), "task-0");
    assert_eq!(task_id_for(u64::MAX), format!("task-{}", u64::MAX));
}

#[test]
fn settings_for_new_task() {
    let (s, workers) = start_settings(None);
    assert_eq!(s.decrypt_workers, 4);
    assert_eq!(workers, 4);
    let mut given = AppSettings::default();
    given.decrypt_workers = 40;
    given.ffmpeg_path = Some("/opt/ffmpeg".to_string());
    let (s, workers) = start_settings(Some(given));
    assert_eq!(s.decrypt_workers, 40);
    assert_eq!(s.ffmpeg_path.as_deref(), Some("/opt/ffmpeg"));
    assert_eq!(workers, 16);
    let mut zero = AppSettings::default();
    zero.decrypt_workers = 0;
    assert_eq!(start_settings(Some(zero)).1, 1);
}

#[test]
fn playlist_or_page() {
    let direct = WebUrl::parse("https://cdn.example.com/Video/INDEX.M3U8?token=1").unwrap();
    assert!(is_direct_playlist_input(&direct));
    let page = WebUrl::parse("https://example.com/watch?v=42").unwrap();
    assert!(!is_direct_playlist_input(&page));
}

#[test]
fn output_directory() {
    assert_eq!(output_directory_choice(Some("/data".to_string()), "/dl".to_string()), "/data");
    assert_eq!(output_directory_choice(Some("  ".to_string()), "/dl".to_string()), "/dl");
    assert_eq!(output_directory_choice(None, "/dl".to_string()), "/dl");
}

#[test]
fn tool_search_start() {
    let (search, action) = find_tool_with_override("ffmpeg", Some("  /opt/bin/ffmpeg "));
    assert_eq!(search.override_path.as_deref(), Some("/opt/bin/ffmpeg"));
    assert!(matches!(action, ToolAction::CheckExists(ref p) if p == "/opt/bin/ffmpeg"));
    let (search, action) = find_tool_with_override("aria2c", Some("   "));
    assert_eq!(search.override_path, None);
    assert!(matches!(action, ToolAction::CheckExists(ref p) if p == "/usr/local/bin/aria2c"));
}
