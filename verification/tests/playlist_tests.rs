use streamweave::hls::{
    attribute_value, best_variant, master_scores_fit_check, master_variant_choices, playlist_kind,
    segment_name, select_master_variant, stream_inf_fits, stream_inf_score, PlaylistKind,
};
use streamweave::manifest::{
    aria2_input, check_variant_playlist, concat_list, full_playlist_text, media_playlist_step,
    MediaScan, PlaylistStep, ScanAction,
};
use streamweave::urls::WebUrl;

const MASTER: &str = "#EXTM3U\n#EXT-X-STREAM-INF:BANDWIDTH=800000,RESOLUTION=640x360\nlow/index.m3u8\n#EXT-X-STREAM-INF:BANDWIDTH=1400000,RESOLUTION=1280x720\nmid/index.m3u8\n#EXT-X-STREAM-INF:BANDWIDTH=2800000,RESOLUTION=1280x720\nhigh/index.m3u8\n";

fn url(s: &str) -> WebUrl {
    WebUrl::parse(s).expect("valid url")
}

#[test]
fn playlist_kinds() {
    assert_eq!(playlist_kind("#EXTM3U\n#EXTINF:4,\na.ts\n"), Some(PlaylistKind::Media));
    assert_eq!(playlist_kind(MASTER), Some(PlaylistKind::Master));
    assert_eq!(playlist_kind("#EXTINF:4,\na.ts\n"), None);
    assert_eq!(playlist_kind("#EXTM3U\n"), None);
    assert_eq!(playlist_kind("<html>404</html>"), None);
}

#[test]
fn attribute_values() {
    let line = "#EXT-X-KEY:METHOD=AES-128,URI=\"https://k.example/key?id=1\",IV=0x01";
    assert_eq!(attribute_value(line, "METHOD").as_deref(), Some("AES-128"));
    assert_eq!(attribute_value(line, "URI").as_deref(), Some("https://k.example/key?id=1"));
    assert_eq!(attribute_value(line, "IV").as_deref(), Some("0x01"));
    assert_eq!(attribute_value(line, "KEYFORMAT"), None);
    assert_eq!(attribute_value("A=\"\"", "A").as_deref(), Some(""));
}

#[test]
fn stream_scores() {
    let line = "#EXT-X-STREAM-INF:BANDWIDTH=1400000,RESOLUTION=1280x720";
    assert_eq!(stream_inf_score(line), 921_600u64 * 10_000_000 + 1_400_000);
    assert_eq!(stream_inf_score("#EXT-X-STREAM-INF:BANDWIDTH=500"), 500);
    assert_eq!(stream_inf_score("#EXT-X-STREAM-INF:RESOLUTION=axb"), 0);
    assert_eq!(stream_inf_score("#EXT-X-STREAM-INF:BANDWIDTH=+7,RESOLUTION=2x3"), 60_000_007);
    let huge = "#EXT-X-STREAM-INF:RESOLUTION=4294967296x4294967295,BANDWIDTH=1";
    assert!(stream_inf_fits(huge));
    assert_eq!(stream_inf_score(huge), u64::MAX);
    assert!(!stream_inf_fits("#EXT-X-STREAM-INF:RESOLUTION=4294967296x4294967296"));
    assert!(master_scores_fit_check(MASTER));
    assert!(!master_scores_fit_check("#EXT-X-STREAM-INF:RESOLUTION=4294967296x4294967296\nv.m3u8\n"));
}

#[test]
fn master_picks_highest_variant() {
    let base = url("https://example.com/path/master.m3u8");
    let chosen = select_master_variant(&base, MASTER).expect("variant");
    assert_eq!(chosen.as_str(), "https://example.com/path/high/index.m3u8");
    let choices = master_variant_choices(MASTER);
    assert_eq!(choices.len(), 3);
    assert_eq!(choices[0].1, "low/index.m3u8");
    let scores: Vec<u64> = choices.iter().map(|c| c.0).collect();
    assert_eq!(best_variant(&scores), Some(2));
}

#[test]
fn first_of_equal_scores_wins() {
    assert_eq!(best_variant(&vec![5, 9, 9, 1]), Some(1));
    assert_eq!(best_variant(&vec![]), None);
    let text = "#EXTM3U\n#EXT-X-STREAM-INF:BANDWIDTH=10\nfirst.m3u8\n#EXT-X-STREAM-INF:BANDWIDTH=10\nsecond.m3u8\n";
    let base = url("https://example.com/a/master.m3u8");
    assert_eq!(select_master_variant(&base, text).unwrap().as_str(), "https://example.com/a/first.m3u8");
}

#[test]
fn master_without_variants() {
    let base = url("https://example.com/a/master.m3u8");
    let text = "#EXTM3U\n#EXT-X-STREAM-INF:BANDWIDTH=10\n# comment\n\n";
    assert_eq!(select_master_variant(&base, text).unwrap_err(), "master playlist 中没有找到可用 variant。");
    let orphan = "#EXTM3U\nno-stream-inf.m3u8\n";
    assert_eq!(select_master_variant(&base, orphan).unwrap_err(), "master playlist 中没有找到可用 variant。");
}

#[test]
fn master_variant_that_does_not_resolve() {
    let base = url("data:text/plain,hello");
    let text = "#EXTM3U\n#EXT-X-STREAM-INF:BANDWIDTH=10\nvariant.m3u8\n";
    assert_eq!(
        select_master_variant(&base, text).unwrap_err(),
        "无法解析 master playlist variant：variant.m3u8"
    );
}

#[test]
fn segment_names() {
    assert_eq!(segment_name(0), "seg00000.ts");
    assert_eq!(segment_name(42), "seg00042.ts");
    assert_eq!(segment_name(123456), "seg123456.ts");
}

const MEDIA: &str = "#EXTM3U\n#EXT-X-MEDIA-SEQUENCE:5\n#EXT-X-KEY:METHOD=AES-128,URI=\"key.bin\"\n#EXTINF:4,\nseg-a.ts\n#EXTINF:4,\n  seg-b.ts  \n#EXT-X-ENDLIST";

fn run_scan(scan: &mut MediaScan, key: Result<Vec<u8>, String>) -> ScanAction {
    let mut key = Some(key);
    loop {
        match scan.advance() {
            ScanAction::Continue => {}
            ScanAction::FetchKey(u) => {
                assert_eq!(u.as_str(), "https://cdn.example.com/v/key.bin");
                match scan.key_fetched(key.take().expect("one key")) {
                    ScanAction::Continue => {}
                    other => return other,
                }
            }
            other => return other,
        }
    }
}

#[test]
fn media_playlist_scan() {
    let mut scan = MediaScan::new(url("https://cdn.example.com/v/index.m3u8"), MEDIA);
    let end = run_scan(&mut scan, Ok((0u8..16).collect()));
    assert!(matches!(end, ScanAction::Finished));
    assert_eq!(scan.segments.len(), 2);
    assert_eq!(scan.segments[0].url.as_str(), "https://cdn.example.com/v/seg-a.ts");
    assert_eq!(scan.segments[0].sequence, 5);
    assert_eq!(scan.segments[1].sequence, 6);
    let key = scan.segments[1].encryption.as_ref().expect("encrypted");
    assert_eq!(key.key_bytes, (0u8..16).collect::<Vec<u8>>());
    assert_eq!(key.iv, None);
    assert_eq!(
        full_playlist_text(&scan),
        "#EXTM3U\n#EXT-X-MEDIA-SEQUENCE:5\n#EXT-X-KEY:METHOD=AES-128,URI=\"key.bin\"\n#EXTINF:4,\nhttps://cdn.example.com/v/seg-a.ts\n#EXTINF:4,\nhttps://cdn.example.com/v/seg-b.ts\n#EXT-X-ENDLIST"
    );
    assert_eq!(
        aria2_input(&scan.segments),
        "https://cdn.example.com/v/seg-a.ts\n  out=seg00000.ts\nhttps://cdn.example.com/v/seg-b.ts\n  out=seg00001.ts\n"
    );
}

#[test]
fn media_playlist_key_errors() {
    let mut scan = MediaScan::new(url("https://cdn.example.com/v/index.m3u8"), MEDIA);
    match run_scan(&mut scan, Ok(vec![1, 2, 3])) {
        ScanAction::Failed(m) => assert_eq!(m, "AES-128 key 长度异常：期望 16 字节，实际 3 字节"),
        _ => panic!("short key must fail"),
    }
    let mut scan = MediaScan::new(url("https://cdn.example.com/v/index.m3u8"), MEDIA);
    match run_scan(&mut scan, Err("网络请求失败".to_string())) {
        ScanAction::Failed(m) => assert_eq!(m, "网络请求失败"),
        _ => panic!("fetch error must fail"),
    }
    let text = "#EXTM3U\n#EXT-X-KEY:METHOD=SAMPLE-AES,URI=\"k\"\n#EXTINF:4,\na.ts\n";
    let mut scan = MediaScan::new(url("https://cdn.example.com/v/index.m3u8"), text);
    match run_scan(&mut scan, Ok(vec![])) {
        ScanAction::Failed(m) => assert_eq!(m, "暂不支持的 HLS 加密方式：SAMPLE-AES"),
        _ => panic!("unsupported method must fail"),
    }
    let text = "#EXTM3U\n#EXT-X-KEY:METHOD=AES-128\n#EXTINF:4,\na.ts\n";
    let mut scan = MediaScan::new(url("https://cdn.example.com/v/index.m3u8"), text);
    match run_scan(&mut scan, Ok(vec![])) {
        ScanAction::Failed(m) => assert_eq!(m, "EXT-X-KEY 缺少 URI。"),
        _ => panic!("missing uri must fail"),
    }
}

#[test]
fn media_playlist_without_segments() {
    let mut scan = MediaScan::new(url("https://cdn.example.com/v/index.m3u8"), "#EXTM3U\n#EXT-X-ENDLIST\n");
    match run_scan(&mut scan, Ok(vec![])) {
        ScanAction::Failed(m) => assert_eq!(m, "m3u8 中没有找到可下载分片。"),
        _ => panic!("empty playlist must fail"),
    }
}

#[test]
fn method_none_keeps_key_and_bad_sequence_is_zero() {
    let text = "#EXTM3U\n#EXT-X-MEDIA-SEQUENCE:abc\n#EXT-X-KEY:METHOD=NONE\n#EXTINF:4,\na.ts\n";
    let mut scan = MediaScan::new(url("https://cdn.example.com/v/index.m3u8"), text);
    assert!(matches!(run_scan(&mut scan, Ok(vec![])), ScanAction::Finished));
    assert_eq!(scan.segments[0].sequence, 0);
    assert!(scan.segments[0].encryption.is_none());
}

#[test]
fn concat_lists() {
    assert_eq!(
        concat_list("/tmp/work", 2),
        "file '/tmp/work/parts/seg00000.ts'\nfile '/tmp/work/parts/seg00001.ts'\n"
    );
    assert_eq!(concat_list("/tmp/it's", 1), "file '/tmp/it'\\''s/parts/seg00000.ts'\n");
    assert_eq!(concat_list("/tmp/work", 0), "");
}

#[test]
fn playlist_steps() {
    let base = url("https://example.com/path/master.m3u8");
    assert!(matches!(media_playlist_step(&base, "#EXTM3U\n#EXTINF:1,\na.ts"), PlaylistStep::Media));
    match media_playlist_step(&base, MASTER) {
        PlaylistStep::FetchVariant(u) => assert_eq!(u.as_str(), "https://example.com/path/high/index.m3u8"),
        _ => panic!("master must lead to a variant"),
    }
    match media_playlist_step(&base, "") {
        PlaylistStep::Failed(m) => assert_eq!(m, "m3u8 无效或 token 已过期，请重新获取链接。响应摘要：<空响应>"),
        _ => panic!("empty text must fail"),
    }
    assert!(check_variant_playlist("#EXTM3U\n#EXTINF:1,\na.ts").is_ok());
    assert_eq!(
        check_variant_playlist(MASTER).unwrap_err(),
        "master playlist 中选出的 variant 不是可下载 media playlist。"
    );
}

#[test]
fn method_none_ends_encryption() {
    let text = "#EXTM3U\n#EXT-X-KEY:METHOD=AES-128,URI=\"key.bin\"\nseg-a.ts\n#EXT-X-KEY:METHOD=NONE\nseg-b.ts\n#EXTINF:4,\nseg-c.ts\n";
    let mut scan = MediaScan::new(url("https://cdn.example.com/v/index.m3u8"), text);
    let end = run_scan(&mut scan, Ok((0u8..16).collect()));
    assert!(matches!(end, ScanAction::Finished));
    assert_eq!(scan.segments.len(), 3);
    assert!(scan.segments[0].encryption.is_some());
    assert!(scan.segments[1].encryption.is_none());
    assert!(scan.segments[2].encryption.is_none());
}
