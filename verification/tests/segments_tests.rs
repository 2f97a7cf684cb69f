use streamweave::manifest::SegmentEntry;
use streamweave::keys::SegmentKey;
use streamweave::pipeline::{
    download_attempt_outcome, download_result, labeled_line, next_step, script_candidates,
    segment_count_line, step_stage, DownloadAttempt, DownloadStep,
};
use streamweave::probe::{
    check_probe_complete, file_signature_summary, parse_probe_output, summarize_streams, SegmentProbeResult,
    StreamFields,
};
use streamweave::segments::{
    decrypt_plan_message, decrypt_wait_message, decrypt_worker_count, encrypted_segment_indices,
    needs_signature, segment_probe_sample_indices, start_merge_check, verify_segment_files,
    SampleObservation,
};
use streamweave::status::TaskStatus;
use streamweave::urls::WebUrl;

#[test]
fn sample_indices() {
    assert_eq!(segment_probe_sample_indices(1), vec![0]);
    assert_eq!(segment_probe_sample_indices(2), vec![0, 1]);
    assert_eq!(segment_probe_sample_indices(4), vec![0, 1, 2, 3]);
    assert_eq!(segment_probe_sample_indices(100), vec![0, 25, 50, 75, 99]);
    let huge = segment_probe_sample_indices(usize::MAX);
    let mut expected = vec![0, usize::MAX / 4, usize::MAX / 2, usize::MAX / 4, usize::MAX - 1];
    expected.sort_unstable();
    expected.dedup();
    assert_eq!(huge, expected);
}

#[test]
fn segment_file_checks() {
    assert!(verify_segment_files("/w", &vec![Some(10), Some(1)]).is_ok());
    assert_eq!(
        verify_segment_files("/w", &vec![Some(10), Some(0), None]).unwrap_err(),
        "分片下载未完成：/w/parts/seg00001.ts (空文件)，/w/parts/seg00002.ts (缺失)"
    );
}

fn probe(media: bool, summary: &str) -> Result<SegmentProbeResult, String> {
    Ok(SegmentProbeResult { has_media_stream: media, stream_summary: summary.to_string() })
}

#[test]
fn merge_check_passes() {
    assert_eq!(start_merge_check("/w", 0).err().unwrap(), "没有可检查的分片，无法合并。");
    let (mut check, log) = start_merge_check("/w", 2).unwrap();
    assert_eq!(log, "合并前检查分片媒体流，抽样 2 / 2 个分片。\n");
    let (index, path) = check.current_sample().unwrap();
    assert_eq!((index, path.as_str()), (0, "/w/parts/seg00000.ts"));
    check.record(SampleObservation::Probed { size: 2048, probe: probe(true, "流：video/h264"), signature: String::new() }).unwrap();
    check.record(SampleObservation::Probed { size: 100, probe: probe(true, "流：audio/aac"), signature: String::new() }).unwrap();
    assert!(check.current_sample().is_none());
    let (log, result) = check.finish();
    assert!(result.is_ok());
    assert_eq!(log, "分片媒体流检查通过：seg00000.ts：2.0 KB，流：video/h264；seg00001.ts：100 B，流：audio/aac。\n");
}

#[test]
fn merge_check_fails() {
    let (mut check, _) = start_merge_check("/w", 3).unwrap();
    check.record(SampleObservation::Probed { size: 10, probe: probe(false, "未检测到任何流"), signature: "文件头：<空文件>".to_string() }).unwrap();
    check.record(SampleObservation::Probed { size: 10, probe: Err("boom".to_string()), signature: "sig".to_string() }).unwrap();
    assert_eq!(
        check.record(SampleObservation::Missing).unwrap_err(),
        "合并前检查失败：分片缺失，/w/parts/seg00002.ts。"
    );
    let (log, result) = check.finish();
    assert_eq!(log, "分片媒体流检查未通过：seg00000.ts：10 B，未检测到任何流，文件头：<空文件>；seg00001.ts：10 B，ffprobe 失败：boom，sig。\n");
    assert!(result.unwrap_err().ends_with("m3u8 token/请求头已失效。seg00000.ts：10 B，未检测到任何流，文件头：<空文件>；seg00001.ts：10 B，ffprobe 失败：boom，sig"));
    let (mut check, _) = start_merge_check("/w", 1).unwrap();
    assert_eq!(check.record(SampleObservation::Empty).unwrap_err(), "合并前检查失败：分片为空，/w/parts/seg00000.ts。");
    assert!(needs_signature(&Err("x".to_string())));
    assert!(!needs_signature(&probe(true, "")));
    assert!(needs_signature(&probe(false, "")));
}

#[test]
fn stream_summaries() {
    let streams = vec![
        StreamFields { codec_type: Some("video".to_string()), codec_name: Some("h264".to_string()) },
        StreamFields { codec_type: Some("video".to_string()), codec_name: Some("h264".to_string()) },
        StreamFields { codec_type: None, codec_name: Some("aac".to_string()) },
    ];
    let r = summarize_streams(&streams);
    assert!(r.has_media_stream);
    assert_eq!(r.stream_summary, "流：video/h264, unknown/aac");
    let none = summarize_streams(&vec![]);
    assert!(!none.has_media_stream);
    assert_eq!(none.stream_summary, "未检测到任何流");
    let data = summarize_streams(&vec![StreamFields { codec_type: Some("data".to_string()), codec_name: None }]);
    assert!(!data.has_media_stream);
    assert_eq!(data.stream_summary, "流：data/unknown");
}

#[test]
fn probe_output() {
    let text = "codec_name=h264\ncodec_type=video\nwidth=1920\nheight=1080\ncodec_name=aac\ncodec_type=audio\nduration=12.5\nsize=1048576\nbad line\n";
    let f = parse_probe_output(text);
    assert_eq!(f.video_codec, "h264");
    assert_eq!(f.audio_codec, "aac");
    assert_eq!((f.width, f.height), (1920, 1080));
    assert_eq!(f.duration_text.as_deref(), Some("12.5"));
    assert_eq!(f.size, 1048576);
    assert!(check_probe_complete(&f, true).is_ok());
    assert_eq!(check_probe_complete(&f, false).unwrap_err(), "ffprobe 未返回完整媒体信息。");
    let odd = parse_probe_output("width=99999999999\nsize=x\n");
    assert_eq!(odd.width, 0);
    assert_eq!(odd.size, 0);
    assert!(check_probe_complete(&odd, true).is_err());
    let result = download_result("task-1", "/o/a.mp4", &f, 3725);
    assert_eq!(result.duration_text, "1:02:05");
    assert_eq!(result.size_text, "1.0 MB");
    assert_eq!(result.working_directory, "");
    assert_eq!(result.width, 1920);
}

#[test]
fn file_signatures() {
    assert_eq!(file_signature_summary(Err("denied".to_string())), "文件头读取失败：denied");
    assert_eq!(file_signature_summary(Ok(vec![])), "文件头：<空文件>");
    assert_eq!(file_signature_summary(Ok(b"<html>\r\n".to_vec())), "文件头文本：<html>\\r\\n");
    assert_eq!(file_signature_summary(Ok(vec![0x47, 0x40, 0x11, 0xab])), "文件头十六进制：47 40 11 ab");
    let long: Vec<u8> = (0u8..40).collect();
    assert_eq!(
        file_signature_summary(Ok(long)),
        "文件头十六进制：00 01 02 03 04 05 06 07 08 09 0a 0b 0c 0d 0e 0f"
    );
    let text: Vec<u8> = std::iter::repeat(b'\n').take(70).collect();
    let s = file_signature_summary(Ok(text));
    assert_eq!(s.chars().count(), "文件头文本：".chars().count() + 80);
}

#[test]
fn decrypt_planning() {
    let u = WebUrl::parse("https://a/x.ts").unwrap();
    let key = SegmentKey { key_bytes: vec![0; 16], iv: None };
    let segs = vec![
        SegmentEntry { url: u.clone(), sequence: 0, encryption: None },
        SegmentEntry { url: u.clone(), sequence: 1, encryption: Some(key.clone()) },
        SegmentEntry { url: u, sequence: 2, encryption: Some(key) },
    ];
    assert_eq!(encrypted_segment_indices(&segs), vec![1, 2]);
    assert_eq!(decrypt_worker_count(2, 4), 2);
    assert_eq!(decrypt_worker_count(20, 4), 4);
    assert_eq!(decrypt_plan_message(2, 4), "并行解密 2 个加密分片，全局解密槽位：4。\n");
    assert_eq!(decrypt_wait_message(4, 4), "全局解密槽位已满，等待可用槽位（4/4 已占用）。\n");
}

#[test]
fn pipeline_steps() {
    assert_eq!(step_stage(DownloadStep::FetchPlaylist), (TaskStatus::FetchingM3u8, "正在获取 m3u8"));
    assert_eq!(step_stage(DownloadStep::Complete), (TaskStatus::Completed, "下载完成"));
    let mut step = DownloadStep::FetchPlaylist;
    let mut count = 1;
    while let Some(next) = next_step(step) {
        step = next;
        count += 1;
    }
    assert_eq!(count, 9);
    assert_eq!(labeled_line("ffmpeg: ", "/usr/bin/ffmpeg"), "ffmpeg: /usr/bin/ffmpeg\n");
    assert_eq!(segment_count_line(12), "解析到 12 个分片。\n");
    assert!(matches!(download_attempt_outcome(1, Ok(())), DownloadAttempt::Complete));
    assert!(matches!(download_attempt_outcome(1, Err("e".to_string())), DownloadAttempt::Retry(ref l) if l == "分片校验失败，准备重试 aria2 一次：e\n"));
    assert!(matches!(download_attempt_outcome(2, Err("e".to_string())), DownloadAttempt::Failed(ref m) if m == "e"));
    assert_eq!(
        script_candidates(Some("/res"), "/cwd", Some("/")),
        vec![
            "/res/scripts/extract-m3u8.mjs".to_string(),
            "/res/extract-m3u8.mjs".to_string(),
            "/cwd/scripts/extract-m3u8.mjs".to_string(),
            "/scripts/extract-m3u8.mjs".to_string(),
        ]
    );
}
