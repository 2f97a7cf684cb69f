use std::collections::VecDeque;

use streamweave::registry::{
    persist_task_registry_throttled, DownloadResult, FinishEvent, PersistedTask, ScheduleStep, StoredTask,
    TaskRegistry,
};
use streamweave::settings::{
    clamp_concurrent_tasks, clamp_decrypt_workers, concurrent_task_limit, default_browser_mode,
    default_decrypt_workers, default_headless_browser, global_decrypt_worker_limit, AppSettings,
    BrowserLaunchMode,
};
use streamweave::status::{is_active_status, is_terminal_status, status_stage, TaskStatus};
use streamweave::task::{
    log_lines_from_text, task_from_metadata, task_snapshot_sort_group, task_snapshot_sort_time,
    PersistedTaskMetadata, PersistedTaskRecord, TaskRecord, MAX_TASK_LOG_LINES,
};

fn queued(id: &str, now: &str) -> TaskRecord {
    TaskRecord::new_queued(id, "https://example.com/a.m3u8", None, None, AppSettings::default(), now)
}

fn metadata(id: &str, status: TaskStatus) -> PersistedTaskMetadata {
    PersistedTaskMetadata {
        id: id.to_string(),
        input_url: "https://example.com/v.m3u8".to_string(),
        output_directory: Some("/tmp/out".to_string()),
        output_file_name: None,
        status,
        previous_status: status,
        stage: "stage".to_string(),
        progress_completed: 3,
        progress_total: 10,
        error_summary: None,
        output_path: None,
        working_directory: Some("/tmp/work".to_string()),
        created_at: "2024-01-01T00:00:00Z".to_string(),
        updated_at: "2024-01-02T00:00:00Z".to_string(),
        completed_at: None,
        settings: AppSettings::default(),
    }
}

fn result_for(id: &str) -> DownloadResult {
    DownloadResult {
        task_id: id.to_string(),
        output_path: "/tmp/out/a.mp4".to_string(),
        working_directory: "/tmp/work".to_string(),
        duration_text: "00:01:00".to_string(),
        size_text: "1.0 MB".to_string(),
        video_codec: "h264".to_string(),
        audio_codec: "aac".to_string(),
        width: 1280,
        height: 720,
    }
}

#[test]
fn status_classes_and_stages() {
    let all = [
        TaskStatus::Queued,
        TaskStatus::Parsing,
        TaskStatus::FetchingM3u8,
        TaskStatus::Downloading,
        TaskStatus::Decrypting,
        TaskStatus::Merging,
        TaskStatus::Verifying,
        TaskStatus::Paused,
        TaskStatus::Completed,
        TaskStatus::Failed,
        TaskStatus::Cancelled,
    ];
    let active: Vec<bool> = all.iter().map(is_active_status).collect();
    assert_eq!(active, vec![false, true, true, true, true, true, true, false, false, false, false]);
    let terminal: Vec<bool> = all.iter().map(is_terminal_status).collect();
    assert_eq!(terminal, vec![false, false, false, false, false, false, false, false, true, true, true]);
    for s in all.iter() {
        assert!(!(is_active_status(s) && is_terminal_status(s)));
    }
    assert_eq!(TaskStatus::default(), TaskStatus::Queued);
    assert_eq!(status_stage(&TaskStatus::Queued), "队列中");
    assert_eq!(status_stage(&TaskStatus::Parsing), "正在解析网页");
    assert_eq!(status_stage(&TaskStatus::FetchingM3u8), "正在获取 m3u8");
    assert_eq!(status_stage(&TaskStatus::Downloading), "正在下载分片");
    assert_eq!(status_stage(&TaskStatus::Decrypting), "正在解密分片");
    assert_eq!(status_stage(&TaskStatus::Merging), "正在合并 mp4");
    assert_eq!(status_stage(&TaskStatus::Verifying), "正在验证输出文件");
    assert_eq!(status_stage(&TaskStatus::Paused), "已暂停");
    assert_eq!(status_stage(&TaskStatus::Completed), "下载完成");
    assert_eq!(status_stage(&TaskStatus::Failed), "下载失败");
    assert_eq!(status_stage(&TaskStatus::Cancelled), "已取消");
}

#[test]
fn settings_defaults_and_limits() {
    assert!(!default_headless_browser());
    assert_eq!(default_browser_mode(), Some("headed".to_string()));
    assert_eq!(default_decrypt_workers(), 4);
    let s = AppSettings::default();
    assert_eq!(s.decrypt_workers, 4);
    assert_eq!(s.browser_mode.as_deref(), Some("headed"));
    assert!(s.ffmpeg_path.is_none() && s.aria2_args.is_none());
    assert_eq!(clamp_concurrent_tasks(0), 1);
    assert_eq!(clamp_concurrent_tasks(3), 3);
    assert_eq!(clamp_concurrent_tasks(20), 8);
    assert_eq!(clamp_decrypt_workers(0), 1);
    assert_eq!(clamp_decrypt_workers(16), 16);
    assert_eq!(clamp_decrypt_workers(40), 16);
    assert_eq!(concurrent_task_limit(0), 1);
    assert_eq!(concurrent_task_limit(5), 5);
    assert_eq!(concurrent_task_limit(u64::MAX), 8);
    assert_eq!(global_decrypt_worker_limit(0), 1);
    assert_eq!(global_decrypt_worker_limit(12), 12);
    assert_eq!(global_decrypt_worker_limit(99), 16);
}

#[test]
fn browser_launch_modes() {
    let mut s = AppSettings::default();
    assert_eq!(BrowserLaunchMode::from_settings(&s), BrowserLaunchMode::Headed);
    s.browser_mode = Some("headless".to_string());
    assert_eq!(BrowserLaunchMode::from_settings(&s), BrowserLaunchMode::Headless);
    s.browser_mode = Some("background".to_string());
    assert_eq!(BrowserLaunchMode::from_settings(&s), BrowserLaunchMode::Background);
    s.browser_mode = Some("other".to_string());
    s.headless_browser = true;
    assert_eq!(BrowserLaunchMode::from_settings(&s), BrowserLaunchMode::Headless);
    s.browser_mode = None;
    s.headless_browser = false;
    assert_eq!(BrowserLaunchMode::from_settings(&s), BrowserLaunchMode::Background);
    assert_eq!(BrowserLaunchMode::Headless.script_arg(), "headless");
    assert_eq!(BrowserLaunchMode::Background.script_arg(), "background");
    assert_eq!(BrowserLaunchMode::Headed.script_arg(), "headed");
    assert_eq!(BrowserLaunchMode::Headless.label(), "无头模式");
    assert_eq!(BrowserLaunchMode::Background.label(), "后台窗口");
    assert_eq!(BrowserLaunchMode::Headed.label(), "可见窗口");
    assert_eq!(BrowserLaunchMode::Headless.status(), "Playwright 无头浏览器已启动");
    assert_eq!(BrowserLaunchMode::Background.status(), "Playwright 后台浏览器已启动");
    assert_eq!(BrowserLaunchMode::Headed.status(), "Playwright 浏览器已打开");
}

#[test]
fn snapshot_sort_keys() {
    let mut t = queued("task-1", "t1");
    let snap = t.snapshot();
    assert_eq!(task_snapshot_sort_group(&snap), 0);
    assert_eq!(task_snapshot_sort_time(&snap), "t1");
    t.status = TaskStatus::Failed;
    t.updated_at = "t2".to_string();
    let snap = t.snapshot();
    assert_eq!(task_snapshot_sort_group(&snap), 1);
    assert_eq!(task_snapshot_sort_time(&snap), "t2");
    t.status = TaskStatus::Completed;
    let snap = t.snapshot();
    assert_eq!(task_snapshot_sort_group(&snap), 2);
    assert_eq!(task_snapshot_sort_time(&snap), "t2");
    t.completed_at = Some("t3".to_string());
    let snap = t.snapshot();
    assert_eq!(task_snapshot_sort_time(&snap), "t3");
}

#[test]
fn snapshot_carries_last_log() {
    let mut t = queued("task-1", "t1");
    assert_eq!(t.snapshot().last_log, None);
    t.append_log("first\n\nsecond", "t2");
    let snap = t.snapshot();
    assert_eq!(snap.last_log.as_deref(), Some("second"));
    assert_eq!(snap.updated_at, "t2");
    assert_eq!(t.logs_text(), "first\nsecond");
    assert_eq!(snap.task_id, "task-1");
    assert_eq!(snap.stage, "队列中");
}

#[test]
fn log_keeps_newest_lines() {
    let mut t = queued("task-1", "t1");
    for k in 0..(MAX_TASK_LOG_LINES + 5) {
        t.append_log(&format!("line {k}"), "t2");
    }
    assert_eq!(t.logs.len(), MAX_TASK_LOG_LINES);
    assert_eq!(t.logs.front().map(String::as_str), Some("line 5"));
    assert_eq!(t.logs.back().cloned(), Some(format!("line {}", MAX_TASK_LOG_LINES + 4)));
}

#[test]
fn set_stage_respects_pause() {
    let mut t = queued("task-1", "t1");
    t.set_stage(TaskStatus::Downloading, "正在下载分片", "t2");
    assert_eq!(t.status, TaskStatus::Downloading);
    assert_eq!(t.previous_status, TaskStatus::Downloading);
    t.status = TaskStatus::Paused;
    t.set_stage(TaskStatus::Merging, "正在合并 mp4", "t3");
    assert_eq!(t.status, TaskStatus::Paused);
    assert_eq!(t.previous_status, TaskStatus::Downloading);
    assert_eq!(t.stage, "正在合并 mp4");
    t.set_progress(4, 9, "t4");
    assert_eq!((t.progress_completed, t.progress_total), (4, 9));
    t.set_paths(Some("/w"), None, "t5");
    assert_eq!(t.working_directory.as_deref(), Some("/w"));
    assert_eq!(t.output_path, None);
    t.suggest_name("Title", "t6");
    assert_eq!(t.output_file_name.as_deref(), Some("Title"));
    t.suggest_name("Other", "t7");
    assert_eq!(t.output_file_name.as_deref(), Some("Title"));
}

#[test]
fn restored_unfinished_task_is_failed() {
    let meta = metadata("task-3", TaskStatus::Downloading);
    let t = task_from_metadata(meta, vec!["a".to_string(), "b".to_string()], "now");
    assert_eq!(t.status, TaskStatus::Failed);
    assert_eq!(t.previous_status, TaskStatus::Queued);
    assert_eq!(t.stage, "任务已中断");
    assert_eq!(t.error_summary.as_deref(), Some("应用已关闭，任务已中断，可重试。"));
    assert_eq!(t.updated_at, "now");
    assert_eq!(t.completed_at, None);
    let logs: Vec<String> = t.logs.iter().cloned().collect();
    assert_eq!(logs, vec!["a", "b", "应用已关闭，任务已中断，可重试。"]);
    assert!(!t.worker_started);
    assert_eq!(t.progress_completed, 3);
}

#[test]
fn restored_completed_task_keeps_state() {
    let meta = metadata("task-4", TaskStatus::Completed);
    let t = task_from_metadata(meta, Vec::new(), "now");
    assert_eq!(t.status, TaskStatus::Completed);
    assert_eq!(t.stage, "stage");
    assert_eq!(t.updated_at, "2024-01-02T00:00:00Z");
    assert_eq!(t.completed_at.as_deref(), Some("2024-01-02T00:00:00Z"));
    let mut meta = metadata("task-5", TaskStatus::Cancelled);
    meta.completed_at = Some("c".to_string());
    let t = task_from_metadata(meta, Vec::new(), "now");
    assert_eq!(t.status, TaskStatus::Cancelled);
    assert_eq!(t.completed_at.as_deref(), Some("c"));
}

#[test]
fn restored_log_is_capped() {
    let raw: Vec<String> = (0..MAX_TASK_LOG_LINES + 3).map(|k| format!("l{k}")).collect();
    let t = task_from_metadata(metadata("task-6", TaskStatus::Failed), raw, "now");
    assert_eq!(t.logs.len(), MAX_TASK_LOG_LINES);
    assert_eq!(t.logs.front().map(String::as_str), Some("l3"));
}

#[test]
fn log_file_lines() {
    assert_eq!(log_lines_from_text("a\nb\r\n\nc"), vec!["a", "b", "", "c"]);
    assert_eq!(log_lines_from_text(""), Vec::<String>::new());
    assert_eq!(log_lines_from_text("x\n"), vec!["x"]);
}

#[test]
fn unknown_task_errors() {
    let mut reg = TaskRegistry::new();
    assert_eq!(reg.cancel("nope", "t").err().as_deref(), Some("任务不存在。"));
    assert_eq!(reg.pause("nope", "t").err().as_deref(), Some("任务不存在。"));
    assert_eq!(reg.resume("nope", "t").err().as_deref(), Some("任务不存在。"));
    assert_eq!(reg.retry("nope", None, "t").err().as_deref(), Some("任务不存在。"));
    assert_eq!(reg.deletable("nope").err().as_deref(), Some("任务不存在。"));
    assert!(reg.finish("nope", Err("x".to_string()), false, "t").is_none());
    assert!(!reg.append_log("nope", "m", "t"));
}

#[test]
fn cancel_queued_task() {
    let mut reg = TaskRegistry::new();
    reg.add_task(queued("task-1", "t1"));
    assert_eq!(reg.queue, VecDeque::from(vec!["task-1".to_string()]));
    let snap = reg.cancel("task-1", "t2").unwrap();
    assert_eq!(snap.status, TaskStatus::Cancelled);
    assert_eq!(snap.stage, "已取消");
    assert_eq!(snap.error_summary.as_deref(), Some("下载已取消。"));
    assert!(reg.queue.is_empty());
    assert_eq!(reg.deletable("task-1"), Ok(None));
}

#[test]
fn schedule_respects_limit_and_order() {
    let mut reg = TaskRegistry::new();
    for k in 1..=4 {
        reg.add_task(queued(&format!("task-{k}"), "t0"));
    }
    let starts = reg.schedule(2, "t1");
    assert_eq!(starts.len(), 2);
    assert_eq!(starts[0].snapshot.task_id, "task-1");
    assert_eq!(starts[1].snapshot.task_id, "task-2");
    assert_eq!(starts[0].snapshot.status, TaskStatus::Parsing);
    assert_eq!(starts[0].snapshot.stage, "正在解析网页");
    assert!(starts[0].launch.is_some());
    assert_eq!(reg.running, vec!["task-1".to_string(), "task-2".to_string()]);
    assert_eq!(reg.queue.len(), 2);
    assert!(reg.schedule(2, "t2").is_empty());
    let starts = reg.schedule(0, "t3");
    assert!(starts.is_empty());
    let starts = reg.schedule(100, "t4");
    assert_eq!(starts.len(), 2);
    assert_eq!(reg.running.len(), 4);
    assert!(reg.queue.is_empty());
}

#[test]
fn default_concurrency_is_three() {
    let mut reg = TaskRegistry::new();
    for k in 1..=5 {
        reg.add_task(queued(&format!("task-{k}"), "t0"));
    }
    let starts = reg.schedule(3, "t1");
    assert_eq!(starts.len(), 3);
    assert_eq!(reg.queue.len(), 2);
}

#[test]
fn schedule_one_skips_finished_entries() {
    let mut reg = TaskRegistry::new();
    reg.add_task(queued("task-1", "t0"));
    reg.cancel("task-1", "t1").unwrap();
    reg.queue.push_back("task-1".to_string());
    reg.queue.push_back("ghost".to_string());
    assert!(matches!(reg.schedule_one(3, "t2"), ScheduleStep::Skipped));
    assert!(matches!(reg.schedule_one(3, "t2"), ScheduleStep::Skipped));
    assert!(matches!(reg.schedule_one(3, "t2"), ScheduleStep::Idle));
}

#[test]
fn pause_resume_round_trip() {
    let mut reg = TaskRegistry::new();
    reg.add_task(queued("task-1", "t0"));
    assert_eq!(reg.pause("task-1", "t").err().as_deref(), Some("只有运行中的任务可以暂停。"));
    reg.schedule(3, "t1");
    reg.set_stage("task-1", TaskStatus::Downloading, "正在下载分片", "t2");
    let snap = reg.pause("task-1", "t3").unwrap();
    assert_eq!(snap.status, TaskStatus::Paused);
    assert_eq!(snap.stage, "已暂停");
    assert!(reg.running.is_empty());
    assert_eq!(reg.resume("task-2", "t").err().as_deref(), Some("任务不存在。"));
    let snap = reg.resume("task-1", "t4").unwrap();
    assert_eq!(snap.status, TaskStatus::Queued);
    assert_eq!(snap.stage, "等待继续槽位");
    assert_eq!(reg.queue, VecDeque::from(vec!["task-1".to_string()]));
    assert_eq!(reg.resume("task-1", "t5").err().as_deref(), Some("只有暂停中的任务可以继续。"));
    let starts = reg.schedule(3, "t6");
    assert_eq!(starts.len(), 1);
    assert!(starts[0].launch.is_none());
    assert_eq!(starts[0].snapshot.status, TaskStatus::Downloading);
    assert_eq!(starts[0].snapshot.stage, "正在下载分片");
}

#[test]
fn finish_success_and_failure() {
    let mut reg = TaskRegistry::new();
    reg.add_task(queued("task-1", "t0"));
    reg.add_task(queued("task-2", "t0"));
    reg.add_task(queued("task-3", "t0"));
    reg.schedule(3, "t1");
    let (snap, event) = reg.finish("task-1", Ok(result_for("task-1")), false, "t2").unwrap();
    assert_eq!(snap.status, TaskStatus::Completed);
    assert_eq!(snap.stage, "下载完成");
    assert_eq!(snap.completed_at.as_deref(), Some("t2"));
    assert_eq!(snap.output_path.as_deref(), Some("/tmp/out/a.mp4"));
    assert!(matches!(event, FinishEvent::Completed(ref d) if d.width == 1280 && d.task_id == "task-1"));
    let (snap, event) = reg.finish("task-2", Err("boom".to_string()), false, "t3").unwrap();
    assert_eq!(snap.status, TaskStatus::Failed);
    assert_eq!(snap.error_summary.as_deref(), Some("boom"));
    assert!(matches!(event, FinishEvent::Failed(ref p) if p.message == "boom"));
    let (snap, event) = reg.finish("task-3", Err("boom".to_string()), true, "t4").unwrap();
    assert_eq!(snap.status, TaskStatus::Cancelled);
    assert!(matches!(event, FinishEvent::Failed(ref p) if p.message == "下载已取消。"));
    assert!(reg.running.is_empty());
}

#[test]
fn retry_and_delete() {
    let mut reg = TaskRegistry::new();
    reg.add_task(queued("task-1", "t0"));
    assert_eq!(
        reg.retry("task-1", None, "t").err().as_deref(),
        Some("只有失败或已取消的任务可以重试。")
    );
    assert_eq!(
        reg.deletable("task-1").err().as_deref(),
        Some("只能删除已完成、失败或已取消的任务记录。")
    );
    reg.schedule(3, "t1");
    reg.append_log("task-1", "working", "t2");
    reg.finish("task-1", Err("bad".to_string()), false, "t3");
    let mut s = AppSettings::default();
    s.decrypt_workers = 9;
    let snap = reg.retry("task-1", Some(s), "t4").unwrap();
    assert_eq!(snap.status, TaskStatus::Queued);
    assert_eq!(snap.stage, "队列中");
    assert_eq!(snap.error_summary, None);
    assert_eq!(snap.last_log, None);
    assert_eq!(reg.tasks[0].settings.decrypt_workers, 9);
    assert!(!reg.tasks[0].worker_started);
    assert_eq!(reg.queue, VecDeque::from(vec!["task-1".to_string()]));
    reg.cancel("task-1", "t5").unwrap();
    reg.remove_task("task-1");
    assert!(reg.tasks.is_empty());
    assert!(reg.queue.is_empty());
}

#[test]
fn history_order() {
    let mut reg = TaskRegistry::new();
    reg.add_task(queued("task-1", "2024-01-01"));
    reg.add_task(queued("task-2", "2024-01-02"));
    reg.add_task(queued("task-3", "2024-01-03"));
    reg.add_task(queued("task-4", "2024-01-04"));
    reg.schedule(8, "2024-01-05");
    reg.finish("task-1", Ok(result_for("task-1")), false, "2024-02-01");
    reg.finish("task-2", Ok(result_for("task-2")), false, "2024-02-02");
    reg.finish("task-3", Err("x".to_string()), false, "2024-02-03");
    let h = reg.history();
    let ids: Vec<&str> = h.iter().map(|x| x.snapshot.task_id.as_str()).collect();
    assert_eq!(ids, vec!["task-4", "task-3", "task-2", "task-1"]);
}

#[test]
fn persist_and_restore() {
    let mut reg = TaskRegistry::new();
    reg.add_task(queued("task-7", "t0"));
    reg.add_task(queued("task-2", "t0"));
    reg.schedule(3, "t1");
    reg.append_log("task-7", "hello", "t2");
    reg.finish("task-2", Ok(result_for("task-2")), false, "t3");
    let saved = reg.persisted_metadata();
    assert_eq!(saved.len(), 2);
    let items: Vec<StoredTask> = saved
        .into_iter()
        .map(|p: PersistedTask| StoredTask { metadata: p.metadata, logs: log_lines_from_text(&p.logs) })
        .collect();
    let back = TaskRegistry::restore(items, "t9");
    assert!(back.queue.is_empty() && back.running.is_empty());
    assert_eq!(back.tasks.len(), 2);
    let t7 = back.tasks.iter().find(|t| t.id == "task-7").unwrap();
    assert_eq!(t7.status, TaskStatus::Failed);
    assert_eq!(t7.stage, "任务已中断");
    let t2 = back.tasks.iter().find(|t| t.id == "task-2").unwrap();
    assert_eq!(t2.status, TaskStatus::Completed);
    assert_eq!(t2.completed_at.as_deref(), Some("t3"));
    assert_eq!(back.max_task_sequence(), 7);
    assert_eq!(back.next_task_sequence(), 8);
}

#[test]
fn restore_keeps_last_duplicate() {
    let mut first = metadata("task-1", TaskStatus::Completed);
    first.stage = "old".to_string();
    let mut second = metadata("task-1", TaskStatus::Completed);
    second.stage = "new".to_string();
    let items = vec![
        StoredTask { metadata: first, logs: Vec::new() },
        StoredTask { metadata: second, logs: Vec::new() },
    ];
    let reg = TaskRegistry::restore(items, "now");
    assert_eq!(reg.tasks.len(), 1);
    assert_eq!(reg.tasks[0].stage, "new");
}

#[test]
fn legacy_record_becomes_stored_task() {
    let m = metadata("task-9", TaskStatus::Failed);
    let record = PersistedTaskRecord {
        id: m.id.clone(),
        input_url: m.input_url.clone(),
        output_directory: m.output_directory.clone(),
        output_file_name: None,
        status: m.status,
        previous_status: m.previous_status,
        stage: m.stage.clone(),
        progress_completed: 1,
        progress_total: 2,
        error_summary: Some("e".to_string()),
        output_path: None,
        working_directory: None,
        logs: vec!["x".to_string()],
        created_at: m.created_at.clone(),
        updated_at: m.updated_at.clone(),
        completed_at: None,
        settings: AppSettings::default(),
    };
    let stored = StoredTask::from_record(record);
    assert_eq!(stored.metadata.id, "task-9");
    assert_eq!(stored.metadata.error_summary.as_deref(), Some("e"));
    assert_eq!(stored.logs, vec!["x".to_string()]);
}

#[test]
fn task_sequence_ignores_other_ids() {
    let mut reg = TaskRegistry::new();
    assert_eq!(reg.max_task_sequence(), 0);
    assert_eq!(reg.next_task_sequence(), 1);
    reg.add_task(queued("task-12", "t"));
    reg.add_task(queued("job-99", "t"));
    reg.add_task(queued("task-x", "t"));
    reg.add_task(queued("task-3", "t"));
    assert_eq!(reg.max_task_sequence(), 12);
    assert_eq!(reg.next_task_sequence(), 13);
}

#[test]
fn throttle() {
    assert!(persist_task_registry_throttled(None));
    assert!(!persist_task_registry_throttled(Some(1199)));
    assert!(persist_task_registry_throttled(Some(1200)));
}
