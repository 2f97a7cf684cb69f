use streamweave::paths::{
    app_support_dir, browser_profile_dir, default_downloads_dir, is_task_parent_dir,
    is_task_workspace_dir, join_path, safe_task_file_stem, task_history_path, task_log_parent_dir,
    task_log_path, task_metadata_parent_dir, task_metadata_path, task_workspace_parent_dir,
};
use streamweave::pipeline::check_workspace_deletable;

#[test]
fn joining_paths() {
    assert_eq!(join_path("/a", "b"), "/a/b");
    assert_eq!(join_path("/a/", "b"), "/a/b");
    assert_eq!(join_path("", "b"), "b");
    assert_eq!(join_path("/a", "/abs"), "/abs");
    assert_eq!(join_path("a", ""), "a/");
}

#[test]
fn data_directories() {
    let support = app_support_dir(Some("/Users/me"));
    assert_eq!(support, "/Users/me/Library/Application Support/StreamWeave");
    assert_eq!(app_support_dir(None), "./Library/Application Support/StreamWeave");
    assert_eq!(default_downloads_dir(Some("/Users/me")), "/Users/me/Downloads");
    assert_eq!(default_downloads_dir(None), "./Downloads");
    assert_eq!(browser_profile_dir(&support), format!("{support}/browser-profile"));
    assert_eq!(task_workspace_parent_dir(&support), format!("{support}/tasks"));
    assert_eq!(task_history_path(&support), format!("{support}/tasks.json"));
    assert_eq!(task_metadata_parent_dir(&support), format!("{support}/task-records"));
    assert_eq!(task_log_parent_dir(&support), format!("{support}/task-logs"));
    assert_eq!(task_metadata_path(&support, "task-7"), format!("{support}/task-records/task-7.json"));
    assert_eq!(task_log_path(&support, "a/b c"), format!("{support}/task-logs/a_b_c.log"));
}

#[test]
fn safe_stems() {
    assert_eq!(safe_task_file_stem("task-12_x"), "task-12_x");
    assert_eq!(safe_task_file_stem("../任务 1"), "______1");
}

#[test]
fn workspace_directories() {
    let support = "/Users/me/Library/Application Support/StreamWeave";
    assert!(is_task_parent_dir(&format!("{support}/tasks"), support));
    assert!(is_task_parent_dir(&format!("{support}/tasks/"), support));
    assert!(is_task_parent_dir("/old/VideoDownloaderTasks", support));
    assert!(!is_task_parent_dir("/Users/me", support));
    assert!(is_task_workspace_dir(&format!("{support}/tasks/20240101-task-1-9"), support));
    assert!(is_task_workspace_dir("/x/VideoDownloaderTasks/job", support));
    assert!(!is_task_workspace_dir("/Users/me/Documents", support));
    assert!(!is_task_workspace_dir("/", support));
    assert!(check_workspace_deletable(&format!("{support}/tasks/job"), support).is_ok());
    assert_eq!(
        check_workspace_deletable("/Users/me/Documents", support).unwrap_err(),
        "拒绝删除非任务临时目录：/Users/me/Documents"
    );
}
