//! Task lifecycle states and their stage labels.
use vstd::prelude::*;

verus! {

/// Lifecycle state of a download task.
#[derive(Clone, Copy, Debug, PartialEq, Eq, Structural)]
pub enum TaskStatus {
    Queued,
    Parsing,
    FetchingM3u8,
    Downloading,
    Decrypting,
    Merging,
    Verifying,
    Paused,
    Completed,
    Failed,
    Cancelled,
}

impl Default for TaskStatus {
    /// A task starts queued.
    fn default() -> (r: Self)
        ensures
            r == TaskStatus::Queued,
    {
        TaskStatus::Queued
    }
}

/// A task is active while a worker is running one of its pipeline stages.
pub open spec fn spec_is_active(status: TaskStatus) -> bool {
    match status {
        TaskStatus::Parsing | TaskStatus::FetchingM3u8 | TaskStatus::Downloading
        | TaskStatus::Decrypting | TaskStatus::Merging | TaskStatus::Verifying => true,
        _ => false,
    }
}

/// A task is terminal once it completed, failed or was cancelled.
pub open spec fn spec_is_terminal(status: TaskStatus) -> bool {
    match status {
        TaskStatus::Completed | TaskStatus::Failed | TaskStatus::Cancelled => true,
        _ => false,
    }
}

/// The stage label shown for a task that is in `status`.
pub open spec fn spec_status_stage(status: TaskStatus) -> Seq<char> {
    match status {
        TaskStatus::Queued => "队列中"@,
        TaskStatus::Parsing => "正在解析网页"@,
        TaskStatus::FetchingM3u8 => "正在获取 m3u8"@,
        TaskStatus::Downloading => "正在下载分片"@,
        TaskStatus::Decrypting => "正在解密分片"@,
        TaskStatus::Merging => "正在合并 mp4"@,
        TaskStatus::Verifying => "正在验证输出文件"@,
        TaskStatus::Paused => "已暂停"@,
        TaskStatus::Completed => "下载完成"@,
        TaskStatus::Failed => "下载失败"@,
        TaskStatus::Cancelled => "已取消"@,
    }
}

pub fn is_active_status(status: &TaskStatus) -> (r: bool)
    ensures
        r == spec_is_active(*status),
{
    match status {
        TaskStatus::Parsing | TaskStatus::FetchingM3u8 | TaskStatus::Downloading
        | TaskStatus::Decrypting | TaskStatus::Merging | TaskStatus::Verifying => true,
        _ => false,
    }
}

pub fn is_terminal_status(status: &TaskStatus) -> (r: bool)
    ensures
        r == spec_is_terminal(*status),
{
    match status {
        TaskStatus::Completed | TaskStatus::Failed | TaskStatus::Cancelled => true,
        _ => false,
    }
}

pub fn status_stage(status: &TaskStatus) -> (r: &'static str)
    ensures
        r@ == spec_status_stage(*status),
{
    match status {
        TaskStatus::Queued => "队列中",
        TaskStatus::Parsing => "正在解析网页",
        TaskStatus::FetchingM3u8 => "正在获取 m3u8",
        TaskStatus::Downloading => "正在下载分片",
        TaskStatus::Decrypting => "正在解密分片",
        TaskStatus::Merging => "正在合并 mp4",
        TaskStatus::Verifying => "正在验证输出文件",
        TaskStatus::Paused => "已暂停",
        TaskStatus::Completed => "下载完成",
        TaskStatus::Failed => "下载失败",
        TaskStatus::Cancelled => "已取消",
    }
}

/// No status is both active and terminal.
pub proof fn lemma_active_not_terminal(status: TaskStatus)
    ensures
        !(spec_is_active(status) && spec_is_terminal(status)),
{
}

} // verus!
