//! The steps of a download after the playlist is known, their stage texts and log lines,
//! the retry of the segment download, and the result shown when it is done.
use vstd::prelude::*;
use crate::paths::{join_path, spec_is_task_workspace_dir, spec_join_path, is_task_workspace_dir};
use crate::probe::ProbeFields;
use crate::registry::DownloadResult;
use crate::sizes::{format_duration, format_size, spec_format_duration, spec_format_size};
use crate::status::TaskStatus;
use crate::text::{chars_of, decimal, decimal_chars, push_all, push_chars, string_of};

verus! {

/// The steps of a download, in order.
#[derive(PartialEq, Eq, Structural, Clone, Copy, Debug)]
pub enum DownloadStep {
    FetchPlaylist,
    CheckTools,
    DownloadSegments,
    DecryptSegments,
    CheckSegments,
    Merge,
    Verify,
    Cleanup,
    Complete,
}

/// The status and stage text a step shows.
pub open spec fn spec_step_stage(step: DownloadStep) -> (TaskStatus, Seq<char>) {
    match step {
        DownloadStep::FetchPlaylist => (TaskStatus::FetchingM3u8, "正在获取 m3u8"@),
        DownloadStep::CheckTools => (TaskStatus::FetchingM3u8, "检查依赖工具"@),
        DownloadStep::DownloadSegments => (TaskStatus::Downloading, "正在下载分片"@),
        DownloadStep::DecryptSegments => (TaskStatus::Decrypting, "正在解密分片"@),
        DownloadStep::CheckSegments => (TaskStatus::Merging, "正在检查分片媒体流"@),
        DownloadStep::Merge => (TaskStatus::Merging, "正在合并 mp4"@),
        DownloadStep::Verify => (TaskStatus::Verifying, "正在验证输出文件"@),
        DownloadStep::Cleanup => (TaskStatus::Verifying, "正在清理临时文件"@),
        DownloadStep::Complete => (TaskStatus::Completed, "下载完成"@),
    }
}

pub fn step_stage(step: DownloadStep) -> (r: (TaskStatus, &'static str))
    ensures
        r.0 == spec_step_stage(step).0,
        r.1@ == spec_step_stage(step).1,
{
    match step {
        DownloadStep::FetchPlaylist => (TaskStatus::FetchingM3u8, "正在获取 m3u8"),
        DownloadStep::CheckTools => (TaskStatus::FetchingM3u8, "检查依赖工具"),
        DownloadStep::DownloadSegments => (TaskStatus::Downloading, "正在下载分片"),
        DownloadStep::DecryptSegments => (TaskStatus::Decrypting, "正在解密分片"),
        DownloadStep::CheckSegments => (TaskStatus::Merging, "正在检查分片媒体流"),
        DownloadStep::Merge => (TaskStatus::Merging, "正在合并 mp4"),
        DownloadStep::Verify => (TaskStatus::Verifying, "正在验证输出文件"),
        DownloadStep::Cleanup => (TaskStatus::Verifying, "正在清理临时文件"),
        DownloadStep::Complete => (TaskStatus::Completed, "下载完成"),
    }
}

/// The step after a step, none after the last.
pub open spec fn spec_next_step(step: DownloadStep) -> Option<DownloadStep> {
    match step {
        DownloadStep::FetchPlaylist => Some(DownloadStep::CheckTools),
        DownloadStep::CheckTools => Some(DownloadStep::DownloadSegments),
        DownloadStep::DownloadSegments => Some(DownloadStep::DecryptSegments),
        DownloadStep::DecryptSegments => Some(DownloadStep::CheckSegments),
        DownloadStep::CheckSegments => Some(DownloadStep::Merge),
        DownloadStep::Merge => Some(DownloadStep::Verify),
        DownloadStep::Verify => Some(DownloadStep::Cleanup),
        DownloadStep::Cleanup => Some(DownloadStep::Complete),
        DownloadStep::Complete => None,
    }
}

pub fn next_step(step: DownloadStep) -> (r: Option<DownloadStep>)
    ensures
        r == spec_next_step(step),
{
    match step {
        DownloadStep::FetchPlaylist => Some(DownloadStep::CheckTools),
        DownloadStep::CheckTools => Some(DownloadStep::DownloadSegments),
        DownloadStep::DownloadSegments => Some(DownloadStep::DecryptSegments),
        DownloadStep::DecryptSegments => Some(DownloadStep::CheckSegments),
        DownloadStep::CheckSegments => Some(DownloadStep::Merge),
        DownloadStep::Merge => Some(DownloadStep::Verify),
        DownloadStep::Verify => Some(DownloadStep::Cleanup),
        DownloadStep::Cleanup => Some(DownloadStep::Complete),
        DownloadStep::Complete => None,
    }
}

/// `label` followed by a value and a newline: a log line such as `ffmpeg: /path`.
pub fn labeled_line(label: &str, value: &str) -> (r: String)
    ensures
        r@ == label@ + value@ + "\n"@,
{
    let mut v = chars_of(label);
    push_all(&mut v, value);
    push_all(&mut v, "\n");
    string_of(v.as_slice())
}

/// The log line after the playlist is read.
pub fn segment_count_line(count: usize) -> (r: String)
    ensures
        r@ == "解析到 "@ + decimal(count as nat) + " 个分片。\n"@,
{
    let mut v = chars_of("解析到 ");
    push_chars(&mut v, &decimal_chars(count as u64));
    push_all(&mut v, " 个分片。\n");
    string_of(v.as_slice())
}

/// What the segment download's check after an aria2 run leads to.
pub enum DownloadAttempt {
    /// All segment files are there.
    Complete,
    /// Run aria2 once more, after logging this line and waiting a second.
    Retry(String),
    /// The download failed with this message.
    Failed(String),
}

/// After run `attempt` (1 or 2) of aria2 and the check of the files: a failed check is
/// retried once.
pub fn download_attempt_outcome(attempt: u32, check: Result<(), String>) -> (r: DownloadAttempt)
    ensures
        match check {
            Ok(()) => r is Complete,
            Err(e) => if attempt == 1 {
                r matches DownloadAttempt::Retry(l) && l@ == "分片校验失败，准备重试 aria2 一次："@ + e@ + "\n"@
            } else {
                r matches DownloadAttempt::Failed(m) && m@ == e@
            },
        },
{
    match check {
        Ok(()) => DownloadAttempt::Complete,
        Err(e) => {
            if attempt == 1 {
                let mut v = chars_of("分片校验失败，准备重试 aria2 一次：");
                push_all(&mut v, e.as_str());
                push_all(&mut v, "\n");
                DownloadAttempt::Retry(string_of(v.as_slice()))
            } else {
                DownloadAttempt::Failed(e)
            }
        },
    }
}

/// Where the extraction script may be: under the app's resources, then under the
/// working directory and its parent.
pub open spec fn spec_script_candidates(resource_dir: Option<Seq<char>>, cwd: Seq<char>, cwd_parent: Option<Seq<char>>) -> Seq<Seq<char>> {
    let from_resources = match resource_dir {
        Some(r) => seq![
            spec_join_path(r, "scripts/extract-m3u8.mjs"@),
            spec_join_path(r, "extract-m3u8.mjs"@),
        ],
        None => seq![],
    };
    let parent = match cwd_parent {
        Some(p) => p,
        None => cwd,
    };
    from_resources + seq![
        spec_join_path(cwd, "scripts/extract-m3u8.mjs"@),
        spec_join_path(parent, "scripts/extract-m3u8.mjs"@),
    ]
}

pub fn script_candidates(resource_dir: Option<&str>, cwd: &str, cwd_parent: Option<&str>) -> (r: Vec<String>)
    ensures
        crate::text::views(r@) == spec_script_candidates(
            match resource_dir {
                Some(s) => Some(s@),
                None => None,
            },
            cwd@,
            match cwd_parent {
                Some(s) => Some(s@),
                None => None,
            },
        ),
{
    let mut r: Vec<String> = Vec::new();
    match resource_dir {
        Some(dir) => {
            r.push(join_path(dir, "scripts/extract-m3u8.mjs"));
            r.push(join_path(dir, "extract-m3u8.mjs"));
        },
        None => {},
    }
    r.push(join_path(cwd, "scripts/extract-m3u8.mjs"));
    let parent = match cwd_parent {
        Some(p) => p,
        None => cwd,
    };
    r.push(join_path(parent, "scripts/extract-m3u8.mjs"));
    let ghost expected = spec_script_candidates(
        match resource_dir {
            Some(s) => Some(s@),
            None => None,
        },
        cwd@,
        match cwd_parent {
            Some(s) => Some(s@),
            None => None,
        },
    );
    assert(crate::text::views(r@) =~= expected);
    r
}

/// The message when the extraction script is not found.
pub fn script_missing_message() -> (r: String)
    ensures
        r@ == "未找到网页提取脚本 scripts/extract-m3u8.mjs。"@,
{
    String::from_str("未找到网页提取脚本 scripts/extract-m3u8.mjs。")
}

/// The message when Node cannot be found for the extraction browser.
pub fn node_missing_message() -> (r: String)
    ensures
        r@ == "未找到 node，网页动态提取需要先安装 Node.js。"@,
{
    String::from_str("未找到 node，网页动态提取需要先安装 Node.js。")
}

/// Only a task working directory may be deleted with a task's record.
pub fn check_workspace_deletable(path: &str, support_dir: &str) -> (r: Result<(), String>)
    ensures
        spec_is_task_workspace_dir(path@, support_dir@) <==> r is Ok,
        r matches Err(e) ==> e@ == "拒绝删除非任务临时目录："@ + path@,
{
    if is_task_workspace_dir(path, support_dir) {
        Ok(())
    } else {
        Err(crate::text::concat("拒绝删除非任务临时目录：", path))
    }
}

/// The result of a finished download: the output file, no working directory (it was
/// cleaned up), the duration and size as text, the codecs and the picture size.
pub fn download_result(task_id: &str, output_path: &str, probe: &ProbeFields, duration_seconds: u64) -> (r: DownloadResult)
    ensures
        r.task_id@ == task_id@,
        r.output_path@ == output_path@,
        r.working_directory@.len() == 0,
        r.duration_text@ == spec_format_duration(duration_seconds as nat),
        r.size_text@ == spec_format_size(probe.size as nat),
        r.video_codec@ == probe.video_codec@,
        r.audio_codec@ == probe.audio_codec@,
        r.width == probe.width,
        r.height == probe.height,
{
    DownloadResult {
        task_id: String::from_str(task_id),
        output_path: String::from_str(output_path),
        working_directory: String::new(),
        duration_text: format_duration(duration_seconds),
        size_text: format_size(probe.size),
        video_codec: probe.video_codec.clone(),
        audio_codec: probe.audio_codec.clone(),
        width: probe.width,
        height: probe.height,
    }
}

/// What a worker does at a control point, given the user's cancel and pause requests.
pub enum ControlCheck {
    /// Carry on.
    Proceed,
    /// Paused: sleep a moment and check again.
    Wait,
    /// Stop with this message.
    Cancelled(String),
}

/// Cancelling wins over pausing; a paused worker waits; otherwise it carries on.
pub fn control_check(cancel_requested: bool, pause_requested: bool) -> (r: ControlCheck)
    ensures
        cancel_requested ==> (r matches ControlCheck::Cancelled(m) && m@ == "下载已取消。"@),
        !cancel_requested && pause_requested ==> r is Wait,
        !cancel_requested && !pause_requested ==> r is Proceed,
{
    if cancel_requested {
        ControlCheck::Cancelled(String::from_str("下载已取消。"))
    } else if pause_requested {
        ControlCheck::Wait
    } else {
        ControlCheck::Proceed
    }
}

/// The check of the merged file: it must exist (`size` is its length where it does)
/// and must not be empty.
pub fn output_file_check(size: Option<u64>) -> (r: Result<(), String>)
    ensures
        size is None ==> (r matches Err(e) && e@ == "合并完成后没有找到输出 mp4。"@),
        size == Some(0u64) ==> (r matches Err(e) && e@ == "合并后的 mp4 文件大小为 0。"@),
        (size matches Some(n) && n > 0) <==> r is Ok,
{
    match size {
        None => Err(String::from_str("合并完成后没有找到输出 mp4。")),
        Some(n) => if n == 0 {
            Err(String::from_str("合并后的 mp4 文件大小为 0。"))
        } else {
            Ok(())
        },
    }
}

/// The log line after trying to remove the working directory: removed, or kept with
/// the reason.
pub fn cleanup_log_line(working_dir: &str, outcome: Result<(), String>) -> (r: String)
    ensures
        match outcome {
            Ok(()) => r@ == "临时文件已清理: "@ + working_dir@ + "\n"@,
            Err(e) => r@ == "临时文件清理失败，已保留目录: "@ + working_dir@ + "，"@ + e@ + "\n"@,
        },
{
    match outcome {
        Ok(()) => {
            let mut v = chars_of("临时文件已清理: ");
            push_all(&mut v, working_dir);
            push_all(&mut v, "\n");
            string_of(v.as_slice())
        },
        Err(e) => {
            let mut v = chars_of("临时文件清理失败，已保留目录: ");
            push_all(&mut v, working_dir);
            push_all(&mut v, "，");
            push_all(&mut v, e.as_str());
            push_all(&mut v, "\n");
            string_of(v.as_slice())
        },
    }
}

} // verus!
