//! Task records, their snapshots, persisted forms and restoration.
use vstd::prelude::*;
use std::collections::VecDeque;
use crate::settings::AppSettings;
use crate::status::{is_terminal_status, spec_is_terminal, TaskStatus};
use crate::text::{
    chars_of, clone_opt, join, join_strings, lines, split_lines, string_of, trim, trim_chars, views,
};

verus! {

/// At most this many log lines are kept per running task.
pub const MAX_TASK_LOG_LINES: usize = 2000;

/// The full in-memory record of a download task.
pub struct TaskRecord {
    pub id: String,
    pub input_url: String,
    pub output_directory: Option<String>,
    pub output_file_name: Option<String>,
    pub status: TaskStatus,
    pub previous_status: TaskStatus,
    pub stage: String,
    pub progress_completed: usize,
    pub progress_total: usize,
    pub error_summary: Option<String>,
    pub output_path: Option<String>,
    pub working_directory: Option<String>,
    pub logs: VecDeque<String>,
    pub worker_started: bool,
    pub created_at: String,
    pub updated_at: String,
    pub completed_at: Option<String>,
    pub settings: AppSettings,
}

/// What the user interface shows of a task.
#[derive(Debug)]
pub struct TaskSnapshot {
    pub task_id: String,
    pub input_url: String,
    pub output_directory: Option<String>,
    pub output_file_name: Option<String>,
    pub status: TaskStatus,
    pub stage: String,
    pub progress_completed: usize,
    pub progress_total: usize,
    pub error_summary: Option<String>,
    pub output_path: Option<String>,
    pub working_directory: Option<String>,
    pub last_log: Option<String>,
    pub created_at: String,
    pub updated_at: String,
    pub completed_at: Option<String>,
}

/// A snapshot together with the task's whole log.
#[derive(Debug)]
pub struct TaskHistorySnapshot {
    pub snapshot: TaskSnapshot,
    pub logs: String,
}

/// The per-task metadata file (everything but the logs).
pub struct PersistedTaskMetadata {
    pub id: String,
    pub input_url: String,
    pub output_directory: Option<String>,
    pub output_file_name: Option<String>,
    pub status: TaskStatus,
    pub previous_status: TaskStatus,
    pub stage: String,
    pub progress_completed: usize,
    pub progress_total: usize,
    pub error_summary: Option<String>,
    pub output_path: Option<String>,
    pub working_directory: Option<String>,
    pub created_at: String,
    pub updated_at: String,
    pub completed_at: Option<String>,
    pub settings: AppSettings,
}

/// A task as the legacy single-file history stored it (logs included).
pub struct PersistedTaskRecord {
    pub id: String,
    pub input_url: String,
    pub output_directory: Option<String>,
    pub output_file_name: Option<String>,
    pub status: TaskStatus,
    pub previous_status: TaskStatus,
    pub stage: String,
    pub progress_completed: usize,
    pub progress_total: usize,
    pub error_summary: Option<String>,
    pub output_path: Option<String>,
    pub working_directory: Option<String>,
    pub logs: Vec<String>,
    pub created_at: String,
    pub updated_at: String,
    pub completed_at: Option<String>,
    pub settings: AppSettings,
}

/// The last element of a sequence of log lines, if any.
pub open spec fn last_of(logs: Seq<String>) -> Option<String> {
    if logs.len() > 0 {
        Some(logs.last())
    } else {
        None
    }
}

/// The snapshot of a task.
pub open spec fn spec_snapshot(t: TaskRecord) -> TaskSnapshot {
    TaskSnapshot {
        task_id: t.id,
        input_url: t.input_url,
        output_directory: t.output_directory,
        output_file_name: t.output_file_name,
        status: t.status,
        stage: t.stage,
        progress_completed: t.progress_completed,
        progress_total: t.progress_total,
        error_summary: t.error_summary,
        output_path: t.output_path,
        working_directory: t.working_directory,
        last_log: last_of(t.logs@),
        created_at: t.created_at,
        updated_at: t.updated_at,
        completed_at: t.completed_at,
    }
}

/// The metadata persisted for a task.
pub open spec fn spec_metadata(t: TaskRecord) -> PersistedTaskMetadata {
    PersistedTaskMetadata {
        id: t.id,
        input_url: t.input_url,
        output_directory: t.output_directory,
        output_file_name: t.output_file_name,
        status: t.status,
        previous_status: t.previous_status,
        stage: t.stage,
        progress_completed: t.progress_completed,
        progress_total: t.progress_total,
        error_summary: t.error_summary,
        output_path: t.output_path,
        working_directory: t.working_directory,
        created_at: t.created_at,
        updated_at: t.updated_at,
        completed_at: t.completed_at,
        settings: t.settings,
    }
}

/// The metadata part of a legacy record.
pub open spec fn spec_metadata_of_record(t: PersistedTaskRecord) -> PersistedTaskMetadata {
    PersistedTaskMetadata {
        id: t.id,
        input_url: t.input_url,
        output_directory: t.output_directory,
        output_file_name: t.output_file_name,
        status: t.status,
        previous_status: t.previous_status,
        stage: t.stage,
        progress_completed: t.progress_completed,
        progress_total: t.progress_total,
        error_summary: t.error_summary,
        output_path: t.output_path,
        working_directory: t.working_directory,
        created_at: t.created_at,
        updated_at: t.updated_at,
        completed_at: t.completed_at,
        settings: t.settings,
    }
}

/// Copies all log lines of a task into a vector.
pub fn logs_vec(logs: &VecDeque<String>) -> (r: Vec<String>)
    ensures
        r@ == logs@,
{
    let mut r: Vec<String> = Vec::new();
    let mut i: usize = 0;
    while i < logs.len()
        invariant
            i <= logs@.len(),
            r@ == logs@.take(i as int),
        decreases logs@.len() - i,
    {
        r.push(logs[i].clone());
        i = i + 1;
        assert(r@ =~= logs@.take(i as int));
    }
    assert(logs@.take(logs@.len() as int) =~= logs@);
    r
}

impl TaskRecord {
    pub fn snapshot(&self) -> (r: TaskSnapshot)
        ensures
            r == spec_snapshot(*self),
    {
        let last_log = if self.logs.len() > 0 {
            Some(self.logs[self.logs.len() - 1].clone())
        } else {
            None
        };
        TaskSnapshot {
            task_id: self.id.clone(),
            input_url: self.input_url.clone(),
            output_directory: clone_opt(&self.output_directory),
            output_file_name: clone_opt(&self.output_file_name),
            status: self.status,
            stage: self.stage.clone(),
            progress_completed: self.progress_completed,
            progress_total: self.progress_total,
            error_summary: clone_opt(&self.error_summary),
            output_path: clone_opt(&self.output_path),
            working_directory: clone_opt(&self.working_directory),
            last_log,
            created_at: self.created_at.clone(),
            updated_at: self.updated_at.clone(),
            completed_at: clone_opt(&self.completed_at),
        }
    }

    /// The log as one text, lines separated by `'\n'` (how it is shown and stored).
    pub fn logs_text(&self) -> (r: String)
        ensures
            r@ == join(views(self.logs@), "\n"@),
    {
        let v = logs_vec(&self.logs);
        join_strings(&v, "\n")
    }

    /// The snapshot together with the full log.
    pub fn history_snapshot(&self) -> (r: TaskHistorySnapshot)
        ensures
            r.snapshot == spec_snapshot(*self),
            r.logs@ == join(views(self.logs@), "\n"@),
    {
        TaskHistorySnapshot { snapshot: self.snapshot(), logs: self.logs_text() }
    }
}

impl PersistedTaskMetadata {
    /// The metadata persisted for a task (`From<&TaskRecord>`).
    pub fn from_task(t: &TaskRecord) -> (r: Self)
        ensures
            r == spec_metadata(*t),
    {
        PersistedTaskMetadata {
            id: t.id.clone(),
            input_url: t.input_url.clone(),
            output_directory: clone_opt(&t.output_directory),
            output_file_name: clone_opt(&t.output_file_name),
            status: t.status,
            previous_status: t.previous_status,
            stage: t.stage.clone(),
            progress_completed: t.progress_completed,
            progress_total: t.progress_total,
            error_summary: clone_opt(&t.error_summary),
            output_path: clone_opt(&t.output_path),
            working_directory: clone_opt(&t.working_directory),
            created_at: t.created_at.clone(),
            updated_at: t.updated_at.clone(),
            completed_at: clone_opt(&t.completed_at),
            settings: t.settings.clone(),
        }
    }

    /// The metadata part of a legacy record (`From<&PersistedTaskRecord>`).
    pub fn from_record(t: &PersistedTaskRecord) -> (r: Self)
        ensures
            r == spec_metadata_of_record(*t),
    {
        PersistedTaskMetadata {
            id: t.id.clone(),
            input_url: t.input_url.clone(),
            output_directory: clone_opt(&t.output_directory),
            output_file_name: clone_opt(&t.output_file_name),
            status: t.status,
            previous_status: t.previous_status,
            stage: t.stage.clone(),
            progress_completed: t.progress_completed,
            progress_total: t.progress_total,
            error_summary: clone_opt(&t.error_summary),
            output_path: clone_opt(&t.output_path),
            working_directory: clone_opt(&t.working_directory),
            created_at: t.created_at.clone(),
            updated_at: t.updated_at.clone(),
            completed_at: clone_opt(&t.completed_at),
            settings: t.settings.clone(),
        }
    }
}

impl PersistedTaskRecord {
    /// A task in the legacy single-file form (`From<&TaskRecord>`).
    pub fn from_task(t: &TaskRecord) -> (r: Self)
        ensures
            spec_metadata_of_record(r) == spec_metadata(*t),
            r.logs@ == t.logs@,
    {
        PersistedTaskRecord {
            id: t.id.clone(),
            input_url: t.input_url.clone(),
            output_directory: clone_opt(&t.output_directory),
            output_file_name: clone_opt(&t.output_file_name),
            status: t.status,
            previous_status: t.previous_status,
            stage: t.stage.clone(),
            progress_completed: t.progress_completed,
            progress_total: t.progress_total,
            error_summary: clone_opt(&t.error_summary),
            output_path: clone_opt(&t.output_path),
            working_directory: clone_opt(&t.working_directory),
            logs: logs_vec(&t.logs),
            created_at: t.created_at.clone(),
            updated_at: t.updated_at.clone(),
            completed_at: clone_opt(&t.completed_at),
            settings: t.settings.clone(),
        }
    }
}

/// How many of `n` stored log lines are skipped when a task is restored.
pub open spec fn skipped_logs(n: int) -> int {
    if n > MAX_TASK_LOG_LINES {
        n - MAX_TASK_LOG_LINES
    } else {
        0
    }
}

/// `r` is the task restored from `meta`, its stored log lines `raw_logs` and the current time `now`.
///
/// A task that had not reached a terminal state was interrupted: it comes back as failed,
/// retryable, with a note appended to its log.
pub open spec fn spec_restored(
    meta: PersistedTaskMetadata,
    raw_logs: Seq<String>,
    now: Seq<char>,
    r: TaskRecord,
) -> bool {
    let unfinished = !spec_is_terminal(meta.status);
    let kept = raw_logs.skip(skipped_logs(raw_logs.len() as int));
    &&& r.id == meta.id
    &&& r.input_url == meta.input_url
    &&& r.output_directory == meta.output_directory
    &&& r.output_file_name == meta.output_file_name
    &&& r.progress_completed == meta.progress_completed
    &&& r.progress_total == meta.progress_total
    &&& r.output_path == meta.output_path
    &&& r.working_directory == meta.working_directory
    &&& r.created_at == meta.created_at
    &&& r.settings == meta.settings
    &&& !r.worker_started
    &&& if unfinished {
        &&& r.status == TaskStatus::Failed
        &&& r.previous_status == TaskStatus::Queued
        &&& r.stage@ == "任务已中断"@
        &&& r.error_summary matches Some(e) && e@ == "应用已关闭，任务已中断，可重试。"@
        &&& r.completed_at is None
        &&& r.updated_at@ == now
        &&& r.logs@.len() == kept.len() + 1
        &&& r.logs@.take(kept.len() as int) == kept
        &&& r.logs@.last()@ == "应用已关闭，任务已中断，可重试。"@
    } else {
        &&& r.status == meta.status
        &&& r.previous_status == meta.previous_status
        &&& r.stage == meta.stage
        &&& r.error_summary == meta.error_summary
        &&& r.completed_at == (if meta.status == TaskStatus::Completed && meta.completed_at is None {
            Some(meta.updated_at)
        } else {
            meta.completed_at
        })
        &&& r.updated_at == meta.updated_at
        &&& r.logs@ == kept
    }
}

/// Rebuilds a task from its persisted metadata and log lines.
pub fn task_from_metadata(metadata: PersistedTaskMetadata, raw_logs: Vec<String>, now: &str) -> (r:
    TaskRecord)
    ensures
        spec_restored(metadata, raw_logs@, now@, r),
{
    let was_unfinished = !is_terminal_status(&metadata.status);
    let status = if was_unfinished {
        TaskStatus::Failed
    } else {
        metadata.status
    };
    let stage = if was_unfinished {
        String::from_str("任务已中断")
    } else {
        metadata.stage
    };
    let error_summary = if was_unfinished {
        Some(String::from_str("应用已关闭，任务已中断，可重试。"))
    } else {
        metadata.error_summary
    };
    let completed_at = if was_unfinished {
        None
    } else if status == TaskStatus::Completed {
        match metadata.completed_at {
            Some(c) => Some(c),
            None => Some(metadata.updated_at.clone()),
        }
    } else {
        metadata.completed_at
    };
    let logs_len = raw_logs.len();
    let skip: usize = if logs_len > MAX_TASK_LOG_LINES {
        logs_len - MAX_TASK_LOG_LINES
    } else {
        0
    };
    let mut logs: VecDeque<String> = VecDeque::new();
    let mut i = skip;
    while i < logs_len
        invariant
            skip <= i <= logs_len,
            logs_len == raw_logs@.len(),
            skip == skipped_logs(logs_len as int),
            logs@ == raw_logs@.subrange(skip as int, i as int),
        decreases logs_len - i,
    {
        logs.push_back(raw_logs[i].clone());
        i = i + 1;
        assert(logs@ =~= raw_logs@.subrange(skip as int, i as int));
    }
    let ghost kept = logs@;
    assert(kept =~= raw_logs@.skip(skip as int));
    if was_unfinished {
        logs.push_back(String::from_str("应用已关闭，任务已中断，可重试。"));
        assert(logs@.take(kept.len() as int) =~= kept);
    }
    let updated_at = if was_unfinished {
        String::from_str(now)
    } else {
        metadata.updated_at
    };
    let previous_status = if was_unfinished {
        TaskStatus::Queued
    } else {
        metadata.previous_status
    };
    TaskRecord {
        id: metadata.id,
        input_url: metadata.input_url,
        output_directory: metadata.output_directory,
        output_file_name: metadata.output_file_name,
        status,
        previous_status,
        stage,
        progress_completed: metadata.progress_completed,
        progress_total: metadata.progress_total,
        error_summary,
        output_path: metadata.output_path,
        working_directory: metadata.working_directory,
        logs,
        worker_started: false,
        created_at: metadata.created_at,
        updated_at,
        completed_at,
        settings: metadata.settings,
    }
}

} // verus!

verus! {

/// Appends one line to a log that keeps at most `MAX_TASK_LOG_LINES` lines.
pub open spec fn push_capped(logs: Seq<Seq<char>>, line: Seq<char>) -> Seq<Seq<char>> {
    if logs.len() == MAX_TASK_LOG_LINES {
        logs.drop_first().push(line)
    } else {
        logs.push(line)
    }
}

/// The log after appending the non-blank ones of `ls`, in order.
pub open spec fn append_lines(logs: Seq<Seq<char>>, ls: Seq<Seq<char>>) -> Seq<Seq<char>>
    decreases ls.len(),
{
    if ls.len() == 0 {
        logs
    } else {
        let before = append_lines(logs, ls.drop_last());
        if trim(ls.last()).len() > 0 {
            push_capped(before, ls.last())
        } else {
            before
        }
    }
}

impl TaskRecord {
    /// Records a log message: each non-blank line of it is appended, the oldest line
    /// dropped once the log is full, and the task marked updated at `now`.
    pub fn append_log(&mut self, message: &str, now: &str)
        ensures
            views(final(self).logs@) == append_lines(views(old(self).logs@), lines(message@)),
            final(self).updated_at@ == now@,
            spec_metadata(*final(self)) == (PersistedTaskMetadata {
                updated_at: final(self).updated_at,
                ..spec_metadata(*old(self))
            }),
            final(self).worker_started == old(self).worker_started,
    {
        let text = chars_of(message);
        let ls = split_lines(&text);
        let ghost all = lines(message@);
        let ghost start = views(self.logs@);
        let mut i: usize = 0;
        while i < ls.len()
            invariant
                i <= ls@.len(),
                ls@.len() == all.len(),
                forall|k: int| 0 <= k < ls@.len() ==> (#[trigger] ls@[k])@ == all[k],
                views(self.logs@) == append_lines(start, all.take(i as int)),
                spec_metadata(*self) == spec_metadata(*old(self)),
                self.worker_started == old(self).worker_started,
            decreases ls@.len() - i,
        {
            let line = &ls[i];
            let t = trim_chars(line);
            proof {
                assert(all.take(i + 1).drop_last() =~= all.take(i as int));
                assert(all.take(i + 1).last() == all[i as int]);
            }
            if t.len() > 0 {
                let ghost before = self.logs@;
                if self.logs.len() == MAX_TASK_LOG_LINES {
                    self.logs.pop_front();
                }
                self.logs.push_back(string_of(line.as_slice()));
                proof {
                    let pushed = push_capped(views(before), all[i as int]);
                    assert(views(self.logs@) =~= pushed);
                }
            }
            i = i + 1;
        }
        assert(all.take(all.len() as int) =~= all);
        self.updated_at = String::from_str(now);
    }

    /// Moves the task to a pipeline stage; a paused task keeps its status.
    pub fn set_stage(&mut self, status: TaskStatus, stage: &str, now: &str)
        ensures
            old(self).status != TaskStatus::Paused ==> final(self).status == status
                && final(self).previous_status == status,
            old(self).status == TaskStatus::Paused ==> final(self).status == old(self).status
                && final(self).previous_status == old(self).previous_status,
            final(self).stage@ == stage@,
            final(self).updated_at@ == now@,
            spec_metadata(*final(self)) == (PersistedTaskMetadata {
                status: final(self).status,
                previous_status: final(self).previous_status,
                stage: final(self).stage,
                updated_at: final(self).updated_at,
                ..spec_metadata(*old(self))
            }),
            final(self).logs@ == old(self).logs@,
            final(self).worker_started == old(self).worker_started,
    {
        if self.status != TaskStatus::Paused {
            self.status = status;
            self.previous_status = status;
        }
        self.stage = String::from_str(stage);
        self.updated_at = String::from_str(now);
    }

    /// Records download progress.
    pub fn set_progress(&mut self, completed: usize, total: usize, now: &str)
        ensures
            final(self).updated_at@ == now@,
            spec_metadata(*final(self)) == (PersistedTaskMetadata {
                progress_completed: completed,
                progress_total: total,
                updated_at: final(self).updated_at,
                ..spec_metadata(*old(self))
            }),
            final(self).logs@ == old(self).logs@,
            final(self).worker_started == old(self).worker_started,
    {
        self.progress_completed = completed;
        self.progress_total = total;
        self.updated_at = String::from_str(now);
    }

    /// Records the working directory and/or the output path, where given.
    pub fn set_paths(&mut self, working_dir: Option<&str>, output_path: Option<&str>, now: &str)
        ensures
            match working_dir {
                Some(w) => final(self).working_directory matches Some(x) && x@ == w@,
                None => final(self).working_directory == old(self).working_directory,
            },
            match output_path {
                Some(o) => final(self).output_path matches Some(x) && x@ == o@,
                None => final(self).output_path == old(self).output_path,
            },
            final(self).updated_at@ == now@,
            spec_metadata(*final(self)) == (PersistedTaskMetadata {
                working_directory: final(self).working_directory,
                output_path: final(self).output_path,
                updated_at: final(self).updated_at,
                ..spec_metadata(*old(self))
            }),
            final(self).logs@ == old(self).logs@,
            final(self).worker_started == old(self).worker_started,
    {
        if let Some(w) = working_dir {
            self.working_directory = Some(String::from_str(w));
        }
        if let Some(o) = output_path {
            self.output_path = Some(String::from_str(o));
        }
        self.updated_at = String::from_str(now);
    }

    /// Adopts a name suggested by the page title, unless the user already chose a
    /// non-blank output file name.
    pub fn suggest_name(&mut self, suggested_name: &str, now: &str)
        ensures
            (match old(self).output_file_name {
                Some(n) => trim(n@).len() == 0,
                None => true,
            }) ==> (final(self).output_file_name matches Some(x) && x@ == suggested_name@)
                && final(self).updated_at@ == now@ && spec_metadata(*final(self)) == (
            PersistedTaskMetadata {
                output_file_name: final(self).output_file_name,
                updated_at: final(self).updated_at,
                ..spec_metadata(*old(self))
            }),
            !(match old(self).output_file_name {
                Some(n) => trim(n@).len() == 0,
                None => true,
            }) ==> spec_metadata(*final(self)) == spec_metadata(*old(self)),
            final(self).logs@ == old(self).logs@,
            final(self).worker_started == old(self).worker_started,
    {
        let blank = match &self.output_file_name {
            Some(n) => {
                let v = chars_of(n.as_str());
                trim_chars(&v).len() == 0
            },
            None => true,
        };
        if blank {
            self.output_file_name = Some(String::from_str(suggested_name));
            self.updated_at = String::from_str(now);
        }
    }
}

} // verus!

verus! {

/// Listing group: unfinished tasks first, then failed or cancelled ones, completed last.
pub open spec fn spec_sort_group(status: TaskStatus) -> u8 {
    match status {
        TaskStatus::Completed => 2,
        TaskStatus::Failed | TaskStatus::Cancelled => 1,
        _ => 0,
    }
}

/// The time a task is listed by: completion time for completed tasks (update time if
/// unknown), activity time for failed or cancelled ones, creation time otherwise.
pub open spec fn spec_sort_time(s: TaskSnapshot) -> Seq<char> {
    match s.status {
        TaskStatus::Completed => match s.completed_at {
            Some(c) => c@,
            None => s.updated_at@,
        },
        TaskStatus::Failed | TaskStatus::Cancelled => s.updated_at@,
        _ => s.created_at@,
    }
}

pub fn task_snapshot_sort_group(snapshot: &TaskSnapshot) -> (r: u8)
    ensures
        r == spec_sort_group(snapshot.status),
{
    match snapshot.status {
        TaskStatus::Completed => 2,
        TaskStatus::Failed | TaskStatus::Cancelled => 1,
        _ => 0,
    }
}

pub fn task_snapshot_sort_time(snapshot: &TaskSnapshot) -> (r: &str)
    ensures
        r@ == spec_sort_time(*snapshot),
{
    match snapshot.status {
        TaskStatus::Completed => match &snapshot.completed_at {
            Some(c) => c.as_str(),
            None => snapshot.updated_at.as_str(),
        },
        TaskStatus::Failed | TaskStatus::Cancelled => snapshot.updated_at.as_str(),
        _ => snapshot.created_at.as_str(),
    }
}

} // verus!

verus! {

impl TaskRecord {
    /// A freshly added task, waiting in the queue.
    pub fn new_queued(
        id: &str,
        input_url: &str,
        output_directory: Option<String>,
        output_file_name: Option<String>,
        settings: AppSettings,
        now: &str,
    ) -> (r: Self)
        ensures
            r.id@ == id@,
            r.input_url@ == input_url@,
            r.output_directory == output_directory,
            r.output_file_name == output_file_name,
            r.status == TaskStatus::Queued,
            r.previous_status == TaskStatus::Queued,
            r.stage@ == "队列中"@,
            r.progress_completed == 0,
            r.progress_total == 0,
            r.error_summary is None,
            r.output_path is None,
            r.working_directory is None,
            r.logs@.len() == 0,
            !r.worker_started,
            r.created_at@ == now@,
            r.updated_at@ == now@,
            r.completed_at is None,
            r.settings == settings,
    {
        TaskRecord {
            id: String::from_str(id),
            input_url: String::from_str(input_url),
            output_directory,
            output_file_name,
            status: TaskStatus::Queued,
            previous_status: TaskStatus::Queued,
            stage: String::from_str("队列中"),
            progress_completed: 0,
            progress_total: 0,
            error_summary: None,
            output_path: None,
            working_directory: None,
            logs: VecDeque::new(),
            worker_started: false,
            created_at: String::from_str(now),
            updated_at: String::from_str(now),
            completed_at: None,
            settings,
        }
    }
}

} // verus!

verus! {

/// The log lines stored in a task's log file (`str::lines`).
pub fn log_lines_from_text(text: &str) -> (r: Vec<String>)
    ensures
        views(r@) == lines(text@),
{
    let v = chars_of(text);
    let ls = split_lines(&v);
    let mut r: Vec<String> = Vec::new();
    let mut i: usize = 0;
    while i < ls.len()
        invariant
            i <= ls@.len(),
            ls@.len() == lines(text@).len(),
            forall|k: int| 0 <= k < ls@.len() ==> (#[trigger] ls@[k])@ == lines(text@)[k],
            views(r@) == lines(text@).take(i as int),
            r@.len() == i,
        decreases ls@.len() - i,
    {
        let line = string_of(ls[i].as_slice());
        let ghost before = r@;
        r.push(line);
        proof {
            assert(views(r@).len() == r@.len());
            assert forall|k: int| 0 <= k < r@.len() implies views(r@)[k] == lines(text@).take(i + 1)[k] by {
                if k < i {
                    assert(r@[k] == before[k]);
                    assert(views(before)[k] == before[k]@);
                } else {
                    assert(r@[k] == line);
                }
            }
        }
        i = i + 1;
        assert(views(r@) =~= lines(text@).take(i as int));
    }
    assert(lines(text@).take(ls@.len() as int) =~= lines(text@));
    r
}

/// A restored task is never left active or queued: it is finished, and its worker is
/// not marked as started.
pub proof fn lemma_restored_task_is_finished(
    meta: PersistedTaskMetadata,
    raw_logs: Seq<String>,
    now: Seq<char>,
    r: TaskRecord,
)
    requires
        spec_restored(meta, raw_logs, now, r),
    ensures
        spec_is_terminal(r.status),
        !crate::status::spec_is_active(r.status),
        !r.worker_started,
{
}

/// What is written for a finished task is read back unchanged: the same metadata (a
/// completed task without a completion time takes its last update time) and the same
/// log lines, as long as it had at most `MAX_TASK_LOG_LINES` of them.
pub proof fn lemma_persist_restore_round_trip(
    t: TaskRecord,
    raw_logs: Seq<String>,
    now: Seq<char>,
    r: TaskRecord,
)
    requires
        spec_is_terminal(t.status),
        t.logs@.len() <= MAX_TASK_LOG_LINES,
        views(raw_logs) == views(t.logs@),
        spec_restored(spec_metadata(t), raw_logs, now, r),
    ensures
        spec_metadata(r) == (PersistedTaskMetadata {
            completed_at: if t.status == TaskStatus::Completed && t.completed_at is None {
                Some(t.updated_at)
            } else {
                t.completed_at
            },
            ..spec_metadata(t)
        }),
        views(r.logs@) == views(t.logs@),
        !r.worker_started,
{
    assert(raw_logs.len() == t.logs@.len()) by {
        assert(views(raw_logs).len() == raw_logs.len());
        assert(views(t.logs@).len() == t.logs@.len());
    }
    assert(raw_logs.skip(0) =~= raw_logs);
}

/// A log message never grows a log of at most `MAX_TASK_LOG_LINES` lines beyond that.
pub proof fn lemma_log_stays_bounded(logs: Seq<Seq<char>>, ls: Seq<Seq<char>>)
    requires
        logs.len() <= MAX_TASK_LOG_LINES,
    ensures
        append_lines(logs, ls).len() <= MAX_TASK_LOG_LINES,
    decreases ls.len(),
{
    if ls.len() > 0 {
        lemma_log_stays_bounded(logs, ls.drop_last());
    }
}

} // verus!
