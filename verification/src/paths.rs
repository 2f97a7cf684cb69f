//! Where the application keeps its files, as Unix path strings.
use vstd::prelude::*;
use crate::text::{chars_of, push_all, push_chars, string_of};

verus! {

/// `Path::join` on Unix: an absolute `part` replaces `base`; otherwise a `/` separates
/// them unless `base` is empty or already ends with one.
pub open spec fn spec_join_path(base: Seq<char>, part: Seq<char>) -> Seq<char> {
    if part.len() > 0 && part[0] == '/' {
        part
    } else if base.len() == 0 || base.last() == '/' {
        base + part
    } else {
        base + seq!['/'] + part
    }
}

/// `Path::join` on Unix paths.
pub fn join_path(base: &str, part: &str) -> (r: String)
    ensures
        r@ == spec_join_path(base@, part@),
{
    let b = chars_of(base);
    let p = chars_of(part);
    if p.len() > 0 && p[0] == '/' {
        return string_of(p.as_slice());
    }
    let mut out = b;
    if out.len() > 0 && out[out.len() - 1] != '/' {
        out.push('/');
    }
    push_chars(&mut out, &p);
    string_of(out.as_slice())
}

/// The application's data directory under the home directory (`.` without one).
pub open spec fn spec_app_support_dir(home: Option<Seq<char>>) -> Seq<char> {
    let h = match home {
        Some(h) => h,
        None => "."@,
    };
    spec_join_path(
        spec_join_path(spec_join_path(h, "Library"@), "Application Support"@),
        "StreamWeave"@,
    )
}

/// The application's data directory; `home` is the `HOME` environment variable.
pub fn app_support_dir(home: Option<&str>) -> (r: String)
    ensures
        r@ == spec_app_support_dir(
            match home {
                Some(h) => Some(h@),
                None => None,
            },
        ),
{
    let h = match home {
        Some(h) => String::from_str(h),
        None => String::from_str("."),
    };
    let library = join_path(h.as_str(), "Library");
    let support = join_path(library.as_str(), "Application Support");
    join_path(support.as_str(), "StreamWeave")
}

/// The default output directory: `Downloads` under the home directory.
pub fn default_downloads_dir(home: Option<&str>) -> (r: String)
    ensures
        r@ == spec_join_path(
            match home {
                Some(h) => h@,
                None => "."@,
            },
            "Downloads"@,
        ),
{
    let h = match home {
        Some(h) => String::from_str(h),
        None => String::from_str("."),
    };
    join_path(h.as_str(), "Downloads")
}

/// The browser profile kept between extractions.
pub fn browser_profile_dir(support_dir: &str) -> (r: String)
    ensures
        r@ == spec_join_path(support_dir@, "browser-profile"@),
{
    join_path(support_dir, "browser-profile")
}

/// The parent of the tasks' working directories.
pub fn task_workspace_parent_dir(support_dir: &str) -> (r: String)
    ensures
        r@ == spec_join_path(support_dir@, "tasks"@),
{
    join_path(support_dir, "tasks")
}

/// The task history index.
pub fn task_history_path(support_dir: &str) -> (r: String)
    ensures
        r@ == spec_join_path(support_dir@, "tasks.json"@),
{
    join_path(support_dir, "tasks.json")
}

/// The directory of the tasks' metadata files.
pub fn task_metadata_parent_dir(support_dir: &str) -> (r: String)
    ensures
        r@ == spec_join_path(support_dir@, "task-records"@),
{
    join_path(support_dir, "task-records")
}

/// The directory of the tasks' log files.
pub fn task_log_parent_dir(support_dir: &str) -> (r: String)
    ensures
        r@ == spec_join_path(support_dir@, "task-logs"@),
{
    join_path(support_dir, "task-logs")
}

/// A file-name-safe form of a task id: ASCII letters, digits, `-` and `_` stay, every
/// other character becomes `_`.
pub open spec fn spec_safe_task_file_stem(task_id: Seq<char>) -> Seq<char> {
    task_id.map_values(|c: char| if safe_stem_char(c) { c } else { '_' })
}

pub open spec fn safe_stem_char(c: char) -> bool {
    ('a' <= c && c <= 'z') || ('A' <= c && c <= 'Z') || ('0' <= c && c <= '9') || c == '-' || c
        == '_'
}

pub fn safe_task_file_stem(task_id: &str) -> (r: String)
    ensures
        r@ == spec_safe_task_file_stem(task_id@),
{
    let v = chars_of(task_id);
    let mut out: Vec<char> = Vec::new();
    let mut i: usize = 0;
    while i < v.len()
        invariant
            i <= v.len(),
            out@ == v@.take(i as int).map_values(|c: char| if safe_stem_char(c) { c } else { '_' }),
        decreases v.len() - i,
    {
        let c = v[i];
        let keep = ('a' <= c && c <= 'z') || ('A' <= c && c <= 'Z') || ('0' <= c && c <= '9') || c
            == '-' || c == '_';
        if keep {
            out.push(c);
        } else {
            out.push('_');
        }
        assert(out@ =~= v@.take(i + 1).map_values(
            |c: char| if safe_stem_char(c) { c } else { '_' },
        ));
        i = i + 1;
    }
    assert(v@.take(v.len() as int) =~= v@);
    string_of(out.as_slice())
}

/// The metadata file of a task.
pub fn task_metadata_path(support_dir: &str, task_id: &str) -> (r: String)
    ensures
        r@ == spec_join_path(
            spec_join_path(support_dir@, "task-records"@),
            spec_safe_task_file_stem(task_id@) + ".json"@,
        ),
{
    let parent = task_metadata_parent_dir(support_dir);
    let mut name = chars_of(safe_task_file_stem(task_id).as_str());
    push_all(&mut name, ".json");
    join_path(parent.as_str(), string_of(name.as_slice()).as_str())
}

/// The log file of a task.
pub fn task_log_path(support_dir: &str, task_id: &str) -> (r: String)
    ensures
        r@ == spec_join_path(
            spec_join_path(support_dir@, "task-logs"@),
            spec_safe_task_file_stem(task_id@) + ".log"@,
        ),
{
    let parent = task_log_parent_dir(support_dir);
    let mut name = chars_of(safe_task_file_stem(task_id).as_str());
    push_all(&mut name, ".log");
    join_path(parent.as_str(), string_of(name.as_slice()).as_str())
}

/// `Path::parent` of a path, as a string.
pub uninterp spec fn path_parent(path: Seq<char>) -> Option<Seq<char>>;

/// `Path::file_name` of a path, as a string.
pub uninterp spec fn path_file_name(path: Seq<char>) -> Option<Seq<char>>;

/// `Path::eq`: the two paths have the same components.
pub uninterp spec fn same_path(a: Seq<char>, b: Seq<char>) -> bool;

/// `std::path::Path::parent`.
#[verifier::external_body]
fn parent_of(path: &str) -> (r: Option<String>)
    ensures
        crate::text::opt_view(r) == path_parent(path@),
{
    std::path::Path::new(path).parent().map(|p| p.to_string_lossy().to_string())
}

/// `std::path::Path::file_name`.
#[verifier::external_body]
fn file_name_of(path: &str) -> (r: Option<String>)
    ensures
        crate::text::opt_view(r) == path_file_name(path@),
{
    std::path::Path::new(path).file_name().map(|n| n.to_string_lossy().to_string())
}

/// `==` on `std::path::Path`.
#[verifier::external_body]
fn paths_equal(a: &str, b: &str) -> (r: bool)
    ensures
        r == same_path(a@, b@),
{
    std::path::Path::new(a) == std::path::Path::new(b)
}

/// A directory that holds task working directories: the tasks directory itself, or
/// any directory named `VideoDownloaderTasks`.
pub open spec fn spec_is_task_parent_dir(path: Seq<char>, support_dir: Seq<char>) -> bool {
    same_path(path, spec_join_path(support_dir, "tasks"@)) || path_file_name(path) == Some(
        "VideoDownloaderTasks"@,
    )
}

pub fn is_task_parent_dir(path: &str, support_dir: &str) -> (r: bool)
    ensures
        r == spec_is_task_parent_dir(path@, support_dir@),
{
    let tasks = task_workspace_parent_dir(support_dir);
    if paths_equal(path, tasks.as_str()) {
        return true;
    }
    match file_name_of(path) {
        Some(name) => crate::text::str_eq(name.as_str(), "VideoDownloaderTasks"),
        None => false,
    }
}

/// A task working directory: its parent is a task parent directory. Only such a
/// directory may be deleted with its task.
pub open spec fn spec_is_task_workspace_dir(path: Seq<char>, support_dir: Seq<char>) -> bool {
    match path_parent(path) {
        Some(parent) => spec_is_task_parent_dir(parent, support_dir),
        None => false,
    }
}

pub fn is_task_workspace_dir(path: &str, support_dir: &str) -> (r: bool)
    ensures
        r == spec_is_task_workspace_dir(path@, support_dir@),
{
    match parent_of(path) {
        Some(parent) => is_task_parent_dir(parent.as_str(), support_dir),
        None => false,
    }
}

} // verus!
