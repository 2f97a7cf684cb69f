//! Outcomes of external commands: exit codes, failure and install messages, download
//! progress read from aria2's output, and the folder chooser.
use vstd::prelude::*;
use crate::messages::{
    command_tail, escape_applescript_string, recent_lines_summary, spec_command_tail,
    spec_escape_applescript_string, spec_recent_lines_summary,
};
use crate::text::{
    chars_of, contains, contains_chars, decimal, decimal_chars, opt_view, push_all, string_of,
    trim, trim_chars, views,
};

verus! {

/// An integer in decimal, with a minus sign when negative.
pub open spec fn signed_decimal(c: int) -> Seq<char> {
    if c < 0 {
        "-"@ + decimal((-c) as nat)
    } else {
        decimal(c as nat)
    }
}

/// `{:?}` of an optional exit code: `Some(1)` or `None`.
pub open spec fn exit_code_text(code: Option<i32>) -> Seq<char> {
    match code {
        Some(c) => "Some("@ + signed_decimal(c as int) + ")"@,
        None => "None"@,
    }
}

pub fn exit_code_debug(code: Option<i32>) -> (r: String)
    ensures
        r@ == exit_code_text(code),
{
    match code {
        Some(c) => {
            let mut v = chars_of("Some(");
            let wide = c as i64;
            if wide < 0 {
                push_all(&mut v, "-");
                let digits = decimal_chars((-wide) as u64);
                crate::text::push_chars(&mut v, &digits);
            } else {
                let digits = decimal_chars(wide as u64);
                crate::text::push_chars(&mut v, &digits);
            }
            push_all(&mut v, ")");
            string_of(v.as_slice())
        },
        None => String::from_str("None"),
    }
}

/// Why a tool run failed: the program, its exit code and its last output lines.
pub open spec fn spec_command_failure_message(executable: Seq<char>, code: Option<i32>, recent: Seq<Seq<char>>) -> Seq<char> {
    "命令执行失败："@ + executable + "，退出码 "@ + exit_code_text(code) + "。"@
        + spec_recent_lines_summary(recent)
}

pub fn command_failure_message(
    executable: &str,
    code: Option<i32>,
    recent_output: &std::collections::VecDeque<String>,
) -> (r: String)
    ensures
        r@ == spec_command_failure_message(executable@, code, views(recent_output@)),
{
    let mut v = chars_of("命令执行失败：");
    push_all(&mut v, executable);
    push_all(&mut v, "，退出码 ");
    push_all(&mut v, exit_code_debug(code).as_str());
    push_all(&mut v, "。");
    push_all(&mut v, recent_lines_summary(recent_output).as_str());
    string_of(v.as_slice())
}

/// The outcome of a Homebrew install: the success message, with the last output lines
/// where there were any; or the exit code and the last output lines.
pub open spec fn spec_install_outcome(
    success: bool,
    code: Option<i32>,
    success_message: Seq<char>,
    recent: Seq<Seq<char>>,
) -> Result<Seq<char>, Seq<char>> {
    if success {
        if recent.len() == 0 {
            Ok(success_message)
        } else {
            Ok(success_message + " "@ + spec_recent_lines_summary(recent))
        }
    } else {
        Err("安装失败，退出码 "@ + exit_code_text(code) + "。"@ + spec_recent_lines_summary(recent))
    }
}

pub fn install_outcome(
    success: bool,
    code: Option<i32>,
    success_message: &str,
    recent_output: &std::collections::VecDeque<String>,
) -> (r: Result<String, String>)
    ensures
        match r {
            Ok(m) => spec_install_outcome(success, code, success_message@, views(recent_output@))
                == Ok::<Seq<char>, Seq<char>>(m@),
            Err(m) => spec_install_outcome(success, code, success_message@, views(recent_output@))
                == Err::<Seq<char>, Seq<char>>(m@),
        },
{
    if success {
        if recent_output.len() == 0 {
            Ok(String::from_str(success_message))
        } else {
            let mut v = chars_of(success_message);
            push_all(&mut v, " ");
            push_all(&mut v, recent_lines_summary(recent_output).as_str());
            Ok(string_of(v.as_slice()))
        }
    } else {
        let mut v = chars_of("安装失败，退出码 ");
        push_all(&mut v, exit_code_debug(code).as_str());
        push_all(&mut v, "。");
        push_all(&mut v, recent_lines_summary(recent_output).as_str());
        Err(string_of(v.as_slice()))
    }
}

/// The command line shown before an install: `$ brew install formula`.
pub fn install_command_line(brew: &str, formula: &str) -> (r: String)
    ensures
        r@ == "$ "@ + brew@ + " install "@ + formula@,
{
    let mut v = chars_of("$ ");
    push_all(&mut v, brew);
    push_all(&mut v, " install ");
    push_all(&mut v, formula);
    string_of(v.as_slice())
}

/// Whether an aria2c output line reports a finished segment.
pub fn completion_line(line: &str) -> (r: bool)
    ensures
        r == contains(line@, "Download complete:"@),
{
    contains_chars(&chars_of(line), &chars_of("Download complete:"))
}

/// Segments counted as downloaded after a line of aria2 output: one more for each
/// `Download complete:` line, never more than the total.
pub open spec fn spec_count_completed(completed: nat, total: nat, line: Seq<char>) -> nat {
    if contains(line, "Download complete:"@) {
        let next = if completed + 1 > usize::MAX {
            usize::MAX as nat
        } else {
            completed + 1
        };
        if next < total {
            next
        } else {
            total
        }
    } else {
        completed
    }
}

pub fn count_completed(completed: usize, total: usize, line: &str) -> (r: usize)
    ensures
        r == spec_count_completed(completed as nat, total as nat, line@),
{
    if completion_line(line) {
        let next = completed.saturating_add(1);
        if next < total {
            next
        } else {
            total
        }
    } else {
        completed
    }
}

/// The message when Finder cannot reveal a path.
pub fn finder_failure_message(code: Option<i32>) -> (r: String)
    ensures
        r@ == "Finder 显示失败，退出码 "@ + exit_code_text(code) + "。"@,
{
    let mut v = chars_of("Finder 显示失败，退出码 ");
    push_all(&mut v, exit_code_debug(code).as_str());
    push_all(&mut v, "。");
    string_of(v.as_slice())
}

/// The message when a file cannot be opened.
pub fn open_failure_message(code: Option<i32>) -> (r: String)
    ensures
        r@ == "打开文件失败，退出码 "@ + exit_code_text(code) + "。"@,
{
    let mut v = chars_of("打开文件失败，退出码 ");
    push_all(&mut v, exit_code_debug(code).as_str());
    push_all(&mut v, "。");
    string_of(v.as_slice())
}

/// The folder the chooser starts in, from the current setting: trimmed, none where it
/// is missing or blank (the caller also checks that it is an existing directory).
pub fn chooser_start_directory(current_directory: Option<&str>) -> (r: Option<String>)
    ensures
        opt_view(r) == crate::tools::spec_override_path(
            match current_directory {
                Some(s) => Some(s@),
                None => None,
            },
        ),
{
    crate::tools::override_path(current_directory)
}

/// The prompt of the folder chooser.
pub open spec fn chooser_prompt() -> Seq<char> {
    "选择下载目录"@
}

/// The AppleScript that asks for a folder, starting in `start` where given.
pub open spec fn spec_select_directory_script(start: Option<Seq<char>>) -> Seq<char> {
    match start {
        Some(dir) => "POSIX path of (choose folder with prompt \""@ + spec_escape_applescript_string(
            chooser_prompt(),
        ) + "\" default location POSIX file \""@ + spec_escape_applescript_string(dir) + "\")"@,
        None => "POSIX path of (choose folder with prompt \""@ + spec_escape_applescript_string(
            chooser_prompt(),
        ) + "\")"@,
    }
}

pub fn select_directory_script(start: Option<&str>) -> (r: String)
    ensures
        r@ == spec_select_directory_script(
            match start {
                Some(s) => Some(s@),
                None => None,
            },
        ),
{
    let prompt = escape_applescript_string("选择下载目录");
    let mut v = chars_of("POSIX path of (choose folder with prompt \"");
    push_all(&mut v, prompt.as_str());
    match start {
        Some(dir) => {
            push_all(&mut v, "\" default location POSIX file \"");
            push_all(&mut v, escape_applescript_string(dir).as_str());
            push_all(&mut v, "\")");
        },
        None => {
            push_all(&mut v, "\")");
        },
    }
    string_of(v.as_slice())
}

/// What the folder chooser's run means: the chosen path (none if empty); cancelling is
/// no error; any other failure is, with the end of its error output.
pub open spec fn spec_directory_choice(success: bool, stdout: Seq<char>, stderr: Seq<char>) -> Result<Option<Seq<char>>, Seq<char>> {
    if success {
        if trim(stdout).len() == 0 {
            Ok(None)
        } else {
            Ok(Some(trim(stdout)))
        }
    } else if contains(stderr, "User canceled"@) || contains(stderr, "-128"@) {
        Ok(None)
    } else {
        Err("选择目录失败。"@ + spec_command_tail(stderr))
    }
}

pub fn directory_choice(success: bool, stdout: &str, stderr: &str) -> (r: Result<Option<String>, String>)
    ensures
        match r {
            Ok(p) => spec_directory_choice(success, stdout@, stderr@) == Ok::<Option<Seq<char>>, Seq<char>>(opt_view(p)),
            Err(e) => spec_directory_choice(success, stdout@, stderr@) == Err::<Option<Seq<char>>, Seq<char>>(e@),
        },
{
    if success {
        let t = trim_chars(&chars_of(stdout));
        if t.len() == 0 {
            return Ok(None);
        }
        return Ok(Some(string_of(t.as_slice())));
    }
    let e = chars_of(stderr);
    if contains_chars(&e, &chars_of("User canceled")) || contains_chars(&e, &chars_of("-128")) {
        return Ok(None);
    }
    Err(crate::text::concat("选择目录失败。", command_tail(stderr).as_str()))
}

} // verus!
