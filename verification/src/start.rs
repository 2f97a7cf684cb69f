//! Starting a download: checking the address, naming the task, choosing the settings
//! and the output directory, and whether a page must be searched for a playlist.
use vstd::prelude::*;
use crate::candidates::{lowercase, to_lowercase};
use crate::settings::{clamp, clamp_decrypt_workers, is_default_settings, AppSettings, MAX_DECRYPT_WORKERS, MIN_DECRYPT_WORKERS};
use crate::text::{chars_of, contains, contains_chars, decimal, decimal_chars, opt_view, push_chars, string_of, trim, trim_chars};
use crate::urls::{url_parse, WebUrl};

verus! {

/// The address a user typed: trimmed, it must not be empty and must parse as a URL.
pub open spec fn input_check_holds(r: Result<(String, WebUrl), String>, input: Seq<char>) -> bool {
    let t = trim(input);
    if t.len() == 0 {
        r matches Err(e) && e@ == "请输入 m3u8 或视频网页 URL。"@
    } else {
        match url_parse(t) {
            None => r matches Err(e) && e@ == "请输入有效 URL。"@,
            Some(u) => r matches Ok((s, w)) && s@ == t && w@ == u,
        }
    }
}

pub fn validate_input_url(input_url: &str) -> (r: Result<(String, WebUrl), String>)
    ensures
        input_check_holds(r, input_url@),
{
    let t = trim_chars(&chars_of(input_url));
    if t.len() == 0 {
        return Err(String::from_str("请输入 m3u8 或视频网页 URL。"));
    }
    let s = string_of(t.as_slice());
    match WebUrl::parse(s.as_str()) {
        Some(url) => Ok((s, url)),
        None => Err(String::from_str("请输入有效 URL。")),
    }
}

/// The id of the task numbered `sequence`: `task-` and the number.
pub fn task_id_for(sequence: u64) -> (r: String)
    ensures
        r@ == "task-"@ + decimal(sequence as nat),
{
    let mut v = chars_of("task-");
    push_chars(&mut v, &decimal_chars(sequence));
    string_of(v.as_slice())
}

/// The settings a new task keeps (the defaults where none were given), and the
/// decrypt worker limit they set for all tasks (clamped to its bounds).
pub fn start_settings(settings: Option<AppSettings>) -> (r: (AppSettings, usize))
    ensures
        match settings {
            Some(s) => r.0 == s,
            None => is_default_settings(r.0),
        },
        r.1 as int == clamp(r.0.decrypt_workers as int, MIN_DECRYPT_WORKERS as int, MAX_DECRYPT_WORKERS as int),
{
    let s = match settings {
        Some(s) => s,
        None => AppSettings::default(),
    };
    let workers = clamp_decrypt_workers(s.decrypt_workers);
    (s, workers)
}

/// An address whose lower-case form names a playlist is downloaded directly; any other
/// is a page to search.
pub fn is_direct_playlist_input(input: &WebUrl) -> (r: bool)
    ensures
        r == contains(lowercase(input@), ".m3u8"@),
{
    let lower = to_lowercase(input.as_str());
    contains_chars(&chars_of(lower.as_str()), &chars_of(".m3u8"))
}

/// The output directory: the one given unless it is blank, else the default.
pub fn output_directory_choice(output_directory: Option<String>, default_dir: String) -> (r: String)
    ensures
        match output_directory {
            Some(d) => if trim(d@).len() > 0 {
                r@ == d@
            } else {
                r@ == default_dir@
            },
            None => r@ == default_dir@,
        },
{
    match output_directory {
        Some(d) => {
            if trim_chars(&chars_of(d.as_str())).len() > 0 {
                d
            } else {
                default_dir
            }
        },
        None => default_dir,
    }
}

} // verus!
