//! User settings, worker limits and the browser launch mode.
use vstd::prelude::*;
use crate::text::{clone_opt, str_eq};

verus! {

pub const DEFAULT_CONCURRENT_TASKS: usize = 3;
pub const MIN_CONCURRENT_TASKS: usize = 1;
pub const MAX_CONCURRENT_TASKS: usize = 8;
pub const DEFAULT_DECRYPT_WORKERS: usize = 4;
pub const MIN_DECRYPT_WORKERS: usize = 1;
pub const MAX_DECRYPT_WORKERS: usize = 16;

/// Per-task settings chosen in the settings page.
#[derive(Debug)]
pub struct AppSettings {
    pub browser_mode: Option<String>,
    pub headless_browser: bool,
    pub decrypt_workers: usize,
    pub ffmpeg_path: Option<String>,
    pub ffprobe_path: Option<String>,
    pub aria2c_path: Option<String>,
    pub node_path: Option<String>,
    pub aria2_args: Option<String>,
    pub ffmpeg_args: Option<String>,
}

impl Clone for AppSettings {
    fn clone(&self) -> (r: Self)
        ensures
            r == *self,
    {
        AppSettings {
            browser_mode: clone_opt(&self.browser_mode),
            headless_browser: self.headless_browser,
            decrypt_workers: self.decrypt_workers,
            ffmpeg_path: clone_opt(&self.ffmpeg_path),
            ffprobe_path: clone_opt(&self.ffprobe_path),
            aria2c_path: clone_opt(&self.aria2c_path),
            node_path: clone_opt(&self.node_path),
            aria2_args: clone_opt(&self.aria2_args),
            ffmpeg_args: clone_opt(&self.ffmpeg_args),
        }
    }
}

pub fn default_headless_browser() -> (r: bool)
    ensures
        r == false,
{
    false
}

pub fn default_browser_mode() -> (r: Option<String>)
    ensures
        r matches Some(m) && m@ == "headed"@,
{
    Some(String::from_str("headed"))
}

pub fn default_decrypt_workers() -> (r: usize)
    ensures
        r == DEFAULT_DECRYPT_WORKERS,
{
    DEFAULT_DECRYPT_WORKERS
}

/// The settings used when the user supplied none.
pub open spec fn is_default_settings(s: AppSettings) -> bool {
    &&& s.browser_mode matches Some(m) && m@ == "headed"@
    &&& !s.headless_browser
    &&& s.decrypt_workers == DEFAULT_DECRYPT_WORKERS
    &&& s.ffmpeg_path is None
    &&& s.ffprobe_path is None
    &&& s.aria2c_path is None
    &&& s.node_path is None
    &&& s.aria2_args is None
    &&& s.ffmpeg_args is None
}

impl Default for AppSettings {
    fn default() -> (r: Self)
        ensures
            is_default_settings(r),
    {
        AppSettings {
            browser_mode: default_browser_mode(),
            headless_browser: default_headless_browser(),
            decrypt_workers: default_decrypt_workers(),
            ffmpeg_path: None,
            ffprobe_path: None,
            aria2c_path: None,
            node_path: None,
            aria2_args: None,
            ffmpeg_args: None,
        }
    }
}

/// `x.clamp(lo, hi)`.
pub open spec fn clamp(x: int, lo: int, hi: int) -> int {
    if x < lo {
        lo
    } else if x > hi {
        hi
    } else {
        x
    }
}

/// The number of tasks allowed to run at once for a requested `count`.
pub fn clamp_concurrent_tasks(count: usize) -> (r: usize)
    ensures
        r == clamp(count as int, MIN_CONCURRENT_TASKS as int, MAX_CONCURRENT_TASKS as int),
{
    if count < MIN_CONCURRENT_TASKS {
        MIN_CONCURRENT_TASKS
    } else if count > MAX_CONCURRENT_TASKS {
        MAX_CONCURRENT_TASKS
    } else {
        count
    }
}

/// The number of global decryption slots for a requested `count`.
pub fn clamp_decrypt_workers(count: usize) -> (r: usize)
    ensures
        r == clamp(count as int, MIN_DECRYPT_WORKERS as int, MAX_DECRYPT_WORKERS as int),
{
    if count < MIN_DECRYPT_WORKERS {
        MIN_DECRYPT_WORKERS
    } else if count > MAX_DECRYPT_WORKERS {
        MAX_DECRYPT_WORKERS
    } else {
        count
    }
}

/// The decryption slot limit read back from its stored 64-bit value.
pub fn global_decrypt_worker_limit(stored: u64) -> (r: usize)
    ensures
        r == clamp(stored as int, MIN_DECRYPT_WORKERS as int, MAX_DECRYPT_WORKERS as int),
{
    if stored < 1 {
        MIN_DECRYPT_WORKERS
    } else if stored > 16 {
        MAX_DECRYPT_WORKERS
    } else {
        let r: usize = stored as usize;
        r
    }
}

/// The concurrent task limit read back from its stored 64-bit value.
pub fn concurrent_task_limit(stored: u64) -> (r: usize)
    ensures
        r == clamp(stored as int, MIN_CONCURRENT_TASKS as int, MAX_CONCURRENT_TASKS as int),
{
    if stored < 1 {
        MIN_CONCURRENT_TASKS
    } else if stored > 8 {
        MAX_CONCURRENT_TASKS
    } else {
        let r: usize = stored as usize;
        r
    }
}

/// How the Playwright extraction browser is started.
#[derive(Clone, Copy, Debug, PartialEq, Eq, Structural)]
pub enum BrowserLaunchMode {
    Headless,
    Background,
    Headed,
}

pub open spec fn spec_launch_mode(settings: AppSettings) -> BrowserLaunchMode {
    match settings.browser_mode {
        Some(m) if m@ == "headless"@ => BrowserLaunchMode::Headless,
        Some(m) if m@ == "background"@ => BrowserLaunchMode::Background,
        Some(m) if m@ == "headed"@ => BrowserLaunchMode::Headed,
        _ => if settings.headless_browser {
            BrowserLaunchMode::Headless
        } else {
            BrowserLaunchMode::Background
        },
    }
}

impl BrowserLaunchMode {
    pub fn from_settings(settings: &AppSettings) -> (r: Self)
        ensures
            r == spec_launch_mode(*settings),
    {
        if let Some(m) = &settings.browser_mode {
            if str_eq(m.as_str(), "headless") {
                return BrowserLaunchMode::Headless;
            }
            if str_eq(m.as_str(), "background") {
                return BrowserLaunchMode::Background;
            }
            if str_eq(m.as_str(), "headed") {
                return BrowserLaunchMode::Headed;
            }
        }
        if settings.headless_browser {
            BrowserLaunchMode::Headless
        } else {
            BrowserLaunchMode::Background
        }
    }

    pub open spec fn spec_script_arg(self) -> Seq<char> {
        match self {
            BrowserLaunchMode::Headless => "headless"@,
            BrowserLaunchMode::Background => "background"@,
            BrowserLaunchMode::Headed => "headed"@,
        }
    }

    pub open spec fn spec_label(self) -> Seq<char> {
        match self {
            BrowserLaunchMode::Headless => "无头模式"@,
            BrowserLaunchMode::Background => "后台窗口"@,
            BrowserLaunchMode::Headed => "可见窗口"@,
        }
    }

    pub open spec fn spec_status(self) -> Seq<char> {
        match self {
            BrowserLaunchMode::Headless => "Playwright 无头浏览器已启动"@,
            BrowserLaunchMode::Background => "Playwright 后台浏览器已启动"@,
            BrowserLaunchMode::Headed => "Playwright 浏览器已打开"@,
        }
    }

    /// The mode argument handed to the extraction script.
    pub fn script_arg(self) -> (r: &'static str)
        ensures
            r@ == self.spec_script_arg(),
    {
        match self {
            BrowserLaunchMode::Headless => "headless",
            BrowserLaunchMode::Background => "background",
            BrowserLaunchMode::Headed => "headed",
        }
    }

    pub fn label(self) -> (r: &'static str)
        ensures
            r@ == self.spec_label(),
    {
        match self {
            BrowserLaunchMode::Headless => "无头模式",
            BrowserLaunchMode::Background => "后台窗口",
            BrowserLaunchMode::Headed => "可见窗口",
        }
    }

    pub fn status(self) -> (r: &'static str)
        ensures
            r@ == self.spec_status(),
    {
        match self {
            BrowserLaunchMode::Headless => "Playwright 无头浏览器已启动",
            BrowserLaunchMode::Background => "Playwright 后台浏览器已启动",
            BrowserLaunchMode::Headed => "Playwright 浏览器已打开",
        }
    }
}

} // verus!
