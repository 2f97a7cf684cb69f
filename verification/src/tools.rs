//! Finding the external tools: a configured path, the usual install places, then
//! `which`. The file-system checks and `which` are the caller's; the decisions are here.
use vstd::prelude::*;
use crate::settings::AppSettings;
use crate::text::{chars_of, opt_view, push_all, string_of, trim, trim_chars};

verus! {

/// What the caller does next while a tool is looked for.
pub enum ToolAction {
    /// Check whether this path exists and report it with `exists_result`.
    CheckExists(String),
    /// Run `/usr/bin/which` with the tool's name and report it with `which_result`.
    RunWhich(String),
    /// The tool is at this path.
    Found(String),
    /// The tool cannot be used; the message says why.
    Failed(String),
}

/// The view of an action.
pub enum ToolActionView {
    CheckExists(Seq<char>),
    RunWhich(Seq<char>),
    Found(Seq<char>),
    Failed(Seq<char>),
}

pub open spec fn action_view(a: ToolAction) -> ToolActionView {
    match a {
        ToolAction::CheckExists(p) => ToolActionView::CheckExists(p@),
        ToolAction::RunWhich(n) => ToolActionView::RunWhich(n@),
        ToolAction::Found(p) => ToolActionView::Found(p@),
        ToolAction::Failed(m) => ToolActionView::Failed(m@),
    }
}

/// The usual install places of a tool, in the order they are tried.
pub open spec fn tool_candidates(name: Seq<char>) -> Seq<Seq<char>> {
    seq![
        "/usr/local/bin/"@ + name,
        "/opt/homebrew/bin/"@ + name,
        "/usr/bin/"@ + name,
        "/bin/"@ + name,
    ]
}

/// A configured tool path: trimmed; none where the setting is missing or blank.
pub open spec fn spec_override_path(setting: Option<Seq<char>>) -> Option<Seq<char>> {
    match setting {
        Some(p) => if trim(p).len() > 0 {
            Some(trim(p))
        } else {
            None
        },
        None => None,
    }
}

/// The message when a configured path does not exist.
pub open spec fn missing_override_message(name: Seq<char>, path: Seq<char>) -> Seq<char> {
    "配置的 "@ + name + " 路径不存在："@ + path
}

/// The message when a tool is nowhere to be found.
pub open spec fn not_found_message(name: Seq<char>) -> Seq<char> {
    "未找到 "@ + name + "，请先安装：brew install ffmpeg aria2"@
}

/// The search for one tool.
pub struct ToolSearch {
    pub name: String,
    pub override_path: Option<String>,
    pub candidates: Vec<String>,
    pub next: usize,
}

pub open spec fn search_view_ok(s: ToolSearch) -> bool {
    &&& s.candidates@.len() == 4
    &&& crate::text::views(s.candidates@) == tool_candidates(s.name@)
    &&& s.next < 4
}

fn candidate_paths(name: &str) -> (r: Vec<String>)
    ensures
        r@.len() == 4,
        crate::text::views(r@) == tool_candidates(name@),
{
    let mut r: Vec<String> = Vec::new();
    r.push(crate::text::concat("/usr/local/bin/", name));
    r.push(crate::text::concat("/opt/homebrew/bin/", name));
    r.push(crate::text::concat("/usr/bin/", name));
    r.push(crate::text::concat("/bin/", name));
    assert(crate::text::views(r@) =~= tool_candidates(name@));
    r
}

/// The trimmed configured path, if any.
pub fn override_path(setting: Option<&str>) -> (r: Option<String>)
    ensures
        opt_view(r) == spec_override_path(
            match setting {
                Some(s) => Some(s@),
                None => None,
            },
        ),
{
    match setting {
        Some(p) => {
            let t = trim_chars(&chars_of(p));
            if t.len() > 0 {
                Some(string_of(t.as_slice()))
            } else {
                None
            }
        },
        None => None,
    }
}

/// The action after learning whether the checked path exists.
pub open spec fn search_exists_view(s: ToolSearch, exists: bool) -> ToolActionView {
    match opt_view(s.override_path) {
        Some(p) => if exists {
            ToolActionView::Found(p)
        } else {
            ToolActionView::Failed(missing_override_message(s.name@, p))
        },
        None => if exists {
            ToolActionView::Found(tool_candidates(s.name@)[s.next as int])
        } else if s.next + 1 < 4 {
            ToolActionView::CheckExists(tool_candidates(s.name@)[s.next + 1])
        } else {
            ToolActionView::RunWhich(s.name@)
        },
    }
}

/// The action after `which` ran (or failed to start).
pub open spec fn search_which_view(name: Seq<char>, outcome: Result<(bool, String), String>) -> ToolActionView {
    match outcome {
        Err(e) => ToolActionView::Failed(e@),
        Ok((success, out)) => if success && trim(out@).len() > 0 {
            ToolActionView::Found(trim(out@))
        } else {
            ToolActionView::Failed(not_found_message(name))
        },
    }
}

impl ToolSearch {
    /// Starts looking for `name`: the configured path if there is one, else the first
    /// usual place.
    pub fn new(name: &str, setting: Option<&str>) -> (r: (ToolSearch, ToolAction))
        ensures
            search_view_ok(r.0),
            r.0.name@ == name@,
            r.0.next == 0,
            opt_view(r.0.override_path) == spec_override_path(
                match setting {
                    Some(s) => Some(s@),
                    None => None,
                },
            ),
            action_view(r.1) == match spec_override_path(
                match setting {
                    Some(s) => Some(s@),
                    None => None,
                },
            ) {
                Some(p) => ToolActionView::CheckExists(p),
                None => ToolActionView::CheckExists(tool_candidates(name@)[0]),
            },
    {
        let over = override_path(setting);
        let candidates = candidate_paths(name);
        let action = match &over {
            Some(p) => ToolAction::CheckExists(p.clone()),
            None => ToolAction::CheckExists(candidates[0].clone()),
        };
        (ToolSearch { name: String::from_str(name), override_path: over, candidates, next: 0 }, action)
    }

    /// Takes whether the checked path exists: a configured path is used or refused; a
    /// usual place is used, or the next one is checked, or `which` is asked.
    pub fn exists_result(&mut self, exists: bool) -> (r: ToolAction)
        requires
            search_view_ok(*old(self)),
        ensures
            search_view_ok(*final(self)),
            final(self).name == old(self).name,
            final(self).override_path == old(self).override_path,
            action_view(r) == search_exists_view(*old(self), exists),
            opt_view(old(self).override_path) is None && !exists && old(self).next + 1 < 4
                ==> final(self).next == old(self).next + 1,
    {
        match &self.override_path {
            Some(p) => {
                if exists {
                    ToolAction::Found(p.clone())
                } else {
                    let mut m = chars_of("配置的 ");
                    push_all(&mut m, self.name.as_str());
                    push_all(&mut m, " 路径不存在：");
                    push_all(&mut m, p.as_str());
                    ToolAction::Failed(string_of(m.as_slice()))
                }
            },
            None => {
                if exists {
                    ToolAction::Found(self.candidates[self.next].clone())
                } else if self.next + 1 < 4 {
                    self.next = self.next + 1;
                    ToolAction::CheckExists(self.candidates[self.next].clone())
                } else {
                    ToolAction::RunWhich(self.name.clone())
                }
            },
        }
    }

    /// Takes the outcome of `which`: a start failure's message, or whether it exited
    /// successfully and what it printed.
    pub fn which_result(&self, outcome: Result<(bool, String), String>) -> (r: ToolAction)
        ensures
            action_view(r) == search_which_view(self.name@, outcome),
    {
        match outcome {
            Err(e) => ToolAction::Failed(e),
            Ok((success, out)) => {
                let t = trim_chars(&chars_of(out.as_str()));
                if success && t.len() > 0 {
                    ToolAction::Found(string_of(t.as_slice()))
                } else {
                    let mut m = chars_of("未找到 ");
                    push_all(&mut m, self.name.as_str());
                    push_all(&mut m, "，请先安装：brew install ffmpeg aria2");
                    ToolAction::Failed(string_of(m.as_slice()))
                }
            },
        }
    }
}

/// Starts looking for a tool with an optional configured path: a configured path that
/// is not blank is the only place checked; otherwise the usual places, then `which`.
/// The search goes on with `ToolSearch::exists_result` and `ToolSearch::which_result`.
pub fn find_tool_with_override(name: &str, override_path: Option<&str>) -> (r: (ToolSearch, ToolAction))
    ensures
        search_view_ok(r.0),
        r.0.name@ == name@,
        r.0.next == 0,
        opt_view(r.0.override_path) == spec_override_path(
            match override_path {
                Some(s) => Some(s@),
                None => None,
            },
        ),
        action_view(r.1) == match spec_override_path(
            match override_path {
                Some(s) => Some(s@),
                None => None,
            },
        ) {
            Some(p) => ToolActionView::CheckExists(p),
            None => ToolActionView::CheckExists(tool_candidates(name@)[0]),
        },
{
    ToolSearch::new(name, override_path)
}

/// The state of a tool for the tools page.
pub struct ToolCheckItem {
    pub name: String,
    pub path: Option<String>,
    pub ok: bool,
    pub message: String,
}

/// A found tool is shown with its path as available; a missing one with the configured
/// path as it was typed and the reason.
pub fn tool_check_item(name: &str, override_path: Option<&str>, found: Result<String, String>) -> (r: ToolCheckItem)
    ensures
        r.name@ == name@,
        match found {
            Ok(p) => r.ok && opt_view(r.path) == Some(p@) && r.message@ == "可用"@,
            Err(m) => !r.ok && opt_view(r.path) == (match override_path {
                Some(s) => Some(s@),
                None => None,
            }) && r.message@ == m@,
        },
{
    match found {
        Ok(path) => ToolCheckItem {
            name: String::from_str(name),
            path: Some(path),
            ok: true,
            message: String::from_str("可用"),
        },
        Err(message) => ToolCheckItem {
            name: String::from_str(name),
            path: match override_path {
                Some(p) => Some(String::from_str(p)),
                None => None,
            },
            ok: false,
            message,
        },
    }
}

/// The paths of the three tools a download needs.
pub struct Tools {
    pub ffmpeg: String,
    pub ffprobe: String,
    pub aria2c: String,
}

/// What the caller does next while the download tools are looked for.
pub enum ToolsStep {
    /// Carry out this action (a check or `which`) for the current tool.
    Act(ToolAction),
    /// All three were found, or the first that was not ends the check.
    Done(Result<Tools, String>),
}

/// The search for ffmpeg, ffprobe and aria2c, in this order; the first that cannot be
/// found ends it.
pub struct ToolsCheck {
    pub stage: usize,
    pub search: ToolSearch,
    pub found: Vec<String>,
    pub ffprobe_setting: Option<String>,
    pub aria2c_setting: Option<String>,
}

/// The tool looked for at each stage.
pub open spec fn stage_tool(stage: nat) -> Seq<char> {
    if stage == 0 {
        "ffmpeg"@
    } else if stage == 1 {
        "ffprobe"@
    } else {
        "aria2c"@
    }
}

pub open spec fn tools_check_ok(c: ToolsCheck) -> bool {
    &&& c.stage < 3
    &&& c.found@.len() == c.stage
    &&& search_view_ok(c.search)
    &&& c.search.name@ == stage_tool(c.stage as nat)
}

/// Starts the search for the download tools with the configured paths.
pub fn check_tools(settings: &AppSettings) -> (r: (ToolsCheck, ToolAction))
    ensures
        tools_check_ok(r.0),
        r.0.stage == 0,
        opt_view(r.0.search.override_path) == spec_override_path(opt_view(settings.ffmpeg_path)),
        r.0.ffprobe_setting == settings.ffprobe_path,
        r.0.aria2c_setting == settings.aria2c_path,
        action_view(r.1) == match spec_override_path(opt_view(settings.ffmpeg_path)) {
            Some(p) => ToolActionView::CheckExists(p),
            None => ToolActionView::CheckExists(tool_candidates("ffmpeg"@)[0]),
        },
{
    let setting = match &settings.ffmpeg_path {
        Some(p) => Some(p.as_str()),
        None => None,
    };
    let (search, action) = ToolSearch::new("ffmpeg", setting);
    (
        ToolsCheck {
            stage: 0,
            search,
            found: Vec::new(),
            ffprobe_setting: crate::text::clone_opt(&settings.ffprobe_path),
            aria2c_setting: crate::text::clone_opt(&settings.aria2c_path),
        },
        action,
    )
}

/// How a tool action moves the check on: a found tool starts the next search (or ends
/// the check with all three), a failure ends it, anything else is passed through.
pub open spec fn tools_step_holds(old: ToolsCheck, new: ToolsCheck, a: ToolActionView, r: ToolsStep) -> bool {
    match a {
        ToolActionView::Failed(m) => r matches ToolsStep::Done(Err(e)) && e@ == m,
        ToolActionView::Found(p) => if old.stage == 2 {
            r matches ToolsStep::Done(Ok(t)) && t.ffmpeg@ == old.found@[0]@ && t.ffprobe@ == old.found@[1]@
                && t.aria2c@ == p
        } else {
            &&& new.stage == old.stage + 1
            &&& crate::text::views(new.found@) == crate::text::views(old.found@).push(p)
            &&& opt_view(new.search.override_path) == spec_override_path(
                opt_view(if old.stage == 0 { old.ffprobe_setting } else { old.aria2c_setting }),
            )
            &&& r matches ToolsStep::Act(na) && action_view(na) == match spec_override_path(
                opt_view(if old.stage == 0 { old.ffprobe_setting } else { old.aria2c_setting }),
            ) {
                Some(q) => ToolActionView::CheckExists(q),
                None => ToolActionView::CheckExists(tool_candidates(stage_tool((old.stage + 1) as nat))[0]),
            }
        },
        _ => r matches ToolsStep::Act(na) && action_view(na) == a && new.stage == old.stage
            && new.found == old.found,
    }
}

fn opt_str(o: &Option<String>) -> (r: Option<&str>)
    ensures
        match r {
            Some(s) => opt_view(*o) == Some(s@),
            None => o is None,
        },
{
    match o {
        Some(s) => Some(s.as_str()),
        None => None,
    }
}

impl ToolsCheck {
    fn advance(&mut self, a: ToolAction) -> (r: ToolsStep)
        requires
            tools_check_ok(*old(self)),
        ensures
            tools_step_holds(*old(self), *final(self), action_view(a), r),
            tools_check_ok(*final(self)) || r is Done,
            final(self).ffprobe_setting == old(self).ffprobe_setting,
            final(self).aria2c_setting == old(self).aria2c_setting,
    {
        match a {
            ToolAction::Failed(m) => ToolsStep::Done(Err(m)),
            ToolAction::Found(p) => {
                if self.stage == 2 {
                    let tools = Tools {
                        ffmpeg: self.found[0].clone(),
                        ffprobe: self.found[1].clone(),
                        aria2c: p,
                    };
                    ToolsStep::Done(Ok(tools))
                } else {
                    let ghost before = self.found@;
                    let pv = p.clone();
                    self.found.push(p);
                    assert(crate::text::views(self.found@) =~= crate::text::views(before).push(pv@));
                    let (search, action) = if self.stage == 0 {
                        ToolSearch::new("ffprobe", opt_str(&self.ffprobe_setting))
                    } else {
                        ToolSearch::new("aria2c", opt_str(&self.aria2c_setting))
                    };
                    self.search = search;
                    self.stage = self.stage + 1;
                    ToolsStep::Act(action)
                }
            },
            other => ToolsStep::Act(other),
        }
    }

    /// Takes whether the checked path of the current tool exists.
    pub fn exists_result(&mut self, exists: bool) -> (r: ToolsStep)
        requires
            tools_check_ok(*old(self)),
        ensures
            tools_check_ok(*final(self)) || r is Done,
            tools_step_holds(*old(self), *final(self), search_exists_view(old(self).search, exists), r),
    {
        let a = self.search.exists_result(exists);
        self.advance(a)
    }

    /// Takes the outcome of `which` for the current tool.
    pub fn which_result(&mut self, outcome: Result<(bool, String), String>) -> (r: ToolsStep)
        requires
            tools_check_ok(*old(self)),
        ensures
            tools_check_ok(*final(self)) || r is Done,
            tools_step_holds(*old(self), *final(self), search_which_view(old(self).search.name@, outcome), r),
    {
        let a = self.search.which_result(outcome);
        self.advance(a)
    }
}

} // verus!
