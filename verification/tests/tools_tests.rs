use streamweave::process::{
    chooser_start_directory, command_failure_message, completion_line, count_completed, directory_choice,
    exit_code_debug, finder_failure_message, install_command_line, install_outcome,
    open_failure_message, select_directory_script,
};
use streamweave::settings::AppSettings;
use streamweave::tools::{check_tools, tool_check_item, ToolAction, ToolSearch, ToolsStep};
use std::collections::VecDeque;

#[test]
fn configured_tool_paths() {
    let (mut s, a) = ToolSearch::new("ffmpeg", Some("  /opt/ff/ffmpeg  "));
    assert!(matches!(a, ToolAction::CheckExists(ref p) if p == "/opt/ff/ffmpeg"));
    assert!(matches!(s.exists_result(true), ToolAction::Found(ref p) if p == "/opt/ff/ffmpeg"));
    match s.exists_result(false) {
        ToolAction::Failed(m) => assert_eq!(m, "配置的 ffmpeg 路径不存在：/opt/ff/ffmpeg"),
        _ => panic!("missing configured path fails"),
    }
}

#[test]
fn searching_usual_places() {
    let (mut s, a) = ToolSearch::new("aria2c", Some("   "));
    assert!(matches!(a, ToolAction::CheckExists(ref p) if p == "/usr/local/bin/aria2c"));
    assert!(matches!(s.exists_result(false), ToolAction::CheckExists(ref p) if p == "/opt/homebrew/bin/aria2c"));
    assert!(matches!(s.exists_result(false), ToolAction::CheckExists(ref p) if p == "/usr/bin/aria2c"));
    assert!(matches!(s.exists_result(true), ToolAction::Found(ref p) if p == "/usr/bin/aria2c"));
    assert!(matches!(s.exists_result(false), ToolAction::CheckExists(ref p) if p == "/bin/aria2c"));
    assert!(matches!(s.exists_result(false), ToolAction::RunWhich(ref n) if n == "aria2c"));
    assert!(matches!(s.which_result(Ok((true, " /x/aria2c\n".to_string()))), ToolAction::Found(ref p) if p == "/x/aria2c"));
    match s.which_result(Ok((false, String::new()))) {
        ToolAction::Failed(m) => assert_eq!(m, "未找到 aria2c，请先安装：brew install ffmpeg aria2"),
        _ => panic!("not found"),
    }
    assert!(matches!(s.which_result(Err("spawn failed".to_string())), ToolAction::Failed(ref m) if m == "spawn failed"));
}

#[test]
fn tool_items() {
    let ok = tool_check_item("node", Some(" /n "), Ok("/usr/bin/node".to_string()));
    assert!(ok.ok);
    assert_eq!(ok.path.as_deref(), Some("/usr/bin/node"));
    assert_eq!(ok.message, "可用");
    let bad = tool_check_item("node", Some(" /n "), Err("配置的 node 路径不存在：/n".to_string()));
    assert!(!bad.ok);
    assert_eq!(bad.path.as_deref(), Some(" /n "));
    assert_eq!(bad.message, "配置的 node 路径不存在：/n");
}

#[test]
fn download_tools_in_order() {
    let settings = AppSettings { ffprobe_path: Some("/cfg/ffprobe".to_string()), ..AppSettings::default() };
    let (mut check, first) = check_tools(&settings);
    assert!(matches!(first, ToolAction::CheckExists(ref p) if p == "/usr/local/bin/ffmpeg"));
    match check.exists_result(true) {
        ToolsStep::Act(ToolAction::CheckExists(p)) => assert_eq!(p, "/cfg/ffprobe"),
        _ => panic!("ffprobe comes next"),
    }
    match check.exists_result(true) {
        ToolsStep::Act(ToolAction::CheckExists(p)) => assert_eq!(p, "/usr/local/bin/aria2c"),
        _ => panic!("aria2c comes next"),
    }
    match check.exists_result(true) {
        ToolsStep::Done(Ok(tools)) => {
            assert_eq!(tools.ffmpeg, "/usr/local/bin/ffmpeg");
            assert_eq!(tools.ffprobe, "/cfg/ffprobe");
            assert_eq!(tools.aria2c, "/usr/local/bin/aria2c");
        }
        _ => panic!("all found"),
    }
    let (mut check, _) = check_tools(&settings);
    check.exists_result(true);
    match check.exists_result(false) {
        ToolsStep::Done(Err(m)) => assert_eq!(m, "配置的 ffprobe 路径不存在：/cfg/ffprobe"),
        _ => panic!("first failure ends the check"),
    }
}

#[test]
fn command_messages() {
    assert_eq!(exit_code_debug(Some(1)), "Some(1)");
    assert_eq!(exit_code_debug(Some(-9)), "Some(-9)");
    assert_eq!(exit_code_debug(Some(i32::MIN)), format!("{:?}", Some(i32::MIN)));
    assert_eq!(exit_code_debug(None), "None");
    let mut recent = VecDeque::new();
    recent.push_back("boom".to_string());
    assert_eq!(
        command_failure_message("/usr/bin/ffmpeg", Some(1), &recent),
        "命令执行失败：/usr/bin/ffmpeg，退出码 Some(1)。最后输出：boom"
    );
    assert_eq!(install_command_line("/opt/homebrew/bin/brew", "aria2"), "$ /opt/homebrew/bin/brew install aria2");
    assert_eq!(install_outcome(true, Some(0), "ok", &VecDeque::new()).unwrap(), "ok");
    assert_eq!(install_outcome(true, Some(0), "ok", &recent).unwrap(), "ok 最后输出：boom");
    assert_eq!(
        install_outcome(false, None, "ok", &recent).unwrap_err(),
        "安装失败，退出码 None。最后输出：boom"
    );
    assert_eq!(finder_failure_message(Some(2)), "Finder 显示失败，退出码 Some(2)。");
    assert_eq!(open_failure_message(None), "打开文件失败，退出码 None。");
}

#[test]
fn download_progress() {
    assert_eq!(count_completed(0, 3, "[#1 Download complete: /a]"), 1);
    assert_eq!(count_completed(3, 3, "Download complete: x"), 3);
    assert!(completion_line("[#1 Download complete: /a]"));
    assert!(!completion_line("[DL:1MiB]"));
    assert_eq!(count_completed(1, 3, "other"), 1);
    assert_eq!(count_completed(usize::MAX, usize::MAX, "Download complete:"), usize::MAX);
}

#[test]
fn folder_chooser() {
    assert_eq!(chooser_start_directory(Some("  /Users/me  ")).as_deref(), Some("/Users/me"));
    assert_eq!(chooser_start_directory(Some("  ")), None);
    assert_eq!(
        select_directory_script(None),
        "POSIX path of (choose folder with prompt \"选择下载目录\")"
    );
    assert_eq!(
        select_directory_script(Some("/Users/me/\"x\"")),
        "POSIX path of (choose folder with prompt \"选择下载目录\" default location POSIX file \"/Users/me/\\\"x\\\"\")"
    );
    assert_eq!(directory_choice(true, " /Users/me/Movies/\n", "").unwrap().as_deref(), Some("/Users/me/Movies/"));
    assert_eq!(directory_choice(true, "  ", "").unwrap(), None);
    assert_eq!(directory_choice(false, "", "execution error: User canceled. (-128)").unwrap(), None);
    assert_eq!(directory_choice(false, "", "bad\n").unwrap_err(), "选择目录失败。错误输出：bad");
}
