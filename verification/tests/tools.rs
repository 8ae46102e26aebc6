use std::io;
use swwws::command_builder::{CommandBuilder, OutputConfig};
use swwws::config::{Angle, OutputConfig as Settings};
use swwws::error::{ProcessError, SwwwError, SwwwsError};
use swwws::executor::{command_config, EnvVar, ProcessExecutor, RunOutcome, SessionEnv};
use swwws::image_discovery::FileProbe;
use swwws::ipc::{IpcClient, IpcServer};
use swwws::parse::{
    find_char, find_line_with, is_space_char, range_contains, read_line_names, trim_range, LineRule,
};
use swwws::paths::{
    config_file_in, config_path, config_path_in, file_name, get_state_file, join_path,
    socket_path, socket_path_in, state_file_in,
};
use swwws::swww::SwwwIntegration;
use swwws::text::{
    clone_texts, contains_text, decimal, decimal_wide, index_of_text, join, join3, reverse,
    same_text, same_texts, signed_decimal, sort_ascending, sort_descending,
};

fn names(list: &[&str]) -> Vec<String> {
    list.iter().map(|n| n.to_string()).collect()
}

fn style() -> OutputConfig {
    OutputConfig {
        path: Some("/w".to_string()),
        mode: Some("ignored".to_string()),
        transition_type: Some("wipe".to_string()),
        transition_step: Some(90),
        transition_angle: Some("45.5".to_string()),
        transition_pos: Some("center".to_string()),
        transition_bezier: Some("0,0,1,1".to_string()),
        transition_fps: Some(60),
        resize: Some("crop".to_string()),
        fill_color: Some("000000".to_string()),
        filter: Some("Lanczos3".to_string()),
        invert_y: Some(true),
        transition_wave: Some("20,20".to_string()),
    }
}

fn bare() -> OutputConfig {
    OutputConfig {
        path: None,
        mode: None,
        transition_type: None,
        transition_step: None,
        transition_angle: None,
        transition_pos: None,
        transition_bezier: None,
        transition_fps: None,
        resize: None,
        fill_color: None,
        filter: None,
        invert_y: None,
        transition_wave: None,
    }
}

const OPTIONS: [&str; 21] = [
    "--transition-type",
    "wipe",
    "--transition-step",
    "90",
    "--transition-angle",
    "45.5",
    "--transition-pos",
    "center",
    "--transition-bezier",
    "0,0,1,1",
    "--transition-fps",
    "60",
    "--resize",
    "crop",
    "--fill-color",
    "000000",
    "-f",
    "Lanczos3",
    "--invert-y",
    "--transition-wave",
    "20,20",
];

#[test]
fn the_builder_puts_the_image_last() {
    let builder = CommandBuilder::new("/usr/bin/swww".to_string());
    let line = builder.build_img_command("/w/a.jpg", &style(), Some("DP-1"));
    assert_eq!(line.program, "/usr/bin/swww");
    let mut expected = names(&["img", "-o", "DP-1"]);
    expected.extend(names(&OPTIONS));
    expected.push("/w/a.jpg".to_string());
    assert_eq!(line.args, expected);
    let line = builder.clone().build_img_command("/w/a.jpg", &bare(), None);
    assert_eq!(line.args, names(&["img", "/w/a.jpg"]));
}

#[test]
fn the_executor_puts_the_image_first() {
    let _ = ProcessExecutor::new(CommandBuilder::new("swww".to_string()));
    let args = ProcessExecutor::img_arguments("/w/a.jpg", &style(), Some("DP-1"));
    let mut expected = names(&["img", "-o", "DP-1", "/w/a.jpg"]);
    expected.extend(names(&OPTIONS));
    assert_eq!(args, expected);
    let mut quiet = bare();
    quiet.invert_y = Some(false);
    quiet.transition_step = Some(0);
    let args = ProcessExecutor::img_arguments("/w/a.jpg", &quiet, None);
    assert_eq!(args, names(&["img", "/w/a.jpg", "--transition-step", "0"]));
    assert_eq!(style().clone().option_arguments(), names(&OPTIONS));
}

#[test]
fn settings_become_options() {
    let settings = Settings {
        path: Some("/w".to_string()),
        transition_step: 300,
        transition_angle: Angle { text: "12.5".to_string(), in_range: true },
        invert_y: true,
        ..Settings::default()
    };
    let options = command_config(&settings);
    assert_eq!(options.path, Some("/w".to_string()));
    assert_eq!(options.mode, None);
    assert_eq!(options.transition_type, Some("wipe".to_string()));
    // the step is cut to eight bits
    assert_eq!(options.transition_step, Some(44));
    assert_eq!(options.transition_angle, Some("12.5".to_string()));
    assert_eq!(options.transition_pos, Some("center".to_string()));
    assert_eq!(options.transition_bezier, Some("0.25,0.1,0.25,1".to_string()));
    assert_eq!(options.transition_fps, None);
    assert_eq!(options.resize, Some("crop".to_string()));
    assert_eq!(options.fill_color, Some("000000".to_string()));
    assert_eq!(options.filter, Some("Lanczos3".to_string()));
    assert_eq!(options.invert_y, Some(true));
    assert_eq!(options.transition_wave, Some("20,20".to_string()));
}

#[test]
fn the_environment_of_the_tool() {
    let session = SessionEnv {
        wayland_display: None,
        xdg_runtime_dir: None,
        xdg_current_desktop: None,
        xdg_session_type: None,
        uid: 1000,
    };
    let vars: Vec<(String, String)> = ProcessExecutor::session_environment(&session)
        .into_iter()
        .map(|v| (v.name, v.value))
        .collect();
    assert_eq!(
        vars,
        vec![
            ("WAYLAND_DISPLAY".to_string(), "wayland-0".to_string()),
            ("XDG_RUNTIME_DIR".to_string(), "/run/user/1000".to_string()),
            ("XDG_SESSION_TYPE".to_string(), "wayland".to_string()),
        ]
    );
    let session = SessionEnv {
        wayland_display: Some("wayland-1".to_string()),
        xdg_runtime_dir: Some("/run/me".to_string()),
        xdg_current_desktop: Some("sway".to_string()),
        xdg_session_type: Some("tty".to_string()),
        uid: 0,
    };
    let vars: Vec<(String, String)> = ProcessExecutor::session_environment(&session)
        .into_iter()
        .map(|v| (v.name, v.value))
        .collect();
    assert_eq!(
        vars,
        vec![
            ("WAYLAND_DISPLAY".to_string(), "wayland-1".to_string()),
            ("XDG_RUNTIME_DIR".to_string(), "/run/me".to_string()),
            ("XDG_CURRENT_DESKTOP".to_string(), "sway".to_string()),
            ("XDG_SESSION_TYPE".to_string(), "tty".to_string()),
        ]
    );
}

fn ran(succeeded: bool, code: Option<i32>, stdout: &str, stderr: &str) -> Result<RunOutcome, io::Error> {
    Ok(RunOutcome { succeeded, code, stdout: stdout.to_string(), stderr: stderr.to_string() })
}

fn not_run() -> Result<RunOutcome, io::Error> {
    Err(io::Error::new(io::ErrorKind::PermissionDenied, "no"))
}

fn bare_session() -> SessionEnv {
    SessionEnv {
        wayland_display: None,
        xdg_runtime_dir: None,
        xdg_current_desktop: None,
        xdg_session_type: None,
        uid: 7,
    }
}

fn env_pairs(env: Vec<EnvVar>) -> Vec<(String, String)> {
    env.into_iter().map(|v| (v.name, v.value)).collect()
}

#[test]
fn the_end_of_a_run() {
    let outcome = ProcessExecutor::checked_run("cmd", ran(true, Some(0), "out", "err")).unwrap();
    assert_eq!(outcome.stdout, "out");
    assert_eq!(outcome.stderr, "err");
    match ProcessExecutor::checked_run("cmd", ran(false, Some(3), "", "bad")) {
        Err(SwwwsError::Process(ProcessError::NonZeroExit { code, stderr })) => {
            assert_eq!(code, 3);
            assert_eq!(stderr, "bad");
        }
        other => panic!("unexpected: {:?}", other),
    }
    match ProcessExecutor::checked_run("cmd", ran(false, None, "", "")) {
        Err(SwwwsError::Process(ProcessError::NonZeroExit { code, .. })) => assert_eq!(code, -1),
        other => panic!("unexpected: {:?}", other),
    }
    match ProcessExecutor::checked_run("cmd --flag", not_run()) {
        Err(SwwwsError::Process(ProcessError::Execution { command, source })) => {
            assert_eq!(command, "cmd --flag");
            assert_eq!(source.kind(), io::ErrorKind::PermissionDenied);
        }
        other => panic!("unexpected: {:?}", other),
    }
    match ProcessExecutor::tool_missing(io::Error::new(io::ErrorKind::NotFound, "swww not in PATH"))
    {
        SwwwsError::Process(ProcessError::Execution { command, source }) => {
            assert_eq!(command, "swww binary not found");
            assert_eq!(source.kind(), io::ErrorKind::NotFound);
        }
        other => panic!("unexpected: {:?}", other),
    }
}

#[test]
fn the_service_is_asked() {
    let query = ProcessExecutor::query_invocation(&bare_session());
    assert_eq!(query.program, "swww");
    assert_eq!(query.args, names(&["query"]));
    assert_eq!(env_pairs(query.env)[1], ("XDG_RUNTIME_DIR".to_string(), "/run/user/7".to_string()));

    assert!(ProcessExecutor::check_swww_daemon(ran(true, Some(0), "", "")).is_ok());
    match ProcessExecutor::check_swww_daemon(ran(false, Some(1), "", "no socket")) {
        Err(SwwwsError::Process(ProcessError::NonZeroExit { code, stderr })) => {
            assert_eq!(code, 1);
            assert_eq!(stderr, "no socket");
        }
        other => panic!("unexpected: {:?}", other),
    }
    match ProcessExecutor::check_swww_daemon(not_run()) {
        Err(SwwwsError::Process(ProcessError::Execution { command, .. })) => {
            assert_eq!(command, "swww query")
        }
        other => panic!("unexpected: {:?}", other),
    }
    assert_eq!(
        ProcessExecutor::get_swww_outputs(ran(true, Some(0), "DP-1: x\nDP-2: y\n", "")).unwrap(),
        names(&["DP-1", "DP-2"])
    );
    assert!(ProcessExecutor::get_swww_outputs(ran(false, Some(1), "DP-1: x\n", "")).is_err());
    assert!(ProcessExecutor::get_swww_outputs(not_run()).is_err());
}

#[test]
fn a_run_is_prepared() {
    let executor = ProcessExecutor::new(CommandBuilder::new("swww".to_string()));
    let image = |path: &str, header: &[u8]| FileProbe {
        path: path.to_string(),
        exists: true,
        is_file: true,
        extension: Some("png".to_string()),
        header: Ok(header.to_vec()),
    };
    let png = [0x89, 0x50, 0x4E, 0x47];
    let run = executor
        .execute_swww_command(
            image("/w/a.png", &png),
            Some("/usr/bin/swww".to_string()),
            &bare(),
            Some("DP-1"),
            &bare_session(),
        )
        .unwrap();
    assert_eq!(run.program, "/usr/bin/swww");
    assert_eq!(run.args, names(&["img", "-o", "DP-1", "/w/a.png"]));
    assert_eq!(env_pairs(run.env).len(), 3);
    // the image is looked at before the tool
    match executor.execute_swww_command(image("/w/a.png", b"text"), None, &bare(), None, &bare_session()) {
        Err(SwwwsError::ImageDiscovery(_)) => {}
        other => panic!("unexpected: {:?}", other),
    }
    match executor.execute_swww_command(image("/w/a.png", &png), None, &bare(), None, &bare_session()) {
        Err(SwwwsError::Process(ProcessError::Execution { command, source })) => {
            assert_eq!(command, "swww binary not found");
            assert_eq!(source.kind(), io::ErrorKind::NotFound);
            assert_eq!(source.to_string(), "swww not in PATH");
        }
        other => panic!("unexpected: {:?}", other),
    }
}

#[test]
fn outputs_before_the_colon() {
    let stdout = "HDMI-A-1: 1920x1080, scale: 1, currently displaying: image: /a.jpg\n  DP-2 : 2560x1440\r\nno colon here\n: empty name\n\nDP-3:";
    assert_eq!(ProcessExecutor::parse_swww_outputs(stdout), names(&["HDMI-A-1", "DP-2", "DP-3"]));
    assert_eq!(ProcessExecutor::parse_swww_outputs("eDP-1: x\n"), names(&["eDP-1"]));
    // where nothing is named, three usual names stand in
    assert_eq!(ProcessExecutor::parse_swww_outputs(""), names(&["HDMI-A-1", "DP-2", "DP-3"]));
    assert_eq!(
        ProcessExecutor::parse_swww_outputs("nothing\n \t :x\n"),
        names(&["HDMI-A-1", "DP-2", "DP-3"])
    );
}

#[test]
fn outputs_after_the_colon() {
    let stdout = ": HDMI-A-1: 1920x1080, scale: 1\nDP-9: not this\n:  DP-2 \n:DP-3: no blank\n: : empty\n: last";
    assert_eq!(SwwwIntegration::parse_available_outputs(stdout), names(&["HDMI-A-1", "DP-2", "last"]));
    let tool = SwwwIntegration::new(Some("swww".to_string())).unwrap();
    assert_eq!(tool.get_available_outputs(ran(true, Some(0), ": A: 1\n", "")).unwrap(), names(&["A"]));
    assert!(tool.get_available_outputs(ran(true, None, "", "")).unwrap().is_empty());
    match tool.get_available_outputs(ran(false, Some(1), ": A: 1\n", "")) {
        Err(SwwwsError::Swww(SwwwError::Process { message })) => {
            assert_eq!(message, "swww query failed")
        }
        other => panic!("unexpected: {:?}", other),
    }
    match tool.get_available_outputs(not_run()) {
        Err(SwwwsError::Swww(SwwwError::Process { message })) => {
            assert_eq!(message, "Failed to execute swww query")
        }
        other => panic!("unexpected: {:?}", other),
    }
    assert!(tool.check_daemon_running(ran(true, Some(0), "", "")).unwrap());
    assert!(!tool.check_daemon_running(ran(false, Some(1), "", "")).unwrap());
    assert!(tool.check_daemon_running(not_run()).is_err());
}

#[test]
fn the_tool_where_it_was_found() {
    let tool = SwwwIntegration::new(Some("/usr/bin/swww".to_string())).unwrap();
    assert_eq!(tool.get_swww_path(), "/usr/bin/swww");
    match SwwwIntegration::new(None) {
        Err(SwwwsError::Swww(SwwwError::Process { message })) => {
            assert_eq!(message, "swww not found in PATH")
        }
        other => panic!("unexpected: {:?}", other),
    }
}

#[test]
fn scanning() {
    assert_eq!(find_char("a:b:c", 0, ':'), 1);
    assert_eq!(find_char("a:b:c", 2, ':'), 3);
    assert_eq!(find_char("a:b:c", 4, ':'), 5);
    assert_eq!(find_char("", 0, ':'), 0);
    assert_eq!(find_char("\u{e9}\u{e9}:x", 0, ':'), 2);
    assert_eq!(trim_range("  a b \t\n", 0, 8), "a b");
    assert_eq!(trim_range("  a b \t\n", 3, 5), "b");
    assert_eq!(trim_range("\u{a0}\u{3000}x\u{2003}\u{85}", 0, 5), "x");
    assert_eq!(trim_range("   ", 0, 3), "");
    assert_eq!(trim_range("\u{200b}x", 0, 2), "\u{200b}x");
    for c in ['\t', '\n', '\u{b}', '\u{c}', '\r', ' ', '\u{85}', '\u{a0}', '\u{1680}', '\u{2000}',
        '\u{200a}', '\u{2028}', '\u{2029}', '\u{202f}', '\u{205f}', '\u{3000}']
    {
        assert!(is_space_char(c), "{:?}", c);
        assert!(c.is_whitespace());
    }
    for c in ['a', '\u{8}', '\u{e}', '\u{200b}', '\u{180e}', '\u{feff}', '0'] {
        assert!(!is_space_char(c), "{:?}", c);
        assert!(!c.is_whitespace());
    }
    assert_eq!(read_line_names(LineRule::BeforeColon, "a:1\nb:2"), names(&["a", "b"]));
    assert_eq!(read_line_names(LineRule::AfterColon, ": a:1\n: b"), names(&["a", "b"]));
}

#[test]
fn searching() {
    assert!(range_contains("hello world", 0, 11, "lo w"));
    assert!(range_contains("hello world", 0, 11, ""));
    assert!(range_contains("hello world", 0, 11, "hello world"));
    assert!(!range_contains("hello world", 0, 11, "hello world!"));
    assert!(!range_contains("hello world", 0, 5, "lo w"));
    assert!(range_contains("hello world", 6, 11, "world"));
    assert!(!range_contains("hello world", 7, 11, "world"));
    assert!(range_contains("", 0, 0, ""));
    assert!(!range_contains("", 0, 0, "a"));
    assert_eq!(find_line_with("ab\ncd\nce", "c"), Some((3, 5)));
    assert_eq!(find_line_with("ab\ncd\nce", "e"), Some((6, 8)));
    assert_eq!(find_line_with("ab\ncd\n", "x"), None);
    assert_eq!(find_line_with("ab\n\ncd", ""), Some((0, 2)));
    assert_eq!(find_line_with("", ""), None);
    assert_eq!(find_line_with("a\nb", "a\nb"), None);
}

#[test]
fn paths_of_the_user() {
    assert_eq!(join_path("/run/user/1000", "swwws.sock"), "/run/user/1000/swwws.sock");
    assert_eq!(join_path("/run/user/1000/", "swwws.sock"), "/run/user/1000/swwws.sock");
    assert_eq!(join_path("", "swwws.sock"), "swwws.sock");
    assert_eq!(join_path("/", "x"), "/x");
    assert_eq!(socket_path_in(Some("/run/user/1".to_string())), "/run/user/1/swwws.sock");
    assert_eq!(socket_path_in(None), "/tmp/swwws.sock");
    assert_eq!(state_file_in(Some("/home/a/.local/state".to_string())), "/home/a/.local/state/swwws/state.json");
    assert_eq!(state_file_in(None), "/tmp/swwws/state.json");
    assert_eq!(config_file_in("/home/a/.config"), "/home/a/.config/swwws/config.toml");
    assert_eq!(
        config_path_in(Some("/home/a/.config/".to_string())),
        Some("/home/a/.config/swwws/config.toml".to_string())
    );
    assert_eq!(config_path_in(None), None);
    assert!(socket_path().ends_with("/swwws.sock"));
    assert!(get_state_file().ends_with("/swwws/state.json"));
    if let Some(path) = config_path() {
        assert!(path.ends_with("/swwws/config.toml"));
    }
    assert!(IpcClient::new().socket_path().ends_with("swwws.sock"));
    assert!(IpcServer::new().socket_path().ends_with("swwws.sock"));
}

#[test]
fn the_last_part_of_a_path() {
    assert_eq!(file_name("/walls/sub/a.jpg"), "a.jpg");
    assert_eq!(file_name("a.jpg"), "a.jpg");
    assert_eq!(file_name("/walls/sub/"), "sub");
    assert_eq!(file_name("/walls/.."), "/walls/..");
    assert_eq!(file_name("/"), "/");
    assert_eq!(file_name(""), "");
}

#[test]
fn texts() {
    assert_eq!(join("ab", "cd"), "abcd");
    assert_eq!(join3("a", "", "c"), "ac");
    assert!(same_text("x", "x"));
    assert!(!same_text("x", "X"));
    assert_eq!(decimal(0), "0");
    assert_eq!(decimal(9), "9");
    assert_eq!(decimal(10), "10");
    assert_eq!(decimal(1234567890), "1234567890");
    assert_eq!(decimal(u64::MAX), "18446744073709551615");
    assert_eq!(decimal_wide(u128::MAX), u128::MAX.to_string());
    assert_eq!(signed_decimal(0), "0");
    assert_eq!(signed_decimal(-1), "-1");
    assert_eq!(signed_decimal(i64::MIN), "-9223372036854775808");
    assert_eq!(signed_decimal(i64::MAX), "9223372036854775807");
    let list = names(&["b", "a", "b"]);
    assert!(contains_text(&list, "a"));
    assert!(!contains_text(&list, "c"));
    assert_eq!(index_of_text(&list, "b"), Some(0));
    assert_eq!(index_of_text(&list, "a"), Some(1));
    assert_eq!(index_of_text(&list, "ab"), None);
    assert_eq!(clone_texts(&list), list);
    assert!(same_texts(&list, &names(&["b", "a", "b"])));
    assert!(!same_texts(&list, &names(&["b", "a"])));
    assert!(!same_texts(&list, &names(&["b", "a", "c"])));
    let mut sorted = list.clone();
    sort_ascending(&mut sorted);
    assert_eq!(sorted, names(&["a", "b", "b"]));
    let mut sorted = names(&["a", "c", "b", "ab", ""]);
    sort_descending(&mut sorted);
    assert_eq!(sorted, names(&["c", "b", "ab", "a", ""]));
    let mut turned = names(&["1", "2", "3"]);
    reverse(&mut turned);
    assert_eq!(turned, names(&["3", "2", "1"]));
}
