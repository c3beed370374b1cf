use repo_auto_puller::doctor::{
    command_probe, doctor_check, doctor_service, is_issue, render_doctor, CheckReport,
    CommandProbe, ConfigFinding, ServiceStep,
};
use repo_auto_puller::effective::EffectiveReport;
use repo_auto_puller::escape::{
    escape_applescript_text, escape_html, escape_xml, quote_systemd_arg, quote_windows_arg,
};
use repo_auto_puller::outcome::CommandOutcome;
use repo_auto_puller::command::CommandStep;
use repo_auto_puller::repo::{PathProbe, Snapshot};
use repo_auto_puller::service::{
    build_program_args, install_service, judge_service_command, launchd_domain,
    launchd_plist_path, load_launchd_service, render_launchd_plist, render_systemd_service,
    render_windows_command_script, service_binary_path, systemd_unit_path,
    uninstall_launchd_service, uninstall_service, windows_task_script_path, InstallServiceArgs,
    OnFailure, ServiceAction,
};
use repo_auto_puller::config::{RepositoryConfig, Seconds};
use repo_auto_puller::settings::{NotificationSettings, SelectedRepo};
use repo_auto_puller::status::{
    build_managed_repos, check_config, render_status, Found, RepoFinding, StatusEntry, StatusOutput,
};

fn exited(success: bool, stdout: &str, stderr: &str) -> CommandOutcome {
    CommandOutcome::Exited {
        success,
        status: "exit status: 3".into(),
        stdout: stdout.as_bytes().to_vec(),
        stderr: stderr.as_bytes().to_vec(),
    }
}

fn not_started() -> CommandOutcome {
    CommandOutcome::NotStarted { reason: "no such file".into() }
}

fn shown(actions: &[ServiceAction]) -> Vec<String> {
    let mut lines = Vec::new();
    for action in actions {
        lines.push(match action {
            ServiceAction::CreateParent { path } => format!("mkdir {}", path),
            ServiceAction::Write { path, .. } => format!("write {}", path),
            ServiceAction::Say { line } => line.clone(),
            ServiceAction::Run { command, what, on_failure } => format!(
                "{} {} | {} | {:?}",
                command.program,
                command.args.join(" "),
                what,
                on_failure
            ),
            ServiceAction::Remove { path, removed, missing } => {
                format!("remove {} | {} | {}", path, removed, missing)
            }
            ServiceAction::LoadLaunchd => "load".to_string(),
            ServiceAction::UnloadLaunchd => "unload".to_string(),
        });
    }
    lines
}

#[test]
fn escapes_applescript_text() {
    assert_eq!(
        escape_applescript_text("repo \"main\" \\ updated"),
        "repo \\\"main\\\" \\\\ updated"
    );
}

#[test]
fn escapes_markup() {
    assert_eq!(escape_xml("<a b='c' d=\"e\">&amp;"), "&lt;a b=&apos;c&apos; d=&quot;e&quot;&gt;&amp;amp;");
    assert_eq!(escape_html("<a b='c' d=\"e\">&"), "&lt;a b='c' d=&quot;e&quot;&gt;&amp;");
    assert_eq!(escape_html("plain \u{e9}"), "plain \u{e9}");
}

#[test]
fn quotes_systemd_args_with_spaces() {
    assert_eq!(
        quote_systemd_arg("/tmp/path with spaces"),
        "\"/tmp/path with spaces\""
    );
    assert_eq!(quote_systemd_arg("/tmp/plain"), "/tmp/plain");
}

#[test]
fn quotes_systemd_args_with_quotes() {
    assert_eq!(quote_systemd_arg("a\"b"), "\"a\\\"b\"");
    assert_eq!(quote_systemd_arg("C:\\x"), "\"C:\\\\x\"");
    assert_eq!(quote_systemd_arg("a\u{a0}b"), "\"a\u{a0}b\"");
    assert_eq!(quote_systemd_arg(""), "");
}

#[test]
fn builds_program_args_with_repo_filters() {
    let args = build_program_args(
        "/tmp/repo-auto-puller",
        "/tmp/config.toml",
        &["openclawcode".into(), "docs".into()],
    );

    assert_eq!(
        args,
        vec![
            "/tmp/repo-auto-puller",
            "--config",
            "/tmp/config.toml",
            "--repo",
            "openclawcode",
            "--repo",
            "docs",
        ]
    );
}

#[test]
fn renders_systemd_service_with_quoted_exec_start() {
    let service = render_systemd_service(&[
        "/tmp/repo auto puller".into(),
        "--config".into(),
        "/tmp/config with spaces.toml".into(),
    ]);

    assert!(service.contains(
        "ExecStart=\"/tmp/repo auto puller\" --config \"/tmp/config with spaces.toml\""
    ));
}

#[test]
fn renders_the_whole_systemd_service() {
    assert_eq!(
        render_systemd_service(&["/bin/x".into()]),
        "[Unit]\nDescription=Repo Auto Puller\nAfter=network-online.target\nWants=network-online.target\n\n[Service]\nType=simple\nExecStart=/bin/x\nRestart=always\nRestartSec=10\n\n[Install]\nWantedBy=default.target\n"
    );
}

#[test]
fn renders_launchd_plist_with_repo_filters() {
    let plist = render_launchd_plist(
        "repo-auto-puller",
        &[
            "/tmp/repo-auto-puller".into(),
            "--config".into(),
            "/tmp/config.toml".into(),
            "--repo".into(),
            "openclawcode".into(),
        ],
    );

    assert!(plist.contains("<string>repo-auto-puller</string>"));
    assert!(plist.contains("<string>/tmp/repo-auto-puller</string>"));
    assert!(plist.contains("<string>openclawcode</string>"));
    assert!(plist.contains("<key>KeepAlive</key>"));
}

#[test]
fn renders_the_whole_launchd_plist() {
    assert_eq!(
        render_launchd_plist("a&b", &["/bin/x".into(), "<y>".into()]),
        "<?xml version=\"1.0\" encoding=\"UTF-8\"?>\n<!DOCTYPE plist PUBLIC \"-//Apple//DTD PLIST 1.0//EN\" \"https://www.apple.com/DTDs/PropertyList-1.0.dtd\">\n<plist version=\"1.0\">\n<dict>\n  <key>Label</key>\n  <string>a&amp;b</string>\n  <key>ProgramArguments</key>\n  <array>\n    <string>/bin/x</string>\n    <string>&lt;y&gt;</string>\n  </array>\n  <key>RunAtLoad</key>\n  <true/>\n  <key>KeepAlive</key>\n  <true/>\n</dict>\n</plist>\n"
    );
}

#[test]
fn builds_systemd_unit_path_from_service_name() {
    let path = systemd_unit_path("repo-auto-puller", Some("/home/u"));
    let path = std::path::Path::new(&path);
    assert!(path.ends_with(".config/systemd/user/repo-auto-puller.service"));
}

#[test]
fn builds_launchd_plist_path_from_service_name() {
    let path = launchd_plist_path("repo-auto-puller", Some("/Users/u"));
    let path = std::path::Path::new(&path);
    assert!(path.ends_with("Library/LaunchAgents/repo-auto-puller.plist"));
}

#[test]
fn quotes_windows_args_with_spaces() {
    assert_eq!(
        quote_windows_arg("C:/Program Files/repo-auto-puller.exe"),
        "\"C:/Program Files/repo-auto-puller.exe\""
    );
    assert_eq!(quote_windows_arg("plain"), "plain");
}

#[test]
fn quotes_windows_args_with_quotes() {
    assert_eq!(quote_windows_arg(""), "\"\"");
    assert_eq!(quote_windows_arg("a\"b"), "\"a\"\"b\"");
    assert_eq!(quote_windows_arg("C:\\x"), "C:\\x");
}

#[test]
fn renders_windows_command_script_with_crlf() {
    let script = render_windows_command_script(&[
        "C:/Program Files/repo-auto-puller.exe".into(),
        "--config".into(),
        "C:/Users/test/AppData/Roaming/repo-auto-puller/config.toml".into(),
    ]);

    assert!(script.starts_with("@echo off\r\n"));
    assert!(script.contains("\"C:/Program Files/repo-auto-puller.exe\""));
    assert!(script.ends_with("\r\n"));
}

#[test]
fn builds_windows_task_script_path_from_service_name() {
    let path = windows_task_script_path("repo-auto-puller", None, Some("/home/u"));
    assert!(path.contains("repo-auto-puller"));
    assert!(path.ends_with("repo-auto-puller.cmd"));
}

#[test]
fn prefers_the_directory_for_application_data() {
    assert_eq!(
        windows_task_script_path("s", Some("/data"), Some("/home/u")),
        "/data/repo-auto-puller/s.cmd"
    );
    assert_eq!(
        windows_task_script_path("s", None, Some("/home/u")),
        "/home/u/AppData/Roaming/repo-auto-puller/s.cmd"
    );
    assert_eq!(
        windows_task_script_path("s", None, None),
        "~/AppData/Roaming/repo-auto-puller/s.cmd"
    );
    assert_eq!(service_binary_path(Some("~/x"), "linux", Some("/home/u")), "/home/u/x");
    assert_eq!(
        service_binary_path(None, "linux", Some("/home/u")),
        "/home/u/.local/bin/repo-auto-puller"
    );
}

fn install_args(enable: bool, start: bool) -> InstallServiceArgs {
    InstallServiceArgs {
        service_name: "svc".into(),
        binary: Some("/bin/rap".into()),
        repo: vec!["tool".into()],
        enable,
        start,
    }
}

#[test]
fn installs_a_systemd_service() {
    let home = Some("/home/u");
    let file = "/home/u/.config/systemd/user/svc.service";
    let (path, actions) = install_service("~/c.toml", &install_args(true, true), "linux", None, home)
        .expect("it can be installed");
    assert_eq!(path, file);
    assert_eq!(
        shown(&actions),
        vec![
            "mkdir /home/u/.config/systemd/user/svc.service",
            "write /home/u/.config/systemd/user/svc.service",
            "Wrote systemd service file: /home/u/.config/systemd/user/svc.service",
            "systemctl --user daemon-reload | systemctl --user daemon-reload | Fail",
            "systemctl --user enable svc.service | systemctl --user enable svc.service | Fail",
            "systemctl --user start svc.service | systemctl --user start svc.service | Fail",
        ]
    );
    match &actions[1] {
        ServiceAction::Write { text, .. } => {
            assert!(text.contains("ExecStart=/bin/rap --config /home/u/c.toml --repo tool\n"))
        }
        _ => panic!("the file is written second"),
    }
    let (_, actions) = install_service("c.toml", &install_args(false, false), "linux", None, home)
        .expect("it can be installed");
    assert_eq!(actions.len(), 3);
}

#[test]
fn installs_a_launchd_service() {
    let (path, actions) =
        install_service("c.toml", &install_args(true, false), "macos", None, Some("/Users/u"))
            .expect("it can be installed");
    assert_eq!(path, "/Users/u/Library/LaunchAgents/svc.plist");
    assert_eq!(shown(&actions)[3], "load");
    assert_eq!(
        shown(&load_launchd_service("svc", "/f.plist", "gui/501", true, true)),
        vec![
            "launchctl bootout gui/501/svc | launchctl bootout gui/501/svc | Ignore",
            "launchctl bootout gui/501 /f.plist | launchctl bootout gui/501 /f.plist | Ignore",
            "launchctl bootstrap gui/501 /f.plist | launchctl bootstrap gui/501 /f.plist | Fail",
            "launchctl enable gui/501/svc | launchctl enable gui/501/svc | Fail",
            "launchctl kickstart -k gui/501/svc | launchctl kickstart -k gui/501/svc | Fail",
        ]
    );
}

#[test]
fn installs_a_windows_task() {
    let (_, actions) =
        install_service("c.toml", &install_args(false, true), "windows", Some("/data"), None)
            .expect("it can be installed");
    assert_eq!(
        shown(&actions),
        vec![
            "mkdir /data/repo-auto-puller/svc.cmd",
            "write /data/repo-auto-puller/svc.cmd",
            "Wrote Windows task launcher: /data/repo-auto-puller/svc.cmd",
            "schtasks /Create /TN svc /SC ONLOGON /RL LIMITED /TR /data/repo-auto-puller/svc.cmd /F | schtasks create task svc | FailInDetail",
            "schtasks /Change /TN svc /DISABLE | schtasks disable task svc | FailInDetail",
            "schtasks /Run /TN svc | schtasks run task svc | FailInDetail",
        ]
    );
}

#[test]
fn uninstalls_services() {
    let (_, actions) =
        uninstall_service("svc", "linux", None, Some("/home/u")).expect("it can be removed");
    assert_eq!(
        shown(&actions),
        vec![
            "systemctl --user stop svc.service | systemctl --user stop svc.service | Warn",
            "systemctl --user disable svc.service | systemctl --user disable svc.service | Warn",
            "remove /home/u/.config/systemd/user/svc.service | Removed systemd service file: /home/u/.config/systemd/user/svc.service | No systemd service file found at /home/u/.config/systemd/user/svc.service",
            "systemctl --user daemon-reload | systemctl --user daemon-reload | Warn",
            "systemctl --user reset-failed svc.service | systemctl --user reset-failed svc.service | Warn",
        ]
    );
    let (_, actions) = uninstall_service("svc", "macos", None, None).expect("it can be removed");
    assert_eq!(shown(&actions), vec!["unload"]);
    assert_eq!(
        shown(&uninstall_launchd_service("svc", "/f", "gui/1")),
        vec![
            "launchctl bootout gui/1/svc | launchctl bootout gui/1/svc | Warn",
            "launchctl bootout gui/1 /f | launchctl bootout gui/1 /f | Warn",
            "launchctl disable gui/1/svc | launchctl disable gui/1/svc | Warn",
            "remove /f | Removed launchd plist: /f | No launchd plist found at /f",
        ]
    );
    let (_, actions) =
        uninstall_service("svc", "windows", Some("/d"), None).expect("it can be removed");
    assert_eq!(
        shown(&actions)[0],
        "schtasks /Delete /TN svc /F | schtasks delete task svc | Warn"
    );
}

#[test]
fn refuses_services_without_name_or_system() {
    let mut args = install_args(false, false);
    let error = install_service("c", &args, "plan9", None, None).expect_err("not supported");
    assert_eq!(error, "install-service is not supported on this operating system: plan9");
    args.service_name = " ".into();
    let error = install_service("c", &args, "linux", None, None).expect_err("no name");
    assert_eq!(error, "--service-name must not be empty");
    let error = uninstall_service("svc", "plan9", None, None).expect_err("not supported");
    assert_eq!(error, "uninstall-service is not supported on this operating system: plan9");
}

fn judged(on_failure: OnFailure, outcome: &CommandOutcome) -> String {
    match judge_service_command("do it", on_failure, outcome) {
        CommandStep::Done => "done".to_string(),
        CommandStep::Warn(message) => message,
        CommandStep::Failed(message) => format!("error: {}", message),
        CommandStep::Run(_) => panic!("nothing is to be run"),
    }
}

#[test]
fn judges_service_commands() {
    let silent = exited(false, "", "");
    assert_eq!(judged(OnFailure::Fail, &exited(true, "", "")), "done");
    assert_eq!(judged(OnFailure::Ignore, &silent), "done");
    assert_eq!(judged(OnFailure::Ignore, &not_started()), "done");
    assert_eq!(
        judged(OnFailure::Warn, &not_started()),
        "warning: failed to execute do it: no such file"
    );
    assert_eq!(
        judged(OnFailure::Warn, &silent),
        "warning: do it failed: command returned non-zero exit status"
    );
    assert_eq!(judged(OnFailure::Warn, &exited(false, "o", "e")), "warning: do it failed: e");
    assert_eq!(judged(OnFailure::Fail, &not_started()), "error: failed to execute do it");
    assert_eq!(judged(OnFailure::Fail, &exited(false, "o", "")), "error: do it failed: ");
    assert_eq!(judged(OnFailure::FailInDetail, &exited(false, "o", "")), "error: do it failed: o");
    assert_eq!(
        judged(OnFailure::FailInDetail, &silent),
        "error: do it failed: do it exited with status exit status: 3"
    );
}

#[test]
fn finds_the_launchd_domain() {
    assert_eq!(launchd_domain(&exited(true, "501\n", "")).expect("a number"), "gui/501");
    let error = |outcome: CommandOutcome| launchd_domain(&outcome).expect_err("no number");
    assert_eq!(error(not_started()), "failed to execute id -u");
    assert_eq!(error(exited(false, "", "no")), "id -u failed: no");
    assert_eq!(error(exited(true, " ", "")), "id -u returned an empty uid");
}

#[test]
fn command_probe_success_uses_stdout() {
    let probe = CommandProbe {
        ok: true,
        detail: "active".into(),
    };
    assert!(probe.ok);
    assert_eq!(probe.detail, "active");
    let probe = command_probe("systemctl", &exited(true, "active\n", "noise"));
    assert!(probe.ok);
    assert_eq!(probe.detail, "active");
}

#[test]
fn command_probe_tells_what_went_wrong() {
    let detail = |outcome: CommandOutcome| command_probe("tool", &outcome).detail;
    assert_eq!(detail(exited(true, "", "x")), "ok");
    assert_eq!(detail(exited(false, "out", "err")), "err");
    assert_eq!(detail(exited(false, "out", "")), "out");
    assert_eq!(detail(exited(false, "", "")), "tool exited with status exit status: 3");
    assert_eq!(detail(not_started()), "failed to execute tool: no such file");
    assert!(!command_probe("tool", &not_started()).ok);
}

fn diagnosis(os: &str, defined: bool, outcomes: &[CommandOutcome]) -> CheckReport {
    match doctor_service(os, "svc", "/f", defined, outcomes) {
        ServiceStep::Done(report) => report,
        ServiceStep::Run(command) => panic!("{} is to be run", command.program),
    }
}

#[test]
fn diagnoses_services() {
    match doctor_service("linux", "svc", "/f", true, &[]) {
        ServiceStep::Run(command) => {
            assert_eq!(command.args, vec!["--user", "is-enabled", "svc.service"])
        }
        ServiceStep::Done(_) => panic!("something is to be run"),
    }
    let good = [exited(true, "enabled", ""), exited(true, "active", "")];
    let report = diagnosis("linux", true, &good);
    assert!(!report.issues);
    assert_eq!(
        report.lines,
        vec![
            "Service:",
            "  manager: systemd --user",
            "  definition: ok (/f)",
            "  enabled: ok (enabled)",
            "  active: ok (active)",
        ]
    );
    assert!(diagnosis("linux", false, &good).issues);
    let report = diagnosis("macos", true, &[exited(false, "", "no")]);
    assert!(report.issues);
    assert_eq!(report.lines[3], "  loaded: issue (id -u failed: no)");
    match doctor_service("macos", "svc", "/f", true, &[exited(true, "7", "")]) {
        ServiceStep::Run(command) => assert_eq!(command.args, vec!["print", "gui/7/svc"]),
        ServiceStep::Done(_) => panic!("something is to be run"),
    }
    assert!(!diagnosis("macos", true, &[exited(true, "7", ""), exited(true, "", "")]).issues);
    let report = diagnosis("windows", true, &[exited(true, "svc Ready", "")]);
    assert_eq!(report.lines[3], "  registered: ok (svc Ready)");
    let report = diagnosis("plan9", true, &[]);
    assert!(report.issues);
    assert_eq!(
        report.lines[2],
        "  manager: issue (doctor does not support service diagnostics on plan9)"
    );
}

fn probed(blocks: bool) -> RepoFinding {
    RepoFinding {
        name: "tool".into(),
        path: "/home/u/tool".into(),
        path_exists: true,
        found: Found::Probed {
            repo_path: "/src/tool".into(),
            snapshot: Snapshot {
                branch: "main".into(),
                upstream: "origin/main".into(),
                remote: "origin".into(),
                remote_branch: "main".into(),
                ahead: 10,
                behind: 0,
                dirty: true,
            },
            effective: EffectiveReport {
                decision: "ahead-only".into(),
                message: "main is ahead".into(),
                level: "WARN",
                blocks_auto_pull: blocks,
            },
        },
    }
}

fn broken() -> RepoFinding {
    RepoFinding {
        name: "docs".into(),
        path: "/docs".into(),
        path_exists: true,
        found: Found::NotProbed { repo_path: "/docs".into(), error: "no network".into() },
    }
}

fn absent() -> RepoFinding {
    RepoFinding {
        name: "gone".into(),
        path: "/gone".into(),
        path_exists: false,
        found: Found::NotInitialized { error: "failed to resolve repo path /gone".into() },
    }
}

fn service(issues: bool) -> CheckReport {
    CheckReport { lines: vec!["Service:".into()], issues }
}

#[test]
fn diagnoses_an_installation() {
    let config = ConfigFinding::Readable { enabled: 1, repos: vec![probed(false)] };
    let report = render_doctor("/c.toml", true, &service(false), &config);
    assert!(report.healthy);
    assert_eq!(
        report.lines,
        vec![
            "Doctor",
            "Config:",
            "  path: ok (/c.toml)",
            "  parse: ok (1 enabled repositories)",
            "",
            "Service:",
            "",
            "Repositories:",
            "Repository: tool",
            "  path: ok (/home/u/tool)",
            "  init: ok (/src/tool)",
            "  fetch: ok (remote probe succeeded)",
            "  branch: main",
            "  upstream: origin/main",
            "  ahead: 10",
            "  behind: 0",
            "  dirty: true",
            "  decision: ahead-only",
            "  message: main is ahead",
            "",
            "Doctor OK",
        ]
    );
    assert!(!render_doctor("/c.toml", true, &service(true), &config).healthy);
}

#[test]
fn diagnoses_what_is_wrong() {
    let repos = vec![absent(), broken(), probed(true)];
    assert!(repos.iter().all(|finding| is_issue(finding)));
    let config = ConfigFinding::Readable { enabled: 3, repos };
    let report = render_doctor("/c.toml", true, &service(false), &config);
    assert!(!report.healthy);
    assert_eq!(report.lines[10], "  init: issue (failed to resolve repo path /gone)");
    assert_eq!(report.lines[11], "");
    assert_eq!(report.lines[15], "  fetch: issue (no network)");
    assert_eq!(report.lines[report.lines.len() - 1], "");
    let config = ConfigFinding::Unreadable { error: "failed to parse".into() };
    let report = render_doctor("/c.toml", false, &service(false), &config);
    assert!(!report.healthy);
    assert_eq!(
        report.lines,
        vec![
            "Doctor",
            "Config:",
            "  path: issue (/c.toml)",
            "  parse: issue (failed to parse)",
            "",
            "Service:",
        ]
    );
    let config = ConfigFinding::NothingSelected { enabled: 2, error: "none".into() };
    let report = render_doctor("/c.toml", true, &service(false), &config);
    assert!(!report.healthy);
    assert_eq!(report.lines[report.lines.len() - 1], "  selection: issue (none)");
    assert_eq!(doctor_check("x", false, "y"), "  x: issue (y)");
}

#[test]
fn shows_the_status_in_words() {
    let report = render_status(&[broken(), probed(true)], false);
    assert!(report.error.is_none() && report.output.is_none());
    assert_eq!(
        report.lines,
        vec![
            "Repository: docs",
            "  path: /docs",
            "  error: no network",
            "Repository: tool",
            "  path: /src/tool",
            "  branch: main",
            "  upstream: origin/main",
            "  ahead: 10",
            "  behind: 0",
            "  dirty: true",
            "  decision: ahead-only",
            "  message: main is ahead",
        ]
    );
    let report = render_status(&[broken(), absent(), probed(true)], false);
    assert_eq!(report.lines.len(), 3);
    assert_eq!(report.error.as_deref(), Some("failed to initialize repository gone"));
}

#[test]
fn shows_the_status_for_programs() {
    let report = render_status(&[broken(), probed(true)], true);
    assert!(report.lines.is_empty() && report.error.is_none());
    let entries = report.output.expect("entries").repositories;
    assert_eq!(entries[0].error.as_deref(), Some("no network"));
    assert!(entries[0].branch.is_none());
    assert_eq!(entries[1].ahead, Some(10));
    assert_eq!(entries[1].path, "/src/tool");
    let report = render_status(&[broken(), absent()], true);
    assert!(report.output.is_none() && report.lines.is_empty());
    assert_eq!(report.error.as_deref(), Some("failed to initialize repository gone"));
}

fn text(value: &Option<String>) -> serde_json::Value {
    match value {
        Some(value) => serde_json::Value::String(value.clone()),
        None => serde_json::Value::Null,
    }
}

#[test]
fn serializes_status_output_with_error() {
    let output = StatusOutput {
        repositories: vec![StatusEntry {
            name: "openclawcode".into(),
            path: "/tmp/openclawcode".into(),
            branch: None,
            upstream: None,
            ahead: None,
            behind: None,
            dirty: None,
            decision: None,
            message: None,
            error: Some("fetch failed".into()),
        }],
    };

    let finding = RepoFinding {
        name: "openclawcode".into(),
        path: "/tmp/openclawcode".into(),
        path_exists: true,
        found: Found::NotProbed {
            repo_path: "/tmp/openclawcode".into(),
            error: "fetch failed".into(),
        },
    };
    let shown = render_status(&[finding], true).output.expect("entries");
    assert_eq!(format!("{:?}", shown), format!("{:?}", output));

    let mut entries = Vec::new();
    for entry in &output.repositories {
        let mut fields = serde_json::Map::new();
        fields.insert("name".into(), serde_json::Value::String(entry.name.clone()));
        fields.insert("path".into(), serde_json::Value::String(entry.path.clone()));
        fields.insert("branch".into(), text(&entry.branch));
        fields.insert("error".into(), text(&entry.error));
        entries.push(serde_json::Value::Object(fields));
    }
    let json = serde_json::to_string(&entries).expect("status output should serialize");
    assert!(json.contains("\"name\":\"openclawcode\""));
    assert!(json.contains("\"error\":\"fetch failed\""));
}

fn selected(name: &str) -> SelectedRepo {
    SelectedRepo {
        config: RepositoryConfig {
            name: name.into(),
            path: format!("~/{}", name),
            interval_seconds: Seconds { bits: 60.0f64.to_bits() },
            enabled: true,
            paused: false,
            dry_run: false,
            allowed_branches: Vec::new(),
            quiet_hours: None,
            desktop_notifications: None,
            before_pull_command: None,
            after_pull_command: None,
            on_failure_command: None,
        },
        before_pull_command: None,
        after_pull_command: None,
        on_failure_command: None,
        notification_settings: NotificationSettings {
            on_pull: false,
            on_failure: false,
            command: None,
        },
    }
}

#[test]
fn makes_repositories_ready() {
    let there = |path: &str| PathProbe::Resolved { canonical: path.into(), has_git: true };
    let paths = ["/home/u/a".to_string(), "/home/u/b".to_string()];
    let ready = build_managed_repos(
        vec![selected("a"), selected("b")],
        &paths,
        &[there("/src/a"), there("/src/b")],
    )
    .expect("both are there");
    assert_eq!(ready.len(), 2);
    assert_eq!(ready[1].managed.selected.config.name, "b");
    assert_eq!(ready[1].managed.repo_path, "/src/b");
    assert_eq!(ready[1].syncer.repo_path(), "/src/b");
    assert!(ready[1].managed.last_message.is_none());
    let error = build_managed_repos(
        vec![selected("a"), selected("b")],
        &paths,
        &[there("/src/a"), PathProbe::Unresolved],
    )
    .expect_err("one is not there");
    assert_eq!(error.message, "failed to initialize repository b");
    assert_eq!(error.cause.message(), "failed to resolve repo path /home/u/b");
}

#[test]
fn checks_a_configuration() {
    let there = PathProbe::Resolved { canonical: "/src/a".into(), has_git: true };
    let paths = ["/home/u/a".to_string()];
    assert_eq!(
        check_config(&[selected("a")], &paths, &[there], "/c.toml").expect("it is there"),
        "Config OK: 1 enabled repositories in /c.toml"
    );
    let plain = PathProbe::Resolved { canonical: "/src/a".into(), has_git: false };
    let error = check_config(&[selected("a")], &paths, &[plain], "/c.toml")
        .expect_err("it is not there");
    assert_eq!(error.message, "failed to initialize repository a");
    assert_eq!(error.cause.message(), "/src/a is not a Git repository");
}
