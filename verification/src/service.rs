//! The background service: the files that define it on each system, and the
//! commands that install, start and remove it.

use crate::command::{
    command, plain_command, CommandSpec, CommandStep, CommandStepView, CommandView,
};
use crate::config::option_text;
use crate::escape::{
    escape_xml, escaped, quote_systemd_arg, quote_windows_arg, systemd_arg, windows_arg, Escape,
};
use crate::outcome::{printed, printed_text, CommandOutcome};
use crate::paths::{
    default_binary_path, expand_tilde, is_default_path, is_expanded, is_joined, is_relative,
    join_path, may_divide, option_str,
};
use crate::text::{
    all_white, blank_texts_are_white, holds, is_around, is_blank, join, joined, lemma_holds_end,
    lemma_holds_more, same_text, texts, trimmed,
};
use vstd::prelude::*;

verus! {

/// The arguments that restrict a service to some repositories.
pub open spec fn repo_filters(repos: Seq<Seq<char>>) -> Seq<Seq<char>>
    decreases repos.len(),
{
    if repos.len() == 0 {
        Seq::empty()
    } else {
        repo_filters(repos.drop_last()) + seq!["--repo"@, repos.last()]
    }
}

/// The command line of a service.
pub open spec fn program_line(
    binary: Seq<char>,
    config: Seq<char>,
    repos: Seq<Seq<char>>,
) -> Seq<Seq<char>> {
    seq![binary, "--config"@, config] + repo_filters(repos)
}

/// The command line of a service.
pub fn build_program_args(binary: &str, config: &str, repos: &[String]) -> (args: Vec<String>)
    ensures
        texts(args@) == program_line(binary@, config@, texts(repos@)),
{
    let ghost names = texts(repos@);
    let ghost start = seq![binary@, "--config"@, config@];
    let mut args = vec![binary.to_owned(), "--config".to_owned(), config.to_owned()];
    let mut i: usize = 0;
    assert(names.take(0) =~= Seq::empty());
    assert(texts(args@) =~= start + repo_filters(names.take(0)));
    while i < repos.len()
        invariant
            i <= repos.len(),
            names == texts(repos@),
            texts(args@) == start + repo_filters(names.take(i as int)),
        decreases repos.len() - i,
    {
        let ghost before = texts(args@);
        args.push("--repo".to_owned());
        args.push(repos[i].clone());
        assert(names.take(i + 1).drop_last() =~= names.take(i as int));
        assert(names.take(i + 1).last() == repos@[i as int]@);
        assert(texts(args@) =~= before + seq!["--repo"@, repos@[i as int]@]);
        assert(texts(args@) =~= start + repo_filters(names.take(i + 1)));
        i = i + 1;
    }
    assert(names.take(i as int) =~= names);
    args
}

/// How an argument is written in the file of a service.
#[derive(Clone, Copy, Debug, Eq, PartialEq, Structural)]
enum ArgStyle {
    Systemd,
    Launchd,
    Windows,
}

/// An element of a property list that holds an argument.
pub open spec fn plist_arg(arg: Seq<char>) -> Seq<char> {
    "    <string>"@ + escaped(Escape::Xml, arg) + "</string>"@
}

/// How an argument is written.
spec fn styled(style: ArgStyle, arg: Seq<char>) -> Seq<char> {
    match style {
        ArgStyle::Systemd => systemd_arg(arg),
        ArgStyle::Launchd => plist_arg(arg),
        ArgStyle::Windows => windows_arg(arg),
    }
}

/// The arguments as they are written, with a separator between them.
fn styled_args(style: ArgStyle, args: &[String], separator: &str) -> (text: String)
    ensures
        text@ == joined(
            texts(args@).map_values(|arg: Seq<char>| styled(style, arg)),
            separator@,
        ),
{
    let ghost all = texts(args@);
    let ghost write = |arg: Seq<char>| styled(style, arg);
    let mut written: Vec<String> = Vec::new();
    let mut i: usize = 0;
    while i < args.len()
        invariant
            i <= args.len(),
            written.len() == i,
            forall|j: int| 0 <= j < i ==> (#[trigger] written@[j])@ == styled(style, args@[j]@),
        decreases args.len() - i,
    {
        let arg: &str = args[i].as_str();
        let text = match style {
            ArgStyle::Systemd => quote_systemd_arg(arg),
            ArgStyle::Launchd => "    <string>".to_owned().concat(
                escape_xml(arg).as_str(),
            ).concat("</string>"),
            ArgStyle::Windows => quote_windows_arg(arg),
        };
        written.push(text);
        i = i + 1;
    }
    assert(texts(written@) =~= all.map_values(write));
    join(written.as_slice(), separator)
}

/// The file of a systemd service.
pub open spec fn systemd_service(args: Seq<Seq<char>>) -> Seq<char> {
    "[Unit]\nDescription=Repo Auto Puller\nAfter=network-online.target\nWants=network-online.target\n\n[Service]\nType=simple\nExecStart="@
        + joined(args.map_values(|arg: Seq<char>| systemd_arg(arg)), " "@)
        + "\nRestart=always\nRestartSec=10\n\n[Install]\nWantedBy=default.target\n"@
}

/// The file of a systemd service.
pub fn render_systemd_service(program_args: &[String]) -> (service: String)
    ensures
        service@ == systemd_service(texts(program_args@)),
{
    let line = styled_args(ArgStyle::Systemd, program_args, " ");
    assert(texts(program_args@).map_values(|arg: Seq<char>| styled(ArgStyle::Systemd, arg))
        =~= texts(program_args@).map_values(|arg: Seq<char>| systemd_arg(arg)));
    "[Unit]\nDescription=Repo Auto Puller\nAfter=network-online.target\nWants=network-online.target\n\n[Service]\nType=simple\nExecStart=".to_owned(
    ).concat(line.as_str()).concat(
        "\nRestart=always\nRestartSec=10\n\n[Install]\nWantedBy=default.target\n",
    )
}

/// A property list up to the label of the service.
pub const PLIST_START: &'static str = r#"<?xml version="1.0" encoding="UTF-8"?>
<!DOCTYPE plist PUBLIC "-//Apple//DTD PLIST 1.0//EN" "https://www.apple.com/DTDs/PropertyList-1.0.dtd">
<plist version="1.0">
<dict>
  <key>Label</key>
  <string>"#;

/// A property list from the label to the arguments.
pub const PLIST_MIDDLE: &'static str = r#"</string>
  <key>ProgramArguments</key>
  <array>
"#;

/// A property list after the arguments.
pub const PLIST_END: &'static str = r#"
  </array>
  <key>RunAtLoad</key>
  <true/>
  <key>KeepAlive</key>
  <true/>
</dict>
</plist>
"#;

/// The file of a launchd service.
pub open spec fn launchd_plist(label: Seq<char>, args: Seq<Seq<char>>) -> Seq<char> {
    PLIST_START@ + escaped(Escape::Xml, label) + PLIST_MIDDLE@ + joined(
        args.map_values(|arg: Seq<char>| plist_arg(arg)),
        "\n"@,
    ) + PLIST_END@
}

/// The file of a launchd service.
pub fn render_launchd_plist(label: &str, program_args: &[String]) -> (plist: String)
    ensures
        plist@ == launchd_plist(label@, texts(program_args@)),
{
    let lines = styled_args(ArgStyle::Launchd, program_args, "\n");
    assert(texts(program_args@).map_values(|arg: Seq<char>| styled(ArgStyle::Launchd, arg))
        =~= texts(program_args@).map_values(|arg: Seq<char>| plist_arg(arg)));
    PLIST_START.to_owned().concat(escape_xml(label).as_str()).concat(PLIST_MIDDLE).concat(
        lines.as_str(),
    ).concat(PLIST_END)
}

/// The script that a scheduled task of Windows runs.
pub open spec fn windows_script(args: Seq<Seq<char>>) -> Seq<char> {
    "@echo off\r\n"@ + joined(args.map_values(|arg: Seq<char>| windows_arg(arg)), " "@) + "\r\n"@
}

/// The script that a scheduled task of Windows runs.
pub fn render_windows_command_script(program_args: &[String]) -> (script: String)
    ensures
        script@ == windows_script(texts(program_args@)),
{
    let line = styled_args(ArgStyle::Windows, program_args, " ");
    assert(texts(program_args@).map_values(|arg: Seq<char>| styled(ArgStyle::Windows, arg))
        =~= texts(program_args@).map_values(|arg: Seq<char>| windows_arg(arg)));
    "@echo off\r\n".to_owned().concat(line.as_str()).concat("\r\n")
}

/// Where the file of a systemd service stands, below the home directory.
pub open spec fn systemd_unit(service: Seq<char>) -> Seq<char> {
    "~/.config/systemd/user/"@ + service + ".service"@
}

/// Where the file of a systemd service stands.
pub fn systemd_unit_path(service_name: &str, home: Option<&str>) -> (path: String)
    ensures
        is_expanded(systemd_unit(service_name@), option_str(home), path@),
{
    let path = "~/.config/systemd/user/".to_owned().concat(service_name).concat(".service");
    expand_tilde(path.as_str(), home)
}

/// Where the file of a launchd service stands, below the home directory.
pub open spec fn launchd_agent(service: Seq<char>) -> Seq<char> {
    "~/Library/LaunchAgents/"@ + service + ".plist"@
}

/// Where the file of a launchd service stands.
pub fn launchd_plist_path(service_name: &str, home: Option<&str>) -> (path: String)
    ensures
        is_expanded(launchd_agent(service_name@), option_str(home), path@),
{
    let path = "~/Library/LaunchAgents/".to_owned().concat(service_name).concat(".plist");
    expand_tilde(path.as_str(), home)
}

/// Whether a path is that of the script of a service in a directory for
/// application data.
pub open spec fn is_script_below(base: Seq<char>, service: Seq<char>, path: Seq<char>) -> bool {
    exists|directory: Seq<char>| #[trigger]
        is_joined(base, "repo-auto-puller"@, directory) && is_joined(
            directory,
            service + ".cmd"@,
            path,
        )
}

/// Whether a path is that of the script of a service in the directory for
/// application data below a home directory.
pub open spec fn is_script_below_home(
    home: Seq<char>,
    service: Seq<char>,
    path: Seq<char>,
) -> bool {
    exists|base: Seq<char>| #[trigger]
        is_joined(home, "AppData/Roaming"@, base) && is_script_below(base, service, path)
}

/// Whether a path is that of the script of a service on Windows: in the
/// directory for application data, in the one below the home directory where
/// that is not known, and below a tilde where neither is.
pub open spec fn is_script_path(
    service: Seq<char>,
    app_data: Option<Seq<char>>,
    home: Option<Seq<char>>,
    path: Seq<char>,
) -> bool {
    match app_data {
        Some(base) => is_script_below(base, service, path),
        None => match home {
            Some(home) => is_script_below_home(home, service, path),
            None => path == "~/AppData/Roaming/repo-auto-puller/"@ + service + ".cmd"@,
        },
    }
}

/// The path of the script of a service in a directory for application data.
fn script_below(base: &str, service_name: &str) -> (path: String)
    ensures
        is_script_below(base@, service_name@, path@),
{
    let directory = join_path(base, "repo-auto-puller");
    let name = service_name.to_owned().concat(".cmd");
    let path = join_path(directory.as_str(), name.as_str());
    assert(is_joined(base@, "repo-auto-puller"@, directory@));
    path
}

/// Where the script of a service stands on Windows.
pub fn windows_task_script_path(
    service_name: &str,
    app_data: Option<&str>,
    home: Option<&str>,
) -> (path: String)
    ensures
        is_script_path(service_name@, option_str(app_data), option_str(home), path@),
{
    if let Some(base) = app_data {
        return script_below(base, service_name);
    }
    if let Some(directory) = home {
        let base = join_path(directory, "AppData/Roaming");
        let path = script_below(base.as_str(), service_name);
        assert(is_script_below_home(directory@, service_name@, path@));
        return path;
    }
    "~/AppData/Roaming/repo-auto-puller/".to_owned().concat(service_name).concat(".cmd")
}

/// Whether a path is that of the program that a service runs: the one that
/// was given, or the default, with the tilde expanded.
pub open spec fn is_binary_path(
    binary: Option<Seq<char>>,
    os: Seq<char>,
    home: Option<Seq<char>>,
    path: Seq<char>,
) -> bool {
    match binary {
        Some(binary) => is_expanded(binary, home, path),
        None => exists|raw: Seq<char>| #[trigger]
            is_expanded(raw, home, path) && is_default_path(
                os,
                home,
                "AppData/Local/repo-auto-puller/repo-auto-puller.exe"@,
                "~/.local/bin/repo-auto-puller"@,
                raw,
            ),
    }
}

/// The path of the program that a service runs.
pub fn service_binary_path(binary: Option<&str>, os: &str, home: Option<&str>) -> (path: String)
    ensures
        is_binary_path(option_str(binary), os@, option_str(home), path@),
{
    match binary {
        Some(binary) => expand_tilde(binary, home),
        None => {
            let raw = default_binary_path(os, home);
            let path = expand_tilde(raw.as_str(), home);
            assert(is_expanded(raw@, option_str(home), path@));
            path
        },
    }
}

/// What to make of a command that does not succeed.
#[derive(Clone, Copy, Debug, Eq, PartialEq, Structural)]
pub enum OnFailure {
    /// Nothing.
    Ignore,
    /// A warning.
    Warn,
    /// An error, with what the command said of it.
    Fail,
    /// An error, with what the command said of it, or printed, or how it
    /// ended.
    FailInDetail,
}

/// The first of three texts that is not empty.
pub open spec fn first_said(a: Seq<char>, b: Seq<char>, c: Seq<char>) -> Seq<char> {
    if a.len() > 0 {
        a
    } else if b.len() > 0 {
        b
    } else {
        c
    }
}

/// What to make of the outcome of a command, which is called `what`.
pub open spec fn service_verdict(
    what: Seq<char>,
    on_failure: OnFailure,
    outcome: CommandOutcome,
) -> CommandStepView {
    match outcome {
        CommandOutcome::NotStarted { reason } => match on_failure {
            OnFailure::Ignore => CommandStepView::Done,
            OnFailure::Warn => CommandStepView::Warn(
                "warning: failed to execute "@ + what + ": "@ + reason@,
            ),
            _ => CommandStepView::Failed("failed to execute "@ + what),
        },
        CommandOutcome::Exited { success, status, stdout, stderr } => if success {
            CommandStepView::Done
        } else {
            match on_failure {
                OnFailure::Ignore => CommandStepView::Done,
                OnFailure::Warn => CommandStepView::Warn(
                    "warning: "@ + what + " failed: "@ + first_said(
                        printed(stderr@),
                        Seq::empty(),
                        "command returned non-zero exit status"@,
                    ),
                ),
                OnFailure::Fail => CommandStepView::Failed(
                    what + " failed: "@ + printed(stderr@),
                ),
                OnFailure::FailInDetail => CommandStepView::Failed(
                    what + " failed: "@ + first_said(
                        printed(stderr@),
                        printed(stdout@),
                        what + " exited with status "@ + status@,
                    ),
                ),
            }
        },
    }
}

/// What to make of the outcome of a command, which is called `what`.
pub fn judge_service_command(what: &str, on_failure: OnFailure, outcome: &CommandOutcome) -> (step:
    CommandStep)
    ensures
        step@ == service_verdict(what@, on_failure, *outcome),
{
    match outcome {
        CommandOutcome::NotStarted { reason } => match on_failure {
            OnFailure::Ignore => CommandStep::Done,
            OnFailure::Warn => CommandStep::Warn(
                "warning: failed to execute ".to_owned().concat(what).concat(": ").concat(
                    reason.as_str(),
                ),
            ),
            _ => CommandStep::Failed("failed to execute ".to_owned().concat(what)),
        },
        CommandOutcome::Exited { success, status, stdout, stderr } => {
            if *success {
                return CommandStep::Done;
            }
            let said = printed_text(stderr.as_slice());
            match on_failure {
                OnFailure::Ignore => CommandStep::Done,
                OnFailure::Warn => {
                    let suffix = if said.as_str().is_empty() {
                        "command returned non-zero exit status".to_owned()
                    } else {
                        said
                    };
                    CommandStep::Warn(
                        "warning: ".to_owned().concat(what).concat(" failed: ").concat(
                            suffix.as_str(),
                        ),
                    )
                },
                OnFailure::Fail => CommandStep::Failed(
                    what.to_owned().concat(" failed: ").concat(said.as_str()),
                ),
                OnFailure::FailInDetail => {
                    let shown = printed_text(stdout.as_slice());
                    let detail = if !said.as_str().is_empty() {
                        said
                    } else if !shown.as_str().is_empty() {
                        shown
                    } else {
                        what.to_owned().concat(" exited with status ").concat(status.as_str())
                    };
                    CommandStep::Failed(
                        what.to_owned().concat(" failed: ").concat(detail.as_str()),
                    )
                },
            }
        },
    }
}

/// One thing that is done to install or remove a service.
#[derive(Debug)]
pub enum ServiceAction {
    /// Create the directory in which a file stands.
    CreateParent { path: String },
    /// Write a file.
    Write { path: String, text: String },
    /// Print a line.
    Say { line: String },
    /// Run a command, which is called `what`.
    Run { command: CommandSpec, what: String, on_failure: OnFailure },
    /// Remove a file if it is there, and print one of two lines.
    Remove { path: String, removed: String, missing: String },
    /// Find out the domain of launchd, and load the service in it.
    LoadLaunchd,
    /// Find out the domain of launchd, and unload the service from it.
    UnloadLaunchd,
}

/// What a [`ServiceAction`] says.
#[verifier::ext_equal]
pub enum ServiceActionView {
    CreateParent { path: Seq<char> },
    Write { path: Seq<char>, text: Seq<char> },
    Say { line: Seq<char> },
    Run { command: CommandView, what: Seq<char>, on_failure: OnFailure },
    Remove { path: Seq<char>, removed: Seq<char>, missing: Seq<char> },
    LoadLaunchd,
    UnloadLaunchd,
}

impl View for ServiceAction {
    type V = ServiceActionView;

    open spec fn view(&self) -> ServiceActionView {
        match self {
            ServiceAction::CreateParent { path } => ServiceActionView::CreateParent { path: path@ },
            ServiceAction::Write { path, text } => ServiceActionView::Write {
                path: path@,
                text: text@,
            },
            ServiceAction::Say { line } => ServiceActionView::Say { line: line@ },
            ServiceAction::Run { command, what, on_failure } => ServiceActionView::Run {
                command: command@,
                what: what@,
                on_failure: *on_failure,
            },
            ServiceAction::Remove { path, removed, missing } => ServiceActionView::Remove {
                path: path@,
                removed: removed@,
                missing: missing@,
            },
            ServiceAction::LoadLaunchd => ServiceActionView::LoadLaunchd,
            ServiceAction::UnloadLaunchd => ServiceActionView::UnloadLaunchd,
        }
    }
}

/// What a list of actions says.
pub open spec fn service_views(list: Seq<ServiceAction>) -> Seq<ServiceActionView> {
    list.map_values(|action: ServiceAction| action@)
}

/// The user's systemd, told to do something.
pub open spec fn systemctl(args: Seq<Seq<char>>, on_failure: OnFailure) -> ServiceActionView {
    ServiceActionView::Run {
        command: plain_command("systemctl"@, seq!["--user"@] + args),
        what: "systemctl --user "@ + joined(args, " "@),
        on_failure,
    }
}

/// The user's systemd, told to do something.
fn run_systemctl_user(args: Vec<String>, on_failure: OnFailure) -> (action: ServiceAction)
    ensures
        action@ == systemctl(texts(args@), on_failure),
{
    let what = "systemctl --user ".to_owned().concat(join(args.as_slice(), " ").as_str());
    let mut all = vec!["--user".to_owned()];
    let mut rest = args;
    let ghost tail = rest@;
    all.append(&mut rest);
    assert(texts(all@) =~= seq!["--user"@] + texts(tail));
    ServiceAction::Run { command: command("systemctl", all), what, on_failure }
}

/// launchd, told to do something.
pub open spec fn launchctl(args: Seq<Seq<char>>, on_failure: OnFailure) -> ServiceActionView {
    ServiceActionView::Run {
        command: plain_command("launchctl"@, args),
        what: "launchctl "@ + joined(args, " "@),
        on_failure,
    }
}

/// launchd, told to do something.
fn run_launchctl(args: Vec<String>, on_failure: OnFailure) -> (action: ServiceAction)
    ensures
        action@ == launchctl(texts(args@), on_failure),
{
    let what = "launchctl ".to_owned().concat(join(args.as_slice(), " ").as_str());
    ServiceAction::Run { command: command("launchctl", args), what, on_failure }
}

/// The task scheduler of Windows, told to do something that is called `what`.
pub open spec fn schtasks(
    args: Seq<Seq<char>>,
    what: Seq<char>,
    on_failure: OnFailure,
) -> ServiceActionView {
    ServiceActionView::Run {
        command: plain_command("schtasks"@, args),
        what: "schtasks "@ + what,
        on_failure,
    }
}

/// The task scheduler of Windows, told to do something that is called `what`.
fn run_schtasks(args: Vec<String>, what: &str, on_failure: OnFailure) -> (action: ServiceAction)
    ensures
        action@ == schtasks(texts(args@), what@, on_failure),
{
    ServiceAction::Run {
        command: command("schtasks", args),
        what: "schtasks ".to_owned().concat(what),
        on_failure,
    }
}

/// What is done to install a service of systemd: its file is written, and it
/// is enabled and started as asked.
pub open spec fn systemd_install_plan(
    service: Seq<char>,
    file: Seq<char>,
    args: Seq<Seq<char>>,
    enable: bool,
    start: bool,
) -> Seq<ServiceActionView> {
    let unit = service + ".service"@;
    let written = seq![
        ServiceActionView::CreateParent { path: file },
        ServiceActionView::Write { path: file, text: systemd_service(args) },
        ServiceActionView::Say { line: "Wrote systemd service file: "@ + file },
    ];
    let reloaded = if enable || start {
        seq![systemctl(seq!["daemon-reload"@], OnFailure::Fail)]
    } else {
        Seq::empty()
    };
    let enabled = if enable {
        seq![systemctl(seq!["enable"@, unit], OnFailure::Fail)]
    } else {
        Seq::empty()
    };
    let started = if start {
        seq![systemctl(seq!["start"@, unit], OnFailure::Fail)]
    } else {
        Seq::empty()
    };
    written + reloaded + enabled + started
}

/// A list of one text.
fn one(a: &str) -> (list: Vec<String>)
    ensures
        texts(list@) == seq![a@],
{
    let list = vec![a.to_owned()];
    assert(texts(list@) =~= seq![a@]);
    list
}

/// A list of two texts.
fn two(a: &str, b: &str) -> (list: Vec<String>)
    ensures
        texts(list@) == seq![a@, b@],
{
    let list = vec![a.to_owned(), b.to_owned()];
    assert(texts(list@) =~= seq![a@, b@]);
    list
}

/// A list of three texts.
fn three(a: &str, b: &str, c: &str) -> (list: Vec<String>)
    ensures
        texts(list@) == seq![a@, b@, c@],
{
    let list = vec![a.to_owned(), b.to_owned(), c.to_owned()];
    assert(texts(list@) =~= seq![a@, b@, c@]);
    list
}

/// What is done to install a service of systemd whose file stands at `file`.
pub fn install_systemd_service(
    service_name: &str,
    file: &str,
    program_args: &[String],
    enable: bool,
    start: bool,
) -> (actions: Vec<ServiceAction>)
    ensures
        service_views(actions@) == systemd_install_plan(
            service_name@,
            file@,
            texts(program_args@),
            enable,
            start,
        ),
{
    let unit = service_name.to_owned().concat(".service");
    let mut actions = vec![
        ServiceAction::CreateParent { path: file.to_owned() },
        ServiceAction::Write {
            path: file.to_owned(),
            text: render_systemd_service(program_args),
        },
        ServiceAction::Say { line: "Wrote systemd service file: ".to_owned().concat(file) },
    ];
    if enable || start {
        actions.push(run_systemctl_user(one("daemon-reload"), OnFailure::Fail));
    }
    if enable {
        actions.push(run_systemctl_user(two("enable", unit.as_str()), OnFailure::Fail));
    }
    if start {
        actions.push(run_systemctl_user(two("start", unit.as_str()), OnFailure::Fail));
    }
    assert(service_views(actions@) =~= systemd_install_plan(
        service_name@,
        file@,
        texts(program_args@),
        enable,
        start,
    ));
    actions
}

/// What is done to install a service of launchd: its file is written, and it
/// is loaded if it is to be enabled or started.
pub open spec fn launchd_install_plan(
    service: Seq<char>,
    file: Seq<char>,
    args: Seq<Seq<char>>,
    enable: bool,
    start: bool,
) -> Seq<ServiceActionView> {
    let written = seq![
        ServiceActionView::CreateParent { path: file },
        ServiceActionView::Write { path: file, text: launchd_plist(service, args) },
        ServiceActionView::Say { line: "Wrote launchd plist: "@ + file },
    ];
    if enable || start {
        written + seq![ServiceActionView::LoadLaunchd]
    } else {
        written
    }
}

/// What is done to install a service of launchd whose file stands at `file`.
pub fn install_launchd_service(
    service_name: &str,
    file: &str,
    program_args: &[String],
    enable: bool,
    start: bool,
) -> (actions: Vec<ServiceAction>)
    ensures
        service_views(actions@) == launchd_install_plan(
            service_name@,
            file@,
            texts(program_args@),
            enable,
            start,
        ),
{
    let mut actions = vec![
        ServiceAction::CreateParent { path: file.to_owned() },
        ServiceAction::Write {
            path: file.to_owned(),
            text: render_launchd_plist(service_name, program_args),
        },
        ServiceAction::Say { line: "Wrote launchd plist: ".to_owned().concat(file) },
    ];
    if enable || start {
        actions.push(ServiceAction::LoadLaunchd);
    }
    assert(service_views(actions@) =~= launchd_install_plan(
        service_name@,
        file@,
        texts(program_args@),
        enable,
        start,
    ));
    actions
}

/// What is done to load a service of launchd in a domain: what was loaded
/// before is unloaded, and it is enabled and started as asked.
pub open spec fn launchd_load_plan(
    service: Seq<char>,
    file: Seq<char>,
    domain: Seq<char>,
    enable: bool,
    start: bool,
) -> Seq<ServiceActionView> {
    let target = domain + "/"@ + service;
    let loaded = seq![
        launchctl(seq!["bootout"@, target], OnFailure::Ignore),
        launchctl(seq!["bootout"@, domain, file], OnFailure::Ignore),
        launchctl(seq!["bootstrap"@, domain, file], OnFailure::Fail),
    ];
    let enabled = if enable {
        seq![launchctl(seq!["enable"@, target], OnFailure::Fail)]
    } else {
        Seq::empty()
    };
    let started = if start {
        seq![launchctl(seq!["kickstart"@, "-k"@, target], OnFailure::Fail)]
    } else {
        Seq::empty()
    };
    loaded + enabled + started
}

/// What is done to load a service of launchd in a domain.
pub fn load_launchd_service(
    service_name: &str,
    file: &str,
    domain: &str,
    enable: bool,
    start: bool,
) -> (actions: Vec<ServiceAction>)
    ensures
        service_views(actions@) == launchd_load_plan(
            service_name@,
            file@,
            domain@,
            enable,
            start,
        ),
{
    let target = domain.to_owned().concat("/").concat(service_name);
    let mut actions = vec![
        run_launchctl(two("bootout", target.as_str()), OnFailure::Ignore),
        run_launchctl(three("bootout", domain, file), OnFailure::Ignore),
        run_launchctl(three("bootstrap", domain, file), OnFailure::Fail),
    ];
    if enable {
        actions.push(run_launchctl(two("enable", target.as_str()), OnFailure::Fail));
    }
    if start {
        actions.push(run_launchctl(three("kickstart", "-k", target.as_str()), OnFailure::Fail));
    }
    assert(service_views(actions@) =~= launchd_load_plan(
        service_name@,
        file@,
        domain@,
        enable,
        start,
    ));
    actions
}

/// What is done to install a task of Windows: its script is written, and it is
/// created, enabled or disabled, and run as asked.
pub open spec fn windows_install_plan(
    service: Seq<char>,
    file: Seq<char>,
    args: Seq<Seq<char>>,
    enable: bool,
    start: bool,
) -> Seq<ServiceActionView> {
    let created = seq![
        ServiceActionView::CreateParent { path: file },
        ServiceActionView::Write { path: file, text: windows_script(args) },
        ServiceActionView::Say { line: "Wrote Windows task launcher: "@ + file },
        schtasks(
            seq![
                "/Create"@,
                "/TN"@,
                service,
                "/SC"@,
                "ONLOGON"@,
                "/RL"@,
                "LIMITED"@,
                "/TR"@,
                file,
                "/F"@,
            ],
            "create task "@ + service,
            OnFailure::FailInDetail,
        ),
        if enable {
            schtasks(
                seq!["/Change"@, "/TN"@, service, "/ENABLE"@],
                "enable task "@ + service,
                OnFailure::FailInDetail,
            )
        } else {
            schtasks(
                seq!["/Change"@, "/TN"@, service, "/DISABLE"@],
                "disable task "@ + service,
                OnFailure::FailInDetail,
            )
        },
    ];
    if start {
        created + seq![
            schtasks(
                seq!["/Run"@, "/TN"@, service],
                "run task "@ + service,
                OnFailure::FailInDetail,
            ),
        ]
    } else {
        created
    }
}

/// What is done to install a task of Windows whose script stands at `file`.
pub fn install_windows_service(
    service_name: &str,
    file: &str,
    program_args: &[String],
    enable: bool,
    start: bool,
) -> (actions: Vec<ServiceAction>)
    ensures
        service_views(actions@) == windows_install_plan(
            service_name@,
            file@,
            texts(program_args@),
            enable,
            start,
        ),
{
    let create = vec![
        "/Create".to_owned(),
        "/TN".to_owned(),
        service_name.to_owned(),
        "/SC".to_owned(),
        "ONLOGON".to_owned(),
        "/RL".to_owned(),
        "LIMITED".to_owned(),
        "/TR".to_owned(),
        file.to_owned(),
        "/F".to_owned(),
    ];
    assert(texts(create@) =~= seq![
        "/Create"@,
        "/TN"@,
        service_name@,
        "/SC"@,
        "ONLOGON"@,
        "/RL"@,
        "LIMITED"@,
        "/TR"@,
        file@,
        "/F"@,
    ]);
    let mut change = three("/Change", "/TN", service_name);
    let ghost before = change@;
    let what: &str = if enable {
        change.push("/ENABLE".to_owned());
        "enable task "
    } else {
        change.push("/DISABLE".to_owned());
        "disable task "
    };
    assert(texts(change@) =~= texts(before).push(
        if enable {
            "/ENABLE"@
        } else {
            "/DISABLE"@
        },
    ));
    assert(texts(change@) =~= seq![
        "/Change"@,
        "/TN"@,
        service_name@,
        if enable {
            "/ENABLE"@
        } else {
            "/DISABLE"@
        },
    ]);
    let mut actions = vec![
        ServiceAction::CreateParent { path: file.to_owned() },
        ServiceAction::Write {
            path: file.to_owned(),
            text: render_windows_command_script(program_args),
        },
        ServiceAction::Say { line: "Wrote Windows task launcher: ".to_owned().concat(file) },
        run_schtasks(
            create,
            "create task ".to_owned().concat(service_name).as_str(),
            OnFailure::FailInDetail,
        ),
        run_schtasks(
            change,
            what.to_owned().concat(service_name).as_str(),
            OnFailure::FailInDetail,
        ),
    ];
    if start {
        actions.push(
            run_schtasks(
                three("/Run", "/TN", service_name),
                "run task ".to_owned().concat(service_name).as_str(),
                OnFailure::FailInDetail,
            ),
        );
    }
    assert(service_views(actions@) =~= windows_install_plan(
        service_name@,
        file@,
        texts(program_args@),
        enable,
        start,
    ));
    actions
}

/// The removal of a file that is of some kind.
pub open spec fn removal(kind: Seq<char>, file: Seq<char>) -> ServiceActionView {
    ServiceActionView::Remove {
        path: file,
        removed: "Removed "@ + kind + ": "@ + file,
        missing: "No "@ + kind + " found at "@ + file,
    }
}

/// The removal of a file that is of some kind.
fn remove(kind: &str, file: &str) -> (action: ServiceAction)
    ensures
        action@ == removal(kind@, file@),
{
    ServiceAction::Remove {
        path: file.to_owned(),
        removed: "Removed ".to_owned().concat(kind).concat(": ").concat(file),
        missing: "No ".to_owned().concat(kind).concat(" found at ").concat(file),
    }
}

/// What is done to remove a service of systemd.
pub open spec fn systemd_uninstall_plan(service: Seq<char>, file: Seq<char>) -> Seq<
    ServiceActionView,
> {
    let unit = service + ".service"@;
    seq![
        systemctl(seq!["stop"@, unit], OnFailure::Warn),
        systemctl(seq!["disable"@, unit], OnFailure::Warn),
        removal("systemd service file"@, file),
        systemctl(seq!["daemon-reload"@], OnFailure::Warn),
        systemctl(seq!["reset-failed"@, unit], OnFailure::Warn),
    ]
}

/// What is done to remove a service of systemd whose file stands at `file`.
pub fn uninstall_systemd_service(service_name: &str, file: &str) -> (actions: Vec<ServiceAction>)
    ensures
        service_views(actions@) == systemd_uninstall_plan(service_name@, file@),
{
    let unit = service_name.to_owned().concat(".service");
    let actions = vec![
        run_systemctl_user(two("stop", unit.as_str()), OnFailure::Warn),
        run_systemctl_user(two("disable", unit.as_str()), OnFailure::Warn),
        remove("systemd service file", file),
        run_systemctl_user(one("daemon-reload"), OnFailure::Warn),
        run_systemctl_user(two("reset-failed", unit.as_str()), OnFailure::Warn),
    ];
    assert(service_views(actions@) =~= systemd_uninstall_plan(service_name@, file@));
    actions
}

/// What is done to remove a service of launchd from a domain.
pub open spec fn launchd_unload_plan(
    service: Seq<char>,
    file: Seq<char>,
    domain: Seq<char>,
) -> Seq<ServiceActionView> {
    let target = domain + "/"@ + service;
    seq![
        launchctl(seq!["bootout"@, target], OnFailure::Warn),
        launchctl(seq!["bootout"@, domain, file], OnFailure::Warn),
        launchctl(seq!["disable"@, target], OnFailure::Warn),
        removal("launchd plist"@, file),
    ]
}

/// What is done to remove a service of launchd from a domain.
pub fn uninstall_launchd_service(service_name: &str, file: &str, domain: &str) -> (actions: Vec<
    ServiceAction,
>)
    ensures
        service_views(actions@) == launchd_unload_plan(service_name@, file@, domain@),
{
    let target = domain.to_owned().concat("/").concat(service_name);
    let actions = vec![
        run_launchctl(two("bootout", target.as_str()), OnFailure::Warn),
        run_launchctl(three("bootout", domain, file), OnFailure::Warn),
        run_launchctl(two("disable", target.as_str()), OnFailure::Warn),
        remove("launchd plist", file),
    ];
    assert(service_views(actions@) =~= launchd_unload_plan(service_name@, file@, domain@));
    actions
}

/// What is done to remove a task of Windows.
pub open spec fn windows_uninstall_plan(service: Seq<char>, file: Seq<char>) -> Seq<
    ServiceActionView,
> {
    seq![
        schtasks(
            seq!["/Delete"@, "/TN"@, service, "/F"@],
            "delete task "@ + service,
            OnFailure::Warn,
        ),
        removal("Windows task launcher"@, file),
    ]
}

/// What is done to remove a task of Windows whose script stands at `file`.
pub fn uninstall_windows_service(service_name: &str, file: &str) -> (actions: Vec<ServiceAction>)
    ensures
        service_views(actions@) == windows_uninstall_plan(service_name@, file@),
{
    let delete = vec![
        "/Delete".to_owned(),
        "/TN".to_owned(),
        service_name.to_owned(),
        "/F".to_owned(),
    ];
    assert(texts(delete@) =~= seq!["/Delete"@, "/TN"@, service_name@, "/F"@]);
    let actions = vec![
        run_schtasks(
            delete,
            "delete task ".to_owned().concat(service_name).as_str(),
            OnFailure::Warn,
        ),
        remove("Windows task launcher", file),
    ];
    assert(service_views(actions@) =~= windows_uninstall_plan(service_name@, file@));
    actions
}

/// Whether services are supported on a system.
pub open spec fn has_services(os: Seq<char>) -> bool {
    os == "linux"@ || os == "macos"@ || os == "windows"@
}

/// Whether a path is that of the file of a service.
pub open spec fn is_service_file(
    os: Seq<char>,
    service: Seq<char>,
    app_data: Option<Seq<char>>,
    home: Option<Seq<char>>,
    file: Seq<char>,
) -> bool {
    if os == "linux"@ {
        is_expanded(systemd_unit(service), home, file)
    } else if os == "macos"@ {
        is_expanded(launchd_agent(service), home, file)
    } else {
        is_script_path(service, app_data, home, file)
    }
}

/// Where the file of a service stands.
pub fn service_file(os: &str, service_name: &str, app_data: Option<&str>, home: Option<&str>) -> (
    file: String)
    ensures
        is_service_file(os@, service_name@, option_str(app_data), option_str(home), file@),
{
    if same_text(os, "linux") {
        systemd_unit_path(service_name, home)
    } else if same_text(os, "macos") {
        launchd_plist_path(service_name, home)
    } else {
        windows_task_script_path(service_name, app_data, home)
    }
}

/// Why a service cannot be installed or removed by this name on a system, if
/// it cannot.
pub open spec fn service_refusal(verb: Seq<char>, os: Seq<char>, service: Seq<char>) -> Option<
    Seq<char>,
> {
    if trimmed(service).len() == 0 {
        Some("--service-name must not be empty"@)
    } else if !has_services(os) {
        Some(verb + "-service is not supported on this operating system: "@ + os)
    } else {
        None
    }
}

/// Why a service cannot be installed or removed by this name on a system, if
/// it cannot.
fn refuse_service(verb: &str, os: &str, service_name: &str) -> (refusal: Option<String>)
    ensures
        option_text(refusal) == service_refusal(verb@, os@, service_name@),
{
    if is_blank(service_name) {
        return Some("--service-name must not be empty".to_owned());
    }
    if !same_text(os, "linux") && !same_text(os, "macos") && !same_text(os, "windows") {
        return Some(
            verb.to_owned().concat("-service is not supported on this operating system: ").concat(
                os,
            ),
        );
    }
    None
}

/// What is asked of the installation of a service.
#[derive(Debug)]
pub struct InstallServiceArgs {
    pub service_name: String,
    pub binary: Option<String>,
    pub repo: Vec<String>,
    pub enable: bool,
    pub start: bool,
}

/// What is done to install a service on a system that has services.
pub open spec fn install_plan(
    os: Seq<char>,
    service: Seq<char>,
    file: Seq<char>,
    args: Seq<Seq<char>>,
    enable: bool,
    start: bool,
) -> Seq<ServiceActionView> {
    if os == "linux"@ {
        systemd_install_plan(service, file, args, enable, start)
    } else if os == "macos"@ {
        launchd_install_plan(service, file, args, enable, start)
    } else {
        windows_install_plan(service, file, args, enable, start)
    }
}

/// Whether a plan installs a service that runs the program that was asked for
/// with the configuration that was asked for.
pub open spec fn installs(
    config_path: Seq<char>,
    args: InstallServiceArgs,
    os: Seq<char>,
    home: Option<Seq<char>>,
    file: Seq<char>,
    plan: Seq<ServiceActionView>,
) -> bool {
    exists|binary: Seq<char>, config: Seq<char>|
        #[trigger]
        is_binary_path(option_text(args.binary), os, home, binary) && #[trigger] is_expanded(
            config_path,
            home,
            config,
        ) && plan == install_plan(
            os,
            args.service_name@,
            file,
            program_line(binary, config, texts(args.repo@)),
            args.enable,
            args.start,
        )
}

/// What is done to install a service that runs the given program with the
/// given configuration, and whose file stands at `file`.
pub fn install_service_at(
    os: &str,
    file: &str,
    binary: &str,
    config: &str,
    args: &InstallServiceArgs,
) -> (actions: Vec<ServiceAction>)
    ensures
        service_views(actions@) == install_plan(
            os@,
            args.service_name@,
            file@,
            program_line(binary@, config@, texts(args.repo@)),
            args.enable,
            args.start,
        ),
{
    let program = build_program_args(binary, config, args.repo.as_slice());
    let service: &str = args.service_name.as_str();
    if same_text(os, "linux") {
        install_systemd_service(service, file, program.as_slice(), args.enable, args.start)
    } else if same_text(os, "macos") {
        install_launchd_service(service, file, program.as_slice(), args.enable, args.start)
    } else {
        install_windows_service(service, file, program.as_slice(), args.enable, args.start)
    }
}

/// What is done to install a service, and where its file stands, or why it
/// cannot be installed.
pub fn install_service(
    config_path: &str,
    args: &InstallServiceArgs,
    os: &str,
    app_data: Option<&str>,
    home: Option<&str>,
) -> (plan: Result<(String, Vec<ServiceAction>), String>)
    ensures
        match plan {
            Err(error) => service_refusal("install"@, os@, args.service_name@) == Some(error@),
            Ok((file, actions)) => {
                &&& service_refusal("install"@, os@, args.service_name@) is None
                &&& is_service_file(
                    os@,
                    args.service_name@,
                    option_str(app_data),
                    option_str(home),
                    file@,
                )
                &&& installs(
                    config_path@,
                    *args,
                    os@,
                    option_str(home),
                    file@,
                    service_views(actions@),
                )
            },
        },
{
    if let Some(error) = refuse_service("install", os, args.service_name.as_str()) {
        return Err(error);
    }
    let file = service_file(os, args.service_name.as_str(), app_data, home);
    let asked: Option<&str> = match &args.binary {
        Some(binary) => Some(binary.as_str()),
        None => None,
    };
    let binary = service_binary_path(asked, os, home);
    let config = expand_tilde(config_path, home);
    let actions = install_service_at(os, file.as_str(), binary.as_str(), config.as_str(), args);
    proof {
        assert(option_str(asked) == option_text(args.binary));
        assert(is_binary_path(option_text(args.binary), os@, option_str(home), binary@));
        assert(is_expanded(config_path@, option_str(home), config@));
    }
    Ok((file, actions))
}

/// What is done to remove a service on a system that has services.
pub open spec fn uninstall_plan(os: Seq<char>, service: Seq<char>, file: Seq<char>) -> Seq<
    ServiceActionView,
> {
    if os == "linux"@ {
        systemd_uninstall_plan(service, file)
    } else if os == "macos"@ {
        seq![ServiceActionView::UnloadLaunchd]
    } else {
        windows_uninstall_plan(service, file)
    }
}

/// What is done to remove a service whose file stands at `file`.
pub fn uninstall_service_at(os: &str, file: &str, service_name: &str) -> (actions: Vec<
    ServiceAction,
>)
    ensures
        service_views(actions@) == uninstall_plan(os@, service_name@, file@),
{
    if same_text(os, "linux") {
        uninstall_systemd_service(service_name, file)
    } else if same_text(os, "macos") {
        let actions = vec![ServiceAction::UnloadLaunchd];
        assert(service_views(actions@) =~= seq![ServiceActionView::UnloadLaunchd]);
        actions
    } else {
        uninstall_windows_service(service_name, file)
    }
}

/// What is done to remove a service, and where its file stands, or why it
/// cannot be removed.
pub fn uninstall_service(
    service_name: &str,
    os: &str,
    app_data: Option<&str>,
    home: Option<&str>,
) -> (plan: Result<(String, Vec<ServiceAction>), String>)
    ensures
        match plan {
            Err(error) => service_refusal("uninstall"@, os@, service_name@) == Some(error@),
            Ok((file, actions)) => {
                &&& service_refusal("uninstall"@, os@, service_name@) is None
                &&& is_service_file(
                    os@,
                    service_name@,
                    option_str(app_data),
                    option_str(home),
                    file@,
                )
                &&& service_views(actions@) == uninstall_plan(os@, service_name@, file@)
            },
        },
{
    if let Some(error) = refuse_service("uninstall", os, service_name) {
        return Err(error);
    }
    let file = service_file(os, service_name, app_data, home);
    let actions = uninstall_service_at(os, file.as_str(), service_name);
    Ok((file, actions))
}

/// The command that finds out the number of the user.
pub open spec fn domain_query() -> CommandView {
    plain_command("id"@, seq!["-u"@])
}

/// The command that finds out the number of the user.
pub fn domain_command() -> (spec: CommandSpec)
    ensures
        spec@ == domain_query(),
{
    command("id", one("-u"))
}

/// The domain of launchd, by what came of [`domain_query`].
pub open spec fn domain_of(outcome: CommandOutcome) -> Result<Seq<char>, Seq<char>> {
    match outcome {
        CommandOutcome::NotStarted { .. } => Err("failed to execute id -u"@),
        CommandOutcome::Exited { success, stdout, stderr, .. } => if !success {
            Err("id -u failed: "@ + printed(stderr@))
        } else if printed(stdout@).len() == 0 {
            Err("id -u returned an empty uid"@)
        } else {
            Ok("gui/"@ + printed(stdout@))
        },
    }
}

/// The domain of launchd, by what came of the query for it.
pub fn launchd_domain(outcome: &CommandOutcome) -> (domain: Result<String, String>)
    ensures
        match domain {
            Ok(domain) => domain_of(*outcome) == Ok::<Seq<char>, Seq<char>>(domain@),
            Err(error) => domain_of(*outcome) == Err::<Seq<char>, Seq<char>>(error@),
        },
{
    match outcome {
        CommandOutcome::NotStarted { .. } => Err("failed to execute id -u".to_owned()),
        CommandOutcome::Exited { success, stdout, stderr, .. } => {
            if !*success {
                return Err(
                    "id -u failed: ".to_owned().concat(printed_text(stderr.as_slice()).as_str()),
                );
            }
            let uid = printed_text(stdout.as_slice());
            if uid.as_str().is_empty() {
                return Err("id -u returned an empty uid".to_owned());
            }
            Ok("gui/".to_owned().concat(uid.as_str()))
        },
    }
}

/// The files that a plan writes or removes.
pub open spec fn touches_only(plan: Seq<ServiceActionView>, file: Seq<char>) -> bool {
    forall|i: int|
        0 <= i < plan.len() ==> match #[trigger] plan[i] {
            ServiceActionView::Write { path, .. } => path == file,
            ServiceActionView::Remove { path, .. } => path == file,
            _ => true,
        }
}

/// A service owns one file: it is all that its installation writes, and all
/// that its removal removes.
pub proof fn services_own_one_file(
    os: Seq<char>,
    service: Seq<char>,
    file: Seq<char>,
    args: Seq<Seq<char>>,
    domain: Seq<char>,
    enable: bool,
    start: bool,
)
    ensures
        touches_only(install_plan(os, service, file, args, enable, start), file),
        touches_only(launchd_load_plan(service, file, domain, enable, start), file),
        touches_only(uninstall_plan(os, service, file), file),
        touches_only(launchd_unload_plan(service, file, domain), file),
{
}

/// The file of a service is written before anything is told to use it.
pub proof fn files_are_written_first(
    os: Seq<char>,
    service: Seq<char>,
    file: Seq<char>,
    args: Seq<Seq<char>>,
    enable: bool,
    start: bool,
)
    ensures
        ({
            let plan = install_plan(os, service, file, args, enable, start);
            &&& plan.len() >= 3
            &&& plan[0] == (ServiceActionView::CreateParent { path: file })
            &&& plan[1] is Write
            &&& plan[2] is Say
        }),
{
}

/// Nothing is started or enabled on Linux and macOS unless that was asked for.
pub proof fn services_are_not_started_unasked(
    os: Seq<char>,
    service: Seq<char>,
    file: Seq<char>,
    args: Seq<Seq<char>>,
)
    requires
        os == "linux"@ || os == "macos"@,
    ensures
        install_plan(os, service, file, args, false, false).len() == 3,
{
}

/// The removal of a service goes on whatever comes of its commands.
pub proof fn removals_go_on(
    os: Seq<char>,
    service: Seq<char>,
    file: Seq<char>,
    domain: Seq<char>,
    i: int,
    outcome: CommandOutcome,
)
    ensures
        ({
            let plan = if os == "macos"@ {
                launchd_unload_plan(service, file, domain)
            } else {
                uninstall_plan(os, service, file)
            };
            0 <= i < plan.len() ==> match plan[i] {
                ServiceActionView::Run { what, on_failure, .. } => !(service_verdict(
                    what,
                    on_failure,
                    outcome,
                ) is Failed),
                _ => true,
            }
        }),
{
}

/// Whether an action runs a program with some arguments.
pub open spec fn is_run(
    action: ServiceActionView,
    program: Seq<char>,
    args: Seq<Seq<char>>,
) -> bool {
    action matches ServiceActionView::Run { command, .. } && command.program == program
        && command.args == args
}

/// Whether a plan runs a program with some arguments.
pub open spec fn runs(
    plan: Seq<ServiceActionView>,
    program: Seq<char>,
    args: Seq<Seq<char>>,
) -> bool {
    exists|i: int| 0 <= i < plan.len() && is_run(#[trigger] plan[i], program, args)
}

/// The command line of a service is the program, the configuration behind its
/// option, and each repository behind another.
pub proof fn services_run_what_was_asked(
    binary: Seq<char>,
    config: Seq<char>,
    repos: Seq<Seq<char>>,
    i: int,
)
    ensures
        ({
            let line = program_line(binary, config, repos);
            &&& line.len() == 3 + 2 * repos.len()
            &&& line[0] == binary
            &&& line[1] == "--config"@
            &&& line[2] == config
            &&& 0 <= i < repos.len() ==> line[3 + 2 * i] == "--repo"@
            &&& 0 <= i < repos.len() ==> line[4 + 2 * i] == repos[i]
        }),
{
    lemma_filters(repos, i);
    let line = program_line(binary, config, repos);
    if 0 <= i < repos.len() {
        assert(line[3 + 2 * i] == repo_filters(repos)[2 * i]);
        assert(line[4 + 2 * i] == repo_filters(repos)[2 * i + 1]);
    }
}

proof fn lemma_filters(repos: Seq<Seq<char>>, i: int)
    ensures
        repo_filters(repos).len() == 2 * repos.len(),
        0 <= i < repos.len() ==> repo_filters(repos)[2 * i] == "--repo"@,
        0 <= i < repos.len() ==> repo_filters(repos)[2 * i + 1] == repos[i],
    decreases repos.len(),
{
    if repos.len() > 0 {
        let rest = repos.drop_last();
        lemma_filters(rest, i);
        let all = repo_filters(repos);
        if 0 <= i < rest.len() {
            assert(rest[i] == repos[i]);
            assert(all[2 * i] == repo_filters(rest)[2 * i]);
            assert(all[2 * i + 1] == repo_filters(rest)[2 * i + 1]);
        }
    }
}

/// The file of a service holds its command line: the arguments one after the
/// other, each so that it is read as one.
pub proof fn files_hold_the_command_line(label: Seq<char>, args: Seq<Seq<char>>, i: int)
    requires
        0 <= i < args.len(),
    ensures
        holds(systemd_service(args), systemd_arg(args[i])),
        holds(launchd_plist(label, args), plist_arg(args[i])),
        holds(launchd_plist(label, args), escaped(Escape::Xml, label)),
        holds(windows_script(args), windows_arg(args[i])),
        holds(
            systemd_service(args),
            "ExecStart="@ + joined(args.map_values(|arg: Seq<char>| systemd_arg(arg)), " "@)
                + "\n"@,
        ),
{
    let a = args.map_values(|arg: Seq<char>| systemd_arg(arg));
    let b = args.map_values(|arg: Seq<char>| plist_arg(arg));
    let c = args.map_values(|arg: Seq<char>| windows_arg(arg));
    lemma_joined_holds(a, " "@, i);
    lemma_joined_holds(b, "\n"@, i);
    lemma_joined_holds(c, " "@, i);
    let head =
        "[Unit]\nDescription=Repo Auto Puller\nAfter=network-online.target\nWants=network-online.target\n\n[Service]\nType=simple\nExecStart="@;
    let tail = "\nRestart=always\nRestartSec=10\n\n[Install]\nWantedBy=default.target\n"@;
    lemma_holds_inside(head, joined(a, " "@), systemd_arg(args[i]), tail);
    let start = PLIST_START@ + escaped(Escape::Xml, label) + PLIST_MIDDLE@;
    lemma_holds_inside(start, joined(b, "\n"@), plist_arg(args[i]), PLIST_END@);
    lemma_holds_end(PLIST_START@, escaped(Escape::Xml, label));
    let text = launchd_plist(label, args);
    let rest = PLIST_MIDDLE@ + joined(b, "\n"@) + PLIST_END@;
    assert(text =~= PLIST_START@ + escaped(Escape::Xml, label) + rest);
    assert(is_around(text, PLIST_START@, escaped(Escape::Xml, label), rest));
    lemma_holds_inside("@echo off\r\n"@, joined(c, " "@), windows_arg(args[i]), "\r\n"@);
    reveal_strlit(
        "[Unit]\nDescription=Repo Auto Puller\nAfter=network-online.target\nWants=network-online.target\n\n[Service]\nType=simple\nExecStart=",
    );
    reveal_strlit("ExecStart=");
    reveal_strlit("\n");
    reveal_strlit("\nRestart=always\nRestartSec=10\n\n[Install]\nWantedBy=default.target\n");
    let n = head.len() - 10;
    assert("ExecStart="@ =~= head.skip(n));
    assert("\n"@ =~= tail.take(1));
    let part = "ExecStart="@ + joined(a, " "@) + "\n"@;
    assert(systemd_service(args) =~= head.take(n) + part + tail.skip(1));
    assert(is_around(systemd_service(args), head.take(n), part, tail.skip(1)));
}

proof fn lemma_holds_inside(
    head: Seq<char>,
    text: Seq<char>,
    part: Seq<char>,
    tail: Seq<char>,
)
    requires
        holds(text, part),
    ensures
        holds(head + text + tail, part),
{
    let (before, after) = choose|before: Seq<char>, after: Seq<char>|
        is_around(text, before, part, after);
    assert(head + text + tail =~= (head + before) + part + (after + tail));
    assert(is_around(head + text + tail, head + before, part, after + tail));
}

proof fn lemma_joined_holds(list: Seq<Seq<char>>, sep: Seq<char>, i: int)
    requires
        0 <= i < list.len(),
    ensures
        holds(joined(list, sep), list[i]),
    decreases list.len(),
{
    let none = Seq::<char>::empty();
    if list.len() == 1 {
        assert(list[0] =~= none + list[0] + none);
        assert(is_around(list[0], none, list[0], none));
    } else if i == list.len() - 1 {
        lemma_holds_end(joined(list.drop_last(), sep) + sep, list.last());
    } else {
        lemma_joined_holds(list.drop_last(), sep, i);
        assert(list.drop_last()[i] == list[i]);
        lemma_holds_more(joined(list.drop_last(), sep), list[i], sep);
        lemma_holds_more(joined(list.drop_last(), sep) + sep, list[i], list.last());
    }
}

/// The file that is written for a service is the one of its system, at its
/// place, with its command line.
pub proof fn the_right_file_is_written(
    os: Seq<char>,
    service: Seq<char>,
    file: Seq<char>,
    args: Seq<Seq<char>>,
    enable: bool,
    start: bool,
)
    ensures
        install_plan(os, service, file, args, enable, start)[1] matches ServiceActionView::Write {
            path,
            text,
        } && {
            &&& path == file
            &&& text == if os == "linux"@ {
                systemd_service(args)
            } else if os == "macos"@ {
                launchd_plist(service, args)
            } else {
                windows_script(args)
            }
        },
        install_plan(os, service, file, args, enable, start)[2] matches ServiceActionView::Say {
            line,
        } && file.is_suffix_of(line),
{
    let a = "Wrote systemd service file: "@ + file;
    let b = "Wrote launchd plist: "@ + file;
    let c = "Wrote Windows task launcher: "@ + file;
    assert(file =~= a.subrange(a.len() - file.len(), a.len() as int));
    assert(file =~= b.subrange(b.len() - file.len(), b.len() as int));
    assert(file =~= c.subrange(c.len() - file.len(), c.len() as int));
}

/// On Linux a service is enabled exactly if that was asked for, and started
/// exactly if that was, and systemd reads its file again before either.
pub proof fn systemd_does_what_was_asked(
    service: Seq<char>,
    file: Seq<char>,
    args: Seq<Seq<char>>,
    enable: bool,
    start: bool,
)
    ensures
        ({
            let plan = install_plan("linux"@, service, file, args, enable, start);
            let unit = service + ".service"@;
            &&& runs(plan, "systemctl"@, seq!["--user"@, "enable"@, unit]) <==> enable
            &&& runs(plan, "systemctl"@, seq!["--user"@, "start"@, unit]) <==> start
            &&& enable || start ==> plan.len() > 3 && is_run(
                plan[3],
                "systemctl"@,
                seq!["--user"@, "daemon-reload"@],
            )
            &&& forall|i: int|
                0 <= i < plan.len() ==> (#[trigger] plan[i] matches ServiceActionView::Run {
                    on_failure,
                    ..
                } ==> on_failure == OnFailure::Fail)
        }),
{
    let plan = install_plan("linux"@, service, file, args, enable, start);
    let unit = service + ".service"@;
    let enabling = seq!["--user"@, "enable"@, unit];
    let starting = seq!["--user"@, "start"@, unit];
    reveal_strlit("enable");
    reveal_strlit("start");
    reveal_strlit("daemon-reload");
    assert("enable"@.len() == 6 && "start"@.len() == 5 && "daemon-reload"@.len() == 13);
    assert(seq!["--user"@] + seq!["enable"@, unit] =~= enabling);
    assert(seq!["--user"@] + seq!["start"@, unit] =~= starting);
    assert(seq!["--user"@] + seq!["daemon-reload"@] =~= seq!["--user"@, "daemon-reload"@]);
    assert(enabling[1] == "enable"@ && starting[1] == "start"@);
    assert((seq!["--user"@, "daemon-reload"@])[1] == "daemon-reload"@);
    if enable {
        assert(is_run(plan[4], "systemctl"@, enabling));
    }
    if start {
        assert(is_run(plan[plan.len() - 1], "systemctl"@, starting));
    }
}

/// On macOS a service is loaded from its file exactly if it is to be enabled or
/// started, after what was loaded before is unloaded, and is then enabled and
/// started exactly as was asked.
pub proof fn launchd_does_what_was_asked(
    service: Seq<char>,
    file: Seq<char>,
    args: Seq<Seq<char>>,
    domain: Seq<char>,
    enable: bool,
    start: bool,
)
    ensures
        ({
            let plan = install_plan("macos"@, service, file, args, enable, start);
            let loading = launchd_load_plan(service, file, domain, enable, start);
            let target = domain + "/"@ + service;
            &&& plan.last() is LoadLaunchd <==> enable || start
            &&& loading.len() >= 3
            &&& is_run(loading[0], "launchctl"@, seq!["bootout"@, target])
            &&& is_run(loading[2], "launchctl"@, seq!["bootstrap"@, domain, file])
            &&& runs(loading, "launchctl"@, seq!["enable"@, target]) <==> enable
            &&& runs(loading, "launchctl"@, seq!["kickstart"@, "-k"@, target]) <==> start
        }),
{
    reveal_strlit("linux");
    reveal_strlit("macos");
    assert("linux"@[0] == 'l' && "macos"@[0] == 'm');
    let loading = launchd_load_plan(service, file, domain, enable, start);
    let target = domain + "/"@ + service;
    let enabling = seq!["enable"@, target];
    let starting = seq!["kickstart"@, "-k"@, target];
    reveal_strlit("enable");
    reveal_strlit("kickstart");
    reveal_strlit("bootout");
    reveal_strlit("bootstrap");
    assert("enable"@.len() == 6 && "kickstart"@.len() == 9);
    assert("bootout"@.len() == 7 && "bootstrap"@.len() == 9);
    assert("kickstart"@[0] == 'k' && "bootstrap"@[0] == 'b');
    assert(enabling[0] == "enable"@ && starting[0] == "kickstart"@);
    assert((seq!["bootout"@, target])[0] == "bootout"@);
    assert((seq!["bootout"@, domain, file])[0] == "bootout"@);
    assert((seq!["bootstrap"@, domain, file])[0] == "bootstrap"@);
    if enable {
        assert(is_run(loading[3], "launchctl"@, enabling));
    }
    if start {
        assert(is_run(loading[loading.len() - 1], "launchctl"@, starting));
    }
}

/// On Windows a task that runs the script at logon is made, is enabled or
/// disabled as was asked, and is run at once exactly if that was asked for.
pub proof fn windows_does_what_was_asked(
    service: Seq<char>,
    file: Seq<char>,
    args: Seq<Seq<char>>,
    enable: bool,
    start: bool,
)
    ensures
        ({
            let plan = install_plan("windows"@, service, file, args, enable, start);
            &&& plan.len() >= 5
            &&& plan[3] matches ServiceActionView::Run { command, .. } && {
                &&& command.program == "schtasks"@
                &&& command.args.len() == 10 && command.args[0] == "/Create"@
                &&& command.args[2] == service && command.args[4] == "ONLOGON"@
                &&& command.args[8] == file
            }
            &&& is_run(
                plan[4],
                "schtasks"@,
                seq![
                    "/Change"@,
                    "/TN"@,
                    service,
                    if enable {
                        "/ENABLE"@
                    } else {
                        "/DISABLE"@
                    },
                ],
            )
            &&& plan.len() == 6 <==> start
            &&& start ==> is_run(plan[5], "schtasks"@, seq!["/Run"@, "/TN"@, service])
        }),
{
    reveal_strlit("linux");
    reveal_strlit("macos");
    reveal_strlit("windows");
    assert("linux"@.len() == 5 && "macos"@.len() == 5 && "windows"@.len() == 7);
}

/// A service is stopped and disabled before its file is removed, and its file is
/// removed.
pub proof fn services_are_removed(
    service: Seq<char>,
    file: Seq<char>,
    domain: Seq<char>,
)
    ensures
        ({
            let plan = uninstall_plan("linux"@, service, file);
            let unit = service + ".service"@;
            &&& plan.len() == 5
            &&& is_run(plan[0], "systemctl"@, seq!["--user"@, "stop"@, unit])
            &&& is_run(plan[1], "systemctl"@, seq!["--user"@, "disable"@, unit])
            &&& plan[2] matches ServiceActionView::Remove { path, .. } && path == file
            &&& is_run(plan[3], "systemctl"@, seq!["--user"@, "daemon-reload"@])
        }),
        ({
            let plan = launchd_unload_plan(service, file, domain);
            let target = domain + "/"@ + service;
            &&& plan.len() == 4
            &&& is_run(plan[0], "launchctl"@, seq!["bootout"@, target])
            &&& is_run(plan[2], "launchctl"@, seq!["disable"@, target])
            &&& plan[3] matches ServiceActionView::Remove { path, .. } && path == file
        }),
        uninstall_plan("macos"@, service, file) == seq![ServiceActionView::UnloadLaunchd],
        ({
            let plan = uninstall_plan("windows"@, service, file);
            &&& plan.len() == 2
            &&& is_run(plan[0], "schtasks"@, seq!["/Delete"@, "/TN"@, service, "/F"@])
            &&& plan[1] matches ServiceActionView::Remove { path, .. } && path == file
        }),
{
    reveal_strlit("linux");
    reveal_strlit("macos");
    reveal_strlit("windows");
    assert("linux"@[0] == 'l' && "macos"@[0] == 'm' && "windows"@[0] == 'w');
    let unit = service + ".service"@;
    assert(seq!["--user"@] + seq!["stop"@, unit] =~= seq!["--user"@, "stop"@, unit]);
    assert(seq!["--user"@] + seq!["disable"@, unit] =~= seq!["--user"@, "disable"@, unit]);
    assert(seq!["--user"@] + seq!["daemon-reload"@] =~= seq!["--user"@, "daemon-reload"@]);
}

/// The removal of a file says where it was, found or not, and says the one
/// otherwise than the other.
pub proof fn removals_are_told(kind: Seq<char>, file: Seq<char>)
    ensures
        removal(kind, file) matches ServiceActionView::Remove { path, removed, missing } && {
            &&& path == file
            &&& file.is_suffix_of(removed)
            &&& file.is_suffix_of(missing)
            &&& "Removed "@.is_prefix_of(removed)
            &&& "No "@.is_prefix_of(missing)
        },
{
    let a = "Removed "@ + kind + ": "@ + file;
    let b = "No "@ + kind + " found at "@ + file;
    assert(file =~= a.subrange(a.len() - file.len(), a.len() as int));
    assert(file =~= b.subrange(b.len() - file.len(), b.len() as int));
    assert("Removed "@ =~= a.subrange(0, "Removed "@.len() as int));
    assert("No "@ =~= b.subrange(0, "No "@.len() as int));
}

/// A command that succeeded is no more than done; one that did not, or could not
/// be run, is an error exactly where it has to succeed, with what it said, and a
/// warning exactly where that is asked for.
pub proof fn verdicts_are_as_strict_as_asked(
    what: Seq<char>,
    on_failure: OnFailure,
    outcome: CommandOutcome,
)
    ensures
        ({
            let step = service_verdict(what, on_failure, outcome);
            let well = outcome matches CommandOutcome::Exited { success, .. } && success;
            &&& step is Done <==> well || on_failure == OnFailure::Ignore
            &&& step is Warn <==> !well && on_failure == OnFailure::Warn
            &&& step is Failed <==> !well && (on_failure == OnFailure::Fail || on_failure
                == OnFailure::FailInDetail)
            &&& !well ==> (outcome matches CommandOutcome::Exited { stderr, .. } ==> {
                &&& step matches CommandStepView::Failed(text) ==> what.is_prefix_of(text)
                &&& printed(stderr@).len() > 0 ==> {
                    &&& step matches CommandStepView::Failed(text) ==> printed(
                        stderr@,
                    ).is_suffix_of(text)
                    &&& step matches CommandStepView::Warn(text) ==> printed(
                        stderr@,
                    ).is_suffix_of(text)
                }
            })
        }),
{
    let step = service_verdict(what, on_failure, outcome);
    if let CommandOutcome::Exited { stderr, .. } = outcome {
        let said = printed(stderr@);
        if let CommandStepView::Failed(text) = step {
            assert(what =~= text.subrange(0, what.len() as int));
            if said.len() > 0 {
                assert(said =~= text.subrange(text.len() - said.len(), text.len() as int));
            }
        }
        if let CommandStepView::Warn(text) = step {
            if said.len() > 0 {
                assert(said =~= text.subrange(text.len() - said.len(), text.len() as int));
            }
        }
    }
}

/// A service is refused exactly if its name is blank or the system has none, and
/// the words name the system in the latter case.
pub proof fn only_services_are_accepted(verb: Seq<char>, os: Seq<char>, service: Seq<char>)
    ensures
        service_refusal(verb, os, service) is None <==> !all_white(service) && (os == "linux"@ || os
            == "macos"@ || os == "windows"@),
        !all_white(service) ==> (service_refusal(verb, os, service) matches Some(text) ==> {
            verb.is_prefix_of(text) && os.is_suffix_of(text)
        }),
{
    blank_texts_are_white(service);
    let text = verb + "-service is not supported on this operating system: "@ + os;
    assert(verb =~= text.subrange(0, verb.len() as int));
    assert(os =~= text.subrange(text.len() - os.len(), text.len() as int));
}

/// The domain of launchd is that of the user whose number was found out, and
/// there is none where it was not.
pub proof fn domains_are_those_of_users(outcome: CommandOutcome)
    ensures
        domain_of(outcome) matches Ok(domain) ==> {
            outcome matches CommandOutcome::Exited { success, stdout, .. } && success && printed(
                stdout@,
            ).len() > 0 && domain == "gui/"@ + printed(stdout@)
        },
        domain_of(outcome) is Err <==> !(outcome matches CommandOutcome::Exited {
            success,
            stdout,
            ..
        } && success && printed(stdout@).len() > 0),
{
}

/// The file of a service is named after it, in the directory for such files
/// below the home directory.
pub proof fn files_are_named_after_services(service: Seq<char>)
    ensures
        "~/"@.is_prefix_of(systemd_unit(service)),
        "~/"@.is_prefix_of(launchd_agent(service)),
        ("/systemd/user/"@ + service + ".service"@).is_suffix_of(systemd_unit(service)),
        ("/LaunchAgents/"@ + service + ".plist"@).is_suffix_of(launchd_agent(service)),
{
    reveal_strlit("~/");
    reveal_strlit("~/.config/systemd/user/");
    reveal_strlit("~/Library/LaunchAgents/");
    reveal_strlit("/systemd/user/");
    reveal_strlit("/LaunchAgents/");
    let a = systemd_unit(service);
    let b = launchd_agent(service);
    assert("~/"@ =~= a.subrange(0, 2));
    assert("~/"@ =~= b.subrange(0, 2));
    let c = "/systemd/user/"@ + service + ".service"@;
    let d = "/LaunchAgents/"@ + service + ".plist"@;
    assert(c =~= a.subrange(a.len() - c.len(), a.len() as int));
    assert(d =~= b.subrange(b.len() - d.len(), b.len() as int));
}

proof fn lemma_joined_below(base: Seq<char>, tail: Seq<char>, path: Seq<char>)
    requires
        is_joined(base, tail, path),
        base.len() >= 2,
        !may_divide(base[1]),
        is_relative(tail),
    ensures
        base.is_prefix_of(path),
        tail.is_suffix_of(path),
        path.len() >= 2,
        !may_divide(path[1]),
{
    assert(base =~= path.subrange(0, base.len() as int));
    assert(path[1] == path.subrange(0, base.len() as int)[1]);
}

/// The script of a service on Windows is named after it, below the directory for
/// application data where that is known, whatever the home directory is, and
/// below the home directory where only that is known.
pub proof fn scripts_are_named_after_services(
    service: Seq<char>,
    app_data: Option<Seq<char>>,
    home: Option<Seq<char>>,
    path: Seq<char>,
)
    requires
        is_script_path(service, app_data, home, path),
        service.len() >= 1,
        service[0] != '/' && service[0] != '\\',
        service.len() >= 2 ==> service[1] != ':',
    ensures
        app_data matches Some(base) ==> (base.len() >= 2 && base[1] != '/' && base[1] != '\\' ==> {
            &&& base.is_prefix_of(path)
            &&& (service + ".cmd"@).is_suffix_of(path)
        }),
        app_data is None ==> (home matches Some(base) ==> (base.len() >= 2 && base[1] != '/'
            && base[1] != '\\' ==> {
            &&& base.is_prefix_of(path)
            &&& (service + ".cmd"@).is_suffix_of(path)
        })),
        app_data is None && home is None ==> path == "~/AppData/Roaming/repo-auto-puller/"@
            + service + ".cmd"@,
{
    reveal_strlit("repo-auto-puller");
    reveal_strlit("AppData/Roaming");
    reveal_strlit(".cmd");
    let name = service + ".cmd"@;
    assert(name[0] == service[0]);
    assert(service.len() >= 2 ==> name[1] == service[1]);
    assert(service.len() == 1 ==> name[1] == '.');
    let known = match app_data {
        Some(base) => Some(base),
        None => home,
    };
    if let Some(below) = known {
        if below.len() >= 2 && !may_divide(below[1]) {
            let base = match app_data {
                Some(base) => base,
                None => choose|base: Seq<char>| #[trigger]
                    is_joined(below, "AppData/Roaming"@, base) && is_script_below(
                        base,
                        service,
                        path,
                    ),
            };
            if app_data is None {
                lemma_joined_below(below, "AppData/Roaming"@, base);
            }
            let directory = choose|directory: Seq<char>| #[trigger]
                is_joined(base, "repo-auto-puller"@, directory) && is_joined(directory, name, path);
            lemma_joined_below(base, "repo-auto-puller"@, directory);
            lemma_joined_below(directory, name, path);
            assert(base =~= path.subrange(0, base.len() as int)) by {
                assert(directory =~= path.subrange(0, directory.len() as int));
                assert(base =~= directory.subrange(0, base.len() as int));
                assert forall|i: int| 0 <= i < base.len() implies base[i] == path[i] by {
                    assert(base[i] == directory[i]);
                    assert(directory[i] == path[i]);
                }
            }
            assert(below =~= path.subrange(0, below.len() as int)) by {
                assert(below =~= base.subrange(0, below.len() as int));
                assert forall|i: int| 0 <= i < below.len() implies below[i] == path[i] by {
                    assert(below[i] == base.subrange(0, below.len() as int)[i]);
                    assert(base[i] == path.subrange(0, base.len() as int)[i]);
                }
            }
        }
    }
}

} // verus!
