//! The diagnosis of an installation: the configuration, the service and the
//! repositories.

use crate::command::{command, plain_command, CommandSpec, CommandView};
use crate::outcome::{printed, printed_text, CommandOutcome};
use crate::repo::copy_list;
use crate::service::{domain_command, domain_of, domain_query, first_said, launchd_domain};
use crate::status::{
    finding_views, state_lines, state_text, Found, FoundView, RepoFinding, RepoFindingView,
};
use crate::text::{decimal, decimal_text, holds, is_around, same_text, texts};
use vstd::prelude::*;

verus! {

/// What was learnt by running a command.
#[derive(Debug)]
pub struct CommandProbe {
    pub ok: bool,
    pub detail: String,
}

/// What is learnt from the outcome of a command: whether it succeeded, and
/// what it printed, what it complained of, or how it ended.
pub open spec fn probed(display_name: Seq<char>, outcome: CommandOutcome) -> (bool, Seq<char>) {
    match outcome {
        CommandOutcome::NotStarted { reason } => (
            false,
            "failed to execute "@ + display_name + ": "@ + reason@,
        ),
        CommandOutcome::Exited { success, status, stdout, stderr } => if success {
            (true, first_said(printed(stdout@), Seq::empty(), "ok"@))
        } else {
            (
                false,
                first_said(
                    printed(stderr@),
                    printed(stdout@),
                    display_name + " exited with status "@ + status@,
                ),
            )
        },
    }
}

/// What is learnt from the outcome of a command.
pub fn command_probe(display_name: &str, outcome: &CommandOutcome) -> (probe: CommandProbe)
    ensures
        (probe.ok, probe.detail@) == probed(display_name@, *outcome),
{
    match outcome {
        CommandOutcome::NotStarted { reason } => CommandProbe {
            ok: false,
            detail: "failed to execute ".to_owned().concat(display_name).concat(": ").concat(
                reason.as_str(),
            ),
        },
        CommandOutcome::Exited { success, status, stdout, stderr } => {
            let shown = printed_text(stdout.as_slice());
            if *success {
                let detail = if shown.as_str().is_empty() {
                    "ok".to_owned()
                } else {
                    shown
                };
                return CommandProbe { ok: true, detail };
            }
            let said = printed_text(stderr.as_slice());
            let detail = if !said.as_str().is_empty() {
                said
            } else if !shown.as_str().is_empty() {
                shown
            } else {
                display_name.to_owned().concat(" exited with status ").concat(status.as_str())
            };
            CommandProbe { ok: false, detail }
        },
    }
}

/// The line that shows one check.
pub open spec fn check_line(label: Seq<char>, ok: bool, detail: Seq<char>) -> Seq<char> {
    let verdict = if ok {
        "ok"@
    } else {
        "issue"@
    };
    "  "@ + label + ": "@ + verdict + " ("@ + detail + ")"@
}

/// The line that shows one check.
pub fn doctor_check(label: &str, ok: bool, detail: &str) -> (line: String)
    ensures
        line@ == check_line(label@, ok, detail@),
{
    let verdict: &str = if ok {
        "ok"
    } else {
        "issue"
    };
    "  ".to_owned().concat(label).concat(": ").concat(verdict).concat(" (").concat(detail).concat(
        ")",
    )
}

/// The line that shows what was learnt by running a command.
pub open spec fn probe_line(label: Seq<char>, probe: (bool, Seq<char>)) -> Seq<char> {
    check_line(label, probe.0, probe.1)
}

/// What is said of something that was checked, and whether anything is wrong with
/// it.
#[derive(Debug)]
pub struct CheckReport {
    pub lines: Vec<String>,
    pub issues: bool,
}

/// What to do next in order to diagnose the service.
#[derive(Debug)]
pub enum ServiceStep {
    /// Run a command, and go on with what comes of it.
    Run(CommandSpec),
    /// The diagnosis is done.
    Done(CheckReport),
}

/// What a [`ServiceStep`] says.
#[verifier::ext_equal]
pub enum ServiceStepView {
    Run(CommandView),
    Done { lines: Seq<Seq<char>>, issues: bool },
}

impl View for ServiceStep {
    type V = ServiceStepView;

    open spec fn view(&self) -> ServiceStepView {
        match self {
            ServiceStep::Run(spec) => ServiceStepView::Run(spec@),
            ServiceStep::Done(report) => ServiceStepView::Done {
                lines: texts(report.lines@),
                issues: report.issues,
            },
        }
    }
}

/// How a service of systemd is diagnosed, after the given outcomes: its file
/// must be there, and it must be enabled and active.
pub open spec fn systemd_step(
    service: Seq<char>,
    file: Seq<char>,
    defined: bool,
    outcomes: Seq<CommandOutcome>,
) -> ServiceStepView {
    let unit = service + ".service"@;
    if outcomes.len() == 0 {
        ServiceStepView::Run(
            plain_command("systemctl"@, seq!["--user"@, "is-enabled"@, unit]),
        )
    } else if outcomes.len() == 1 {
        ServiceStepView::Run(plain_command("systemctl"@, seq!["--user"@, "is-active"@, unit]))
    } else {
        let enabled = probed("systemctl --user is-enabled"@, outcomes[0]);
        let active = probed("systemctl --user is-active"@, outcomes[1]);
        ServiceStepView::Done {
            lines: seq![
                "Service:"@,
                "  manager: systemd --user"@,
                check_line("definition"@, defined, file),
                probe_line("enabled"@, enabled),
                probe_line("active"@, active),
            ],
            issues: !(defined && enabled.0 && active.0),
        }
    }
}

/// How a service of launchd is diagnosed, after the given outcomes: its file
/// must be there, and it must be loaded.
pub open spec fn launchd_step(
    service: Seq<char>,
    file: Seq<char>,
    defined: bool,
    outcomes: Seq<CommandOutcome>,
) -> ServiceStepView {
    if outcomes.len() == 0 {
        ServiceStepView::Run(domain_query())
    } else {
        match domain_of(outcomes[0]) {
            Err(error) => ServiceStepView::Done {
                lines: seq![
                    "Service:"@,
                    "  manager: launchd"@,
                    check_line("definition"@, defined, file),
                    check_line("loaded"@, false, error),
                ],
                issues: true,
            },
            Ok(domain) => if outcomes.len() == 1 {
                ServiceStepView::Run(
                    plain_command("launchctl"@, seq!["print"@, domain + "/"@ + service]),
                )
            } else {
                let loaded = probed("launchctl print"@, outcomes[1]);
                ServiceStepView::Done {
                    lines: seq![
                        "Service:"@,
                        "  manager: launchd"@,
                        check_line("definition"@, defined, file),
                        probe_line("loaded"@, loaded),
                    ],
                    issues: !(defined && loaded.0),
                }
            },
        }
    }
}

/// How a task of Windows is diagnosed, after the given outcomes: its script
/// must be there, and it must be registered.
pub open spec fn windows_step(
    service: Seq<char>,
    file: Seq<char>,
    defined: bool,
    outcomes: Seq<CommandOutcome>,
) -> ServiceStepView {
    if outcomes.len() == 0 {
        ServiceStepView::Run(plain_command("schtasks"@, seq!["/Query"@, "/TN"@, service]))
    } else {
        let registered = probed("schtasks /Query"@, outcomes[0]);
        ServiceStepView::Done {
            lines: seq![
                "Service:"@,
                "  manager: Task Scheduler"@,
                check_line("definition"@, defined, file),
                probe_line("registered"@, registered),
            ],
            issues: !(defined && registered.0),
        }
    }
}

/// How a service is diagnosed on a system, after the given outcomes.
pub open spec fn service_step(
    os: Seq<char>,
    service: Seq<char>,
    file: Seq<char>,
    defined: bool,
    outcomes: Seq<CommandOutcome>,
) -> ServiceStepView {
    if os == "linux"@ {
        systemd_step(service, file, defined, outcomes)
    } else if os == "macos"@ {
        launchd_step(service, file, defined, outcomes)
    } else if os == "windows"@ {
        windows_step(service, file, defined, outcomes)
    } else {
        ServiceStepView::Done {
            lines: seq![
                "Service:"@,
                "  manager: unsupported"@,
                check_line(
                    "manager"@,
                    false,
                    "doctor does not support service diagnostics on "@ + os,
                ),
            ],
            issues: true,
        }
    }
}

/// The first three lines on a service.
fn service_head(manager: &str, file: &str, defined: bool) -> (lines: Vec<String>)
    ensures
        texts(lines@) == seq!["Service:"@, manager@, check_line("definition"@, defined, file@)],
{
    let lines = vec![
        "Service:".to_owned(),
        manager.to_owned(),
        doctor_check("definition", defined, file),
    ];
    assert(texts(lines@) =~= seq![
        "Service:"@,
        manager@,
        check_line("definition"@, defined, file@),
    ]);
    lines
}

/// Diagnoses a service of systemd.
fn doctor_systemd(service_name: &str, file: &str, defined: bool, outcomes: &[CommandOutcome]) -> (
    step: ServiceStep)
    ensures
        step@ == systemd_step(service_name@, file@, defined, outcomes@),
{
    let unit = service_name.to_owned().concat(".service");
    if outcomes.len() < 2 {
        let verb: &str = if outcomes.len() == 0 {
            "is-enabled"
        } else {
            "is-active"
        };
        let args = vec!["--user".to_owned(), verb.to_owned(), unit];
        assert(texts(args@) =~= seq!["--user"@, verb@, service_name@ + ".service"@]);
        return ServiceStep::Run(command("systemctl", args));
    }
    let enabled = command_probe("systemctl --user is-enabled", &outcomes[0]);
    let active = command_probe("systemctl --user is-active", &outcomes[1]);
    let mut lines = service_head("  manager: systemd --user", file, defined);
    let ghost head = texts(lines@);
    lines.push(doctor_check("enabled", enabled.ok, enabled.detail.as_str()));
    lines.push(doctor_check("active", active.ok, active.detail.as_str()));
    assert(texts(lines@) =~= head.push(
        probe_line("enabled"@, probed("systemctl --user is-enabled"@, outcomes@[0])),
    ).push(probe_line("active"@, probed("systemctl --user is-active"@, outcomes@[1]))));
    assert(texts(lines@) =~= systemd_step(service_name@, file@, defined, outcomes@)->lines);
    ServiceStep::Done(
        CheckReport { lines, issues: !(defined && enabled.ok && active.ok) },
    )
}

/// Diagnoses a service of launchd.
fn doctor_launchd(service_name: &str, file: &str, defined: bool, outcomes: &[CommandOutcome]) -> (
    step: ServiceStep)
    ensures
        step@ == launchd_step(service_name@, file@, defined, outcomes@),
{
    if outcomes.len() == 0 {
        return ServiceStep::Run(domain_command());
    }
    let mut lines = service_head("  manager: launchd", file, defined);
    let ghost head = texts(lines@);
    let domain = match launchd_domain(&outcomes[0]) {
        Ok(domain) => domain,
        Err(error) => {
            lines.push(doctor_check("loaded", false, error.as_str()));
            assert(texts(lines@) =~= head.push(check_line("loaded"@, false, error@)));
            assert(texts(lines@) =~= launchd_step(
                service_name@,
                file@,
                defined,
                outcomes@,
            )->lines);
            return ServiceStep::Done(CheckReport { lines, issues: true });
        },
    };
    if outcomes.len() == 1 {
        let target = domain.concat("/").concat(service_name);
        let args = vec!["print".to_owned(), target];
        assert(texts(args@) =~= seq!["print"@, domain@ + "/"@ + service_name@]);
        return ServiceStep::Run(command("launchctl", args));
    }
    let loaded = command_probe("launchctl print", &outcomes[1]);
    lines.push(doctor_check("loaded", loaded.ok, loaded.detail.as_str()));
    assert(texts(lines@) =~= head.push(
        probe_line("loaded"@, probed("launchctl print"@, outcomes@[1])),
    ));
    assert(texts(lines@) =~= launchd_step(service_name@, file@, defined, outcomes@)->lines);
    ServiceStep::Done(CheckReport { lines, issues: !(defined && loaded.ok) })
}

/// Diagnoses a task of Windows.
fn doctor_windows(service_name: &str, file: &str, defined: bool, outcomes: &[CommandOutcome]) -> (
    step: ServiceStep)
    ensures
        step@ == windows_step(service_name@, file@, defined, outcomes@),
{
    if outcomes.len() == 0 {
        let args = vec!["/Query".to_owned(), "/TN".to_owned(), service_name.to_owned()];
        assert(texts(args@) =~= seq!["/Query"@, "/TN"@, service_name@]);
        return ServiceStep::Run(command("schtasks", args));
    }
    let registered = command_probe("schtasks /Query", &outcomes[0]);
    let mut lines = service_head("  manager: Task Scheduler", file, defined);
    let ghost head = texts(lines@);
    lines.push(doctor_check("registered", registered.ok, registered.detail.as_str()));
    assert(texts(lines@) =~= head.push(
        probe_line("registered"@, probed("schtasks /Query"@, outcomes@[0])),
    ));
    assert(texts(lines@) =~= windows_step(service_name@, file@, defined, outcomes@)->lines);
    ServiceStep::Done(CheckReport { lines, issues: !(defined && registered.ok) })
}

/// Diagnoses a service whose file stands at `file`: the next command to run,
/// or the result, after the outcomes so far.
pub fn doctor_service(
    os: &str,
    service_name: &str,
    file: &str,
    defined: bool,
    outcomes: &[CommandOutcome],
) -> (step: ServiceStep)
    ensures
        step@ == service_step(os@, service_name@, file@, defined, outcomes@),
{
    if same_text(os, "linux") {
        doctor_systemd(service_name, file, defined, outcomes)
    } else if same_text(os, "macos") {
        doctor_launchd(service_name, file, defined, outcomes)
    } else if same_text(os, "windows") {
        doctor_windows(service_name, file, defined, outcomes)
    } else {
        let detail = "doctor does not support service diagnostics on ".to_owned().concat(os);
        let lines = vec![
            "Service:".to_owned(),
            "  manager: unsupported".to_owned(),
            doctor_check("manager", false, detail.as_str()),
        ];
        assert(texts(lines@) =~= service_step(
            os@,
            service_name@,
            file@,
            defined,
            outcomes@,
        )->lines);
        ServiceStep::Done(CheckReport { lines, issues: true })
    }
}

/// The lines on a repository.
pub open spec fn repository_lines(finding: RepoFindingView) -> Seq<Seq<char>> {
    let head = seq![
        "Repository: "@ + finding.name,
        check_line("path"@, finding.path_exists, finding.path),
    ];
    head + match finding.found {
        FoundView::NotInitialized { error } => seq![
            check_line("init"@, false, error),
            Seq::empty(),
        ],
        FoundView::NotProbed { repo_path, error } => seq![
            check_line("init"@, true, repo_path),
            check_line("fetch"@, false, error),
            Seq::empty(),
        ],
        FoundView::Probed { repo_path, snapshot, effective } => seq![
            check_line("init"@, true, repo_path),
            check_line("fetch"@, true, "remote probe succeeded"@),
        ] + state_lines(snapshot, effective) + seq![Seq::empty()],
    }
}

/// Whether something is wrong with a repository: it is not there, cannot be
/// probed, or is kept from being pulled.
pub open spec fn has_issue(finding: RepoFindingView) -> bool {
    match finding.found {
        FoundView::Probed { effective, .. } => effective.blocks_auto_pull,
        _ => true,
    }
}

/// Whether something is wrong with a repository.
pub fn is_issue(finding: &RepoFinding) -> (issue: bool)
    ensures
        issue == has_issue(finding@),
{
    match &finding.found {
        Found::Probed { effective, .. } => effective.blocks_auto_pull,
        _ => true,
    }
}

/// The lines on a repository.
fn repository_text(finding: &RepoFinding) -> (lines: Vec<String>)
    ensures
        texts(lines@) == repository_lines(finding@),
{
    let mut lines = vec![
        "Repository: ".to_owned().concat(finding.name.as_str()),
        doctor_check("path", finding.path_exists, finding.path.as_str()),
    ];
    let ghost head = texts(lines@);
    assert(head =~= seq![
        "Repository: "@ + finding@.name,
        check_line("path"@, finding@.path_exists, finding@.path),
    ]);
    match &finding.found {
        Found::NotInitialized { error } => {
            lines.push(doctor_check("init", false, error.as_str()));
            lines.push(String::new());
            assert(texts(lines@) =~= head + seq![
                check_line("init"@, false, error@),
                Seq::empty(),
            ]);
        },
        Found::NotProbed { repo_path, error } => {
            lines.push(doctor_check("init", true, repo_path.as_str()));
            lines.push(doctor_check("fetch", false, error.as_str()));
            lines.push(String::new());
            assert(texts(lines@) =~= head + seq![
                check_line("init"@, true, repo_path@),
                check_line("fetch"@, false, error@),
                Seq::empty(),
            ]);
        },
        Found::Probed { repo_path, snapshot, effective } => {
            lines.push(doctor_check("init", true, repo_path.as_str()));
            lines.push(doctor_check("fetch", true, "remote probe succeeded"));
            let ghost checked = texts(lines@);
            assert(checked =~= head + seq![
                check_line("init"@, true, repo_path@),
                check_line("fetch"@, true, "remote probe succeeded"@),
            ]);
            let ghost before = lines@;
            let mut state = state_text(snapshot, effective);
            let ghost shown = state@;
            lines.append(&mut state);
            assert(texts(lines@) =~= texts(before) + texts(shown));
            lines.push(String::new());
            assert(texts(lines@) =~= head + (seq![
                check_line("init"@, true, repo_path@),
                check_line("fetch"@, true, "remote probe succeeded"@),
            ] + state_lines(snapshot@, effective@) + seq![Seq::empty()]));
        },
    }
    lines
}

/// What was found of the configuration, and of the repositories in it.
#[derive(Debug)]
pub enum ConfigFinding {
    /// The configuration could not be read.
    Unreadable { error: String },
    /// None of the repositories was asked for.
    NothingSelected { enabled: usize, error: String },
    /// The repositories were looked at.
    Readable { enabled: usize, repos: Vec<RepoFinding> },
}

/// What a [`ConfigFinding`] says.
#[verifier::ext_equal]
pub enum ConfigFindingView {
    Unreadable { error: Seq<char> },
    NothingSelected { enabled: nat, error: Seq<char> },
    Readable { enabled: nat, repos: Seq<RepoFindingView> },
}

impl View for ConfigFinding {
    type V = ConfigFindingView;

    open spec fn view(&self) -> ConfigFindingView {
        match self {
            ConfigFinding::Unreadable { error } => ConfigFindingView::Unreadable { error: error@ },
            ConfigFinding::NothingSelected { enabled, error } => {
                ConfigFindingView::NothingSelected { enabled: *enabled as nat, error: error@ }
            },
            ConfigFinding::Readable { enabled, repos } => ConfigFindingView::Readable {
                enabled: *enabled as nat,
                repos: finding_views(repos@),
            },
        }
    }
}

/// The lines on the first `n` repositories.
pub open spec fn repositories_lines(repos: Seq<RepoFindingView>, n: int) -> Seq<Seq<char>>
    decreases n,
{
    if n <= 0 {
        Seq::empty()
    } else {
        repositories_lines(repos, n - 1) + repository_lines(repos[n - 1])
    }
}

/// Whether something is wrong with any of some repositories.
pub open spec fn any_issue(repos: Seq<RepoFindingView>) -> bool {
    exists|i: int| 0 <= i < repos.len() && has_issue(#[trigger] repos[i])
}

/// Whether nothing is wrong with an installation.
pub open spec fn is_healthy(service_issues: bool, config: ConfigFindingView) -> bool {
    match config {
        ConfigFindingView::Readable { repos, .. } => !service_issues && !any_issue(repos),
        _ => false,
    }
}

/// How many repositories are enabled, in words.
pub open spec fn enabled_text(enabled: nat) -> Seq<char> {
    decimal(enabled) + " enabled repositories"@
}

/// The diagnosis, line by line.
pub open spec fn doctor_lines(
    path: Seq<char>,
    path_exists: bool,
    service: Seq<Seq<char>>,
    service_issues: bool,
    config: ConfigFindingView,
) -> Seq<Seq<char>> {
    let head = seq!["Doctor"@, "Config:"@, check_line("path"@, path_exists, path)];
    match config {
        ConfigFindingView::Unreadable { error } => head + seq![
            check_line("parse"@, false, error),
            Seq::empty(),
        ] + service,
        ConfigFindingView::NothingSelected { enabled, error } => head + seq![
            check_line("parse"@, true, enabled_text(enabled)),
            Seq::empty(),
        ] + service + seq![
            Seq::empty(),
            "Repositories:"@,
            check_line("selection"@, false, error),
        ],
        ConfigFindingView::Readable { enabled, repos } => head + seq![
            check_line("parse"@, true, enabled_text(enabled)),
            Seq::empty(),
        ] + service + seq![Seq::empty(), "Repositories:"@] + repositories_lines(
            repos,
            repos.len() as int,
        ) + if is_healthy(service_issues, config) {
            seq!["Doctor OK"@]
        } else {
            Seq::empty()
        },
    }
}

/// The diagnosis: the lines to print, and whether nothing is wrong.
#[derive(Debug)]
pub struct DoctorReport {
    pub lines: Vec<String>,
    pub healthy: bool,
}

/// Puts a list of texts behind another.
fn add_lines(lines: &mut Vec<String>, more: &[String])
    ensures
        texts(final(lines)@) == texts(old(lines)@) + texts(more@),
{
    let mut copy = copy_list(more);
    let ghost added = copy@;
    lines.append(&mut copy);
    assert(texts(lines@) =~= texts(old(lines)@) + texts(added));
}

/// Puts a text behind a list.
fn add_line(lines: &mut Vec<String>, line: String)
    ensures
        texts(final(lines)@) == texts(old(lines)@) + seq![line@],
{
    lines.push(line);
    assert(texts(lines@) =~= texts(old(lines)@) + seq![line@]);
}

/// The lines on repositories, and whether something is wrong with any.
fn repositories_text(repos: &[RepoFinding]) -> (report: CheckReport)
    ensures
        texts(report.lines@) == repositories_lines(finding_views(repos@), repos@.len() as int),
        report.issues == any_issue(finding_views(repos@)),
{
    let ghost views = finding_views(repos@);
    let mut lines: Vec<String> = Vec::new();
    let mut issues = false;
    let mut i: usize = 0;
    assert(texts(lines@) =~= Seq::empty());
    while i < repos.len()
        invariant
            i <= repos.len(),
            views == finding_views(repos@),
            texts(lines@) == repositories_lines(views, i as int),
            issues == exists|j: int| 0 <= j < i && has_issue(#[trigger] views[j]),
        decreases repos.len() - i,
    {
        assert(views[i as int] == repos@[i as int]@);
        let more = repository_text(&repos[i]);
        add_lines(&mut lines, more.as_slice());
        if is_issue(&repos[i]) {
            assert(has_issue(views[i as int]));
            issues = true;
        }
        i = i + 1;
    }
    CheckReport { lines, issues }
}

/// Diagnoses an installation by what was found of it.
pub fn render_doctor(
    path: &str,
    path_exists: bool,
    service: &CheckReport,
    config: &ConfigFinding,
) -> (report: DoctorReport)
    ensures
        texts(report.lines@) == doctor_lines(
            path@,
            path_exists,
            texts(service.lines@),
            service.issues,
            config@,
        ),
        report.healthy == is_healthy(service.issues, config@),
{
    let mut lines = vec![
        "Doctor".to_owned(),
        "Config:".to_owned(),
        doctor_check("path", path_exists, path),
    ];
    assert(texts(lines@) =~= seq![
        "Doctor"@,
        "Config:"@,
        check_line("path"@, path_exists, path@),
    ]);
    let ghost head = texts(lines@);
    match config {
        ConfigFinding::Unreadable { error } => {
            let checked = vec![doctor_check("parse", false, error.as_str()), String::new()];
            assert(texts(checked@) =~= seq![check_line("parse"@, false, error@), Seq::empty()]);
            add_lines(&mut lines, checked.as_slice());
            add_lines(&mut lines, service.lines.as_slice());
            DoctorReport { lines, healthy: false }
        },
        ConfigFinding::NothingSelected { enabled, error } => {
            let count = decimal_text(*enabled as u64).concat(" enabled repositories");
            let checked = vec![doctor_check("parse", true, count.as_str()), String::new()];
            assert(texts(checked@) =~= seq![
                check_line("parse"@, true, enabled_text(*enabled as nat)),
                Seq::empty(),
            ]);
            add_lines(&mut lines, checked.as_slice());
            add_lines(&mut lines, service.lines.as_slice());
            let last = vec![
                String::new(),
                "Repositories:".to_owned(),
                doctor_check("selection", false, error.as_str()),
            ];
            assert(texts(last@) =~= seq![
                Seq::empty(),
                "Repositories:"@,
                check_line("selection"@, false, error@),
            ]);
            add_lines(&mut lines, last.as_slice());
            DoctorReport { lines, healthy: false }
        },
        ConfigFinding::Readable { enabled, repos } => {
            let count = decimal_text(*enabled as u64).concat(" enabled repositories");
            let checked = vec![doctor_check("parse", true, count.as_str()), String::new()];
            assert(texts(checked@) =~= seq![
                check_line("parse"@, true, enabled_text(*enabled as nat)),
                Seq::empty(),
            ]);
            add_lines(&mut lines, checked.as_slice());
            add_lines(&mut lines, service.lines.as_slice());
            let title = vec![String::new(), "Repositories:".to_owned()];
            assert(texts(title@) =~= seq![Seq::empty(), "Repositories:"@]);
            add_lines(&mut lines, title.as_slice());
            let found = repositories_text(repos.as_slice());
            add_lines(&mut lines, found.lines.as_slice());
            let healthy = !service.issues && !found.issues;
            assert(healthy == is_healthy(service.issues, config@));
            let ghost before = texts(lines@);
            if healthy {
                add_line(&mut lines, "Doctor OK".to_owned());
            }
            assert(!healthy ==> before + Seq::<Seq<char>>::empty() =~= before);
            DoctorReport { lines, healthy }
        },
    }
}

/// An installation is found healthy exactly if its configuration can be read
/// and selects repositories, its service is as it should be, and each of these
/// repositories can be probed and is not kept from being pulled.
pub proof fn health_is_complete(
    service_issues: bool,
    enabled: nat,
    repos: Seq<RepoFindingView>,
    error: Seq<char>,
)
    ensures
        !is_healthy(service_issues, ConfigFindingView::Unreadable { error }),
        !is_healthy(service_issues, ConfigFindingView::NothingSelected { enabled, error }),
        is_healthy(service_issues, ConfigFindingView::Readable { enabled, repos }) <==> {
            &&& !service_issues
            &&& forall|i: int|
                0 <= i < repos.len() ==> {
                    (#[trigger] repos[i]).found matches FoundView::Probed { effective, .. }
                        && !effective.blocks_auto_pull
                }
        },
{
    if !any_issue(repos) {
        assert forall|i: int| 0 <= i < repos.len() implies {
            (#[trigger] repos[i]).found matches FoundView::Probed { effective, .. }
                && !effective.blocks_auto_pull
        } by {
            assert(!has_issue(repos[i]));
        }
    }
}

/// The diagnosis of a service ends: two commands are run at most.
pub proof fn service_diagnosis_ends(
    os: Seq<char>,
    service: Seq<char>,
    file: Seq<char>,
    defined: bool,
    outcomes: Seq<CommandOutcome>,
)
    requires
        outcomes.len() >= 2,
    ensures
        service_step(os, service, file, defined, outcomes) is Done,
{
}

/// A service without its file is never found to be as it should be.
pub proof fn undefined_services_are_issues(
    os: Seq<char>,
    service: Seq<char>,
    file: Seq<char>,
    outcomes: Seq<CommandOutcome>,
)
    ensures
        match service_step(os, service, file, false, outcomes) {
            ServiceStepView::Run(_) => true,
            ServiceStepView::Done { issues, .. } => issues,
        },
{
}

/// Whether a command was run and succeeded.
pub open spec fn succeeded(outcome: CommandOutcome) -> bool {
    outcome matches CommandOutcome::Exited { success, .. } && success
}

/// On Linux nothing is wrong with a service exactly if its file is there, and
/// both it is enabled and it is active by what came of the two commands.
pub proof fn systemd_services_are_enabled_and_active(
    service: Seq<char>,
    file: Seq<char>,
    defined: bool,
    outcomes: Seq<CommandOutcome>,
)
    requires
        outcomes.len() >= 2,
    ensures
        service_step("linux"@, service, file, defined, outcomes) matches ServiceStepView::Done {
            issues,
            ..
        } && (!issues <==> defined && succeeded(outcomes[0]) && succeeded(outcomes[1])),
{
}

/// On macOS nothing is wrong with a service exactly if its file is there, the
/// number of the user is known, and the service is loaded.
pub proof fn launchd_services_are_loaded(
    service: Seq<char>,
    file: Seq<char>,
    defined: bool,
    outcomes: Seq<CommandOutcome>,
)
    requires
        outcomes.len() >= 2,
    ensures
        service_step("macos"@, service, file, defined, outcomes) matches ServiceStepView::Done {
            issues,
            ..
        } && (!issues <==> {
            &&& defined
            &&& outcomes[0] matches CommandOutcome::Exited { success, stdout, .. } && success
                && printed(stdout@).len() > 0
            &&& succeeded(outcomes[1])
        }),
{
    reveal_strlit("linux");
    reveal_strlit("macos");
    assert("linux"@[0] == 'l' && "macos"@[0] == 'm');
}

/// On Windows nothing is wrong with a service exactly if its script is there,
/// and its task is registered.
pub proof fn windows_services_are_registered(
    service: Seq<char>,
    file: Seq<char>,
    defined: bool,
    outcomes: Seq<CommandOutcome>,
)
    requires
        outcomes.len() >= 1,
    ensures
        service_step("windows"@, service, file, defined, outcomes) matches ServiceStepView::Done {
            issues,
            ..
        } && (!issues <==> defined && succeeded(outcomes[0])),
{
    reveal_strlit("linux");
    reveal_strlit("macos");
    reveal_strlit("windows");
    assert("linux"@.len() == 5 && "macos"@.len() == 5 && "windows"@.len() == 7);
}

/// A service is never found to be as it should be on another system.
pub proof fn other_systems_are_not_diagnosed(
    os: Seq<char>,
    service: Seq<char>,
    file: Seq<char>,
    defined: bool,
    outcomes: Seq<CommandOutcome>,
)
    requires
        os != "linux"@,
        os != "macos"@,
        os != "windows"@,
    ensures
        service_step(os, service, file, defined, outcomes) matches ServiceStepView::Done {
            issues,
            ..
        } && issues,
{
}

/// Whether a line shows a check, from the name of which on it goes on with a
/// verdict.
pub open spec fn shows(line: Seq<char>, label: Seq<char>, verdict: Seq<char>) -> bool {
    ("  "@ + label + ": "@ + verdict + " ("@).is_prefix_of(line)
}

proof fn lemma_shows(label: Seq<char>, ok: bool, detail: Seq<char>)
    ensures
        ok ==> shows(check_line(label, ok, detail), label, "ok"@),
        !ok ==> shows(check_line(label, ok, detail), label, "issue"@),
{
    let line = check_line(label, ok, detail);
    let verdict = if ok {
        "ok"@
    } else {
        "issue"@
    };
    let front = "  "@ + label + ": "@ + verdict + " ("@;
    assert(front =~= line.subrange(0, front.len() as int));
}

/// Each check of a service is shown on a line of its own as it came out, and
/// the diagnosis has issues exactly if one of these lines tells of one: the file
/// first, and then what was learnt by each command.
pub proof fn issues_are_shown(
    os: Seq<char>,
    service: Seq<char>,
    file: Seq<char>,
    defined: bool,
    outcomes: Seq<CommandOutcome>,
)
    requires
        os == "linux"@ || os == "macos"@ || os == "windows"@,
        outcomes.len() >= 2,
    ensures
        service_step(os, service, file, defined, outcomes) matches ServiceStepView::Done {
            lines,
            issues,
        } && {
            &&& lines.len() >= 4
            &&& shows(
                lines[2],
                "definition"@,
                if defined {
                    "ok"@
                } else {
                    "issue"@
                },
            )
            &&& os == "linux"@ ==> {
                &&& lines.len() == 5
                &&& shows(
                    lines[3],
                    "enabled"@,
                    if succeeded(outcomes[0]) {
                        "ok"@
                    } else {
                        "issue"@
                    },
                )
                &&& shows(
                    lines[4],
                    "active"@,
                    if succeeded(outcomes[1]) {
                        "ok"@
                    } else {
                        "issue"@
                    },
                )
                &&& !issues ==> shows(lines[3], "enabled"@, "ok"@) && shows(
                    lines[4],
                    "active"@,
                    "ok"@,
                )
            }
            &&& os == "macos"@ ==> lines.len() == 4 && (if issues && defined {
                shows(lines[3], "loaded"@, "issue"@)
            } else {
                !issues ==> shows(lines[3], "loaded"@, "ok"@)
            })
            &&& os == "windows"@ ==> lines.len() == 4 && shows(
                lines[3],
                "registered"@,
                if succeeded(outcomes[0]) {
                    "ok"@
                } else {
                    "issue"@
                },
            )
            &&& !issues ==> shows(lines[2], "definition"@, "ok"@)
        },
{
    reveal_strlit("linux");
    reveal_strlit("macos");
    reveal_strlit("windows");
    assert("linux"@[0] == 'l' && "macos"@[0] == 'm' && "windows"@[0] == 'w');
    lemma_shows("definition"@, defined, file);
    let a = probed("systemctl --user is-enabled"@, outcomes[0]);
    let b = probed("systemctl --user is-active"@, outcomes[1]);
    let c = probed("launchctl print"@, outcomes[1]);
    let d = probed("schtasks /Query"@, outcomes[0]);
    lemma_shows("enabled"@, a.0, a.1);
    lemma_shows("active"@, b.0, b.1);
    lemma_shows("loaded"@, c.0, c.1);
    lemma_shows("registered"@, d.0, d.1);
    if let Err(error) = domain_of(outcomes[0]) {
        lemma_shows("loaded"@, false, error);
    }
}

/// A check that did not come out well is shown otherwise than one that did.
pub proof fn verdicts_are_told_apart(label: Seq<char>, detail: Seq<char>)
    ensures
        shows(check_line(label, true, detail), label, "ok"@),
        shows(check_line(label, false, detail), label, "issue"@),
        !shows(check_line(label, true, detail), label, "issue"@),
        !shows(check_line(label, false, detail), label, "ok"@),
        holds(check_line(label, true, detail), detail),
        holds(check_line(label, false, detail), detail),
{
    lemma_shows(label, true, detail);
    lemma_shows(label, false, detail);
    reveal_strlit("  ");
    reveal_strlit(": ");
    reveal_strlit("ok");
    reveal_strlit("issue");
    let n = label.len() + 4;
    let good = check_line(label, true, detail);
    let bad = check_line(label, false, detail);
    let ok = "  "@ + label + ": "@ + "ok"@ + " ("@;
    let issue = "  "@ + label + ": "@ + "issue"@ + " ("@;
    assert(good[n as int] == 'o');
    assert(bad[n as int] == 'i');
    if issue.is_prefix_of(good) {
        assert(good.subrange(0, issue.len() as int)[n as int] == issue[n as int]);
    }
    if ok.is_prefix_of(bad) {
        assert(bad.subrange(0, ok.len() as int)[n as int] == ok[n as int]);
    }
    assert(is_around(good, ok, detail, ")"@));
    assert(is_around(bad, issue, detail, ")"@));
}

/// What is learnt from a command is that it succeeded exactly if it was run and
/// did; where it did not, what it complained of is told before what it printed,
/// and how it ended where it said nothing.
pub proof fn probes_tell_what_commands_said(
    what: Seq<char>,
    outcome: CommandOutcome,
)
    ensures
        probed(what, outcome).0 <==> succeeded(outcome),
        outcome matches CommandOutcome::Exited { success, status, stdout, stderr } ==> {
            let said = probed(what, outcome).1;
            let shown = printed(stdout@);
            let complaint = printed(stderr@);
            &&& success && shown.len() > 0 ==> said == shown
            &&& success && shown.len() == 0 ==> said == "ok"@
            &&& !success && complaint.len() > 0 ==> said == complaint
            &&& !success && complaint.len() == 0 && shown.len() > 0 ==> said == shown
            &&& !success && complaint.len() == 0 && shown.len() == 0 ==> status@.is_suffix_of(said)
        },
        outcome matches CommandOutcome::NotStarted { reason } ==> reason@.is_suffix_of(
            probed(what, outcome).1,
        ),
{
    let said = probed(what, outcome).1;
    if let CommandOutcome::NotStarted { reason } = outcome {
        assert(reason@ =~= said.subrange(said.len() - reason@.len(), said.len() as int));
    }
    if let CommandOutcome::Exited { success, status, stdout, stderr } = outcome {
        if !success && printed(stderr@).len() == 0 && printed(stdout@).len() == 0 {
            assert(status@ =~= said.subrange(said.len() - status@.len(), said.len() as int));
        }
    }
}

/// The commands of a diagnosis ask about the service, and change nothing.
pub proof fn diagnoses_only_ask(
    service: Seq<char>,
    file: Seq<char>,
    defined: bool,
    outcomes: Seq<CommandOutcome>,
)
    ensures
        service_step("linux"@, service, file, defined, outcomes) matches ServiceStepView::Run(
            command,
        ) ==> {
            &&& command.program == "systemctl"@
            &&& command.args.len() == 3 && command.args[0] == "--user"@
            &&& command.args[1] == if outcomes.len() == 0 {
                "is-enabled"@
            } else {
                "is-active"@
            }
            &&& command.args[2] == service + ".service"@
        },
        service_step("macos"@, service, file, defined, outcomes) matches ServiceStepView::Run(
            command,
        ) ==> if outcomes.len() == 0 {
            command.program == "id"@ && command.args == seq!["-u"@]
        } else {
            &&& command.program == "launchctl"@
            &&& command.args.len() == 2 && command.args[0] == "print"@
            &&& ("/"@ + service).is_suffix_of(command.args[1])
        },
        service_step("windows"@, service, file, defined, outcomes) matches ServiceStepView::Run(
            command,
        ) ==> {
            &&& command.program == "schtasks"@
            &&& command.args.len() == 3 && command.args[0] == "/Query"@
            &&& command.args[1] == "/TN"@
            &&& command.args[2] == service
        },
{
    reveal_strlit("linux");
    reveal_strlit("macos");
    reveal_strlit("windows");
    assert("linux"@[0] == 'l' && "macos"@[0] == 'm' && "windows"@[0] == 'w');
    if outcomes.len() > 0 {
        if let Ok(domain) = domain_of(outcomes[0]) {
            let target = domain + "/"@ + service;
            let end = "/"@ + service;
            assert(end =~= target.subrange(target.len() - end.len(), target.len() as int));
        }
    }
}

/// Something is wrong with a repository exactly if it was not probed, or was and
/// is kept from being pulled.
pub proof fn blocked_repositories_are_issues(finding: RepoFindingView)
    ensures
        !has_issue(finding) <==> (finding.found matches FoundView::Probed { effective, .. }
            && !effective.blocks_auto_pull),
{
}

/// A diagnosis ends with the words that all is well exactly if it is.
pub proof fn health_is_said_at_the_end(
    path: Seq<char>,
    path_exists: bool,
    service: Seq<Seq<char>>,
    service_issues: bool,
    enabled: nat,
    repos: Seq<RepoFindingView>,
)
    ensures
        ({
            let lines = doctor_lines(
                path,
                path_exists,
                service,
                service_issues,
                ConfigFindingView::Readable { enabled, repos },
            );
            let well = !service_issues && forall|i: int|
                0 <= i < repos.len() ==> {
                    (#[trigger] repos[i]).found matches FoundView::Probed { effective, .. }
                        && !effective.blocks_auto_pull
                };
            &&& lines.last() == "Doctor OK"@ <==> well
            &&& shows(
                lines[2],
                "path"@,
                if path_exists {
                    "ok"@
                } else {
                    "issue"@
                },
            )
            &&& lines.len() >= 5 + service.len()
            &&& lines.subrange(5, (5 + service.len()) as int) == service
        }),
{
    let config = ConfigFindingView::Readable { enabled, repos };
    let lines = doctor_lines(path, path_exists, service, service_issues, config);
    health_is_complete(service_issues, enabled, repos, Seq::empty());
    lemma_shows("path"@, path_exists, path);
    assert(lines.subrange(5, (5 + service.len()) as int) =~= service);
    reveal_strlit("Doctor OK");
    reveal_strlit("Repositories:");
    assert("Doctor OK"@.len() == 9 && "Repositories:"@.len() == 13);
    if !is_healthy(service_issues, config) {
        let rest = repositories_lines(repos, repos.len() as int);
        lemma_repositories_end_blank(repos, repos.len() as int);
        if repos.len() == 0 {
            assert(lines.last() == "Repositories:"@);
        } else {
            assert(lines.last() == rest.last());
        }
    }
}

proof fn lemma_repositories_end_blank(repos: Seq<RepoFindingView>, n: int)
    requires
        0 <= n <= repos.len(),
    ensures
        n == 0 ==> repositories_lines(repos, n).len() == 0,
        n > 0 ==> repositories_lines(repos, n).len() > 0 && repositories_lines(
            repos,
            n,
        ).last().len() == 0,
{
    if n > 0 {
        let more = repository_lines(repos[n - 1]);
        assert(more.last().len() == 0);
        assert(repositories_lines(repos, n).last() == more.last());
    }
}

/// The lines on a repository name it, and show whether it was there and could be
/// probed, and how it stands if it could.
pub proof fn repositories_are_diagnosed(finding: RepoFindingView)
    ensures
        ({
            let lines = repository_lines(finding);
            &&& lines.len() >= 4
            &&& lines[0] == "Repository: "@ + finding.name
            &&& shows(
                lines[1],
                "path"@,
                if finding.path_exists {
                    "ok"@
                } else {
                    "issue"@
                },
            )
            &&& shows(
                lines[2],
                "init"@,
                if finding.found is NotInitialized {
                    "issue"@
                } else {
                    "ok"@
                },
            )
            &&& finding.found is NotProbed ==> shows(lines[3], "fetch"@, "issue"@)
            &&& finding.found matches FoundView::Probed { snapshot, effective, .. } ==> {
                &&& shows(lines[3], "fetch"@, "ok"@)
                &&& lines.len() == 12
                &&& lines[4] == "  branch: "@ + snapshot.branch
                &&& lines[5] == "  upstream: "@ + snapshot.upstream
                &&& lines[6] == "  ahead: "@ + decimal(snapshot.ahead as nat)
                &&& lines[7] == "  behind: "@ + decimal(snapshot.behind as nat)
                &&& lines[8] == "  dirty: "@ + if snapshot.dirty {
                    "true"@
                } else {
                    "false"@
                }
                &&& lines[9] == "  decision: "@ + effective.decision
                &&& lines[10] == "  message: "@ + effective.message
            }
        }),
{
    lemma_shows("path"@, finding.path_exists, finding.path);
    match finding.found {
        FoundView::NotInitialized { error } => {
            lemma_shows("init"@, false, error);
        },
        FoundView::NotProbed { repo_path, error } => {
            lemma_shows("init"@, true, repo_path);
            lemma_shows("fetch"@, false, error);
        },
        FoundView::Probed { repo_path, .. } => {
            lemma_shows("init"@, true, repo_path);
            lemma_shows("fetch"@, true, "remote probe succeeded"@);
        },
    }
}

/// A diagnosis shows whether the configuration was read and repositories were
/// found in it, and why where not; and all is not well where they were not.
pub proof fn configurations_are_diagnosed(
    path: Seq<char>,
    path_exists: bool,
    service: Seq<Seq<char>>,
    service_issues: bool,
    config: ConfigFindingView,
)
    ensures
        ({
            let lines = doctor_lines(path, path_exists, service, service_issues, config);
            &&& config matches ConfigFindingView::Unreadable { error } ==> {
                &&& lines[3] == "  "@ + "parse"@ + ": "@ + "issue"@ + " ("@ + error + ")"@
                &&& lines.len() == 5 + service.len()
                &&& lines.subrange(5, lines.len() as int) == service
                &&& !is_healthy(service_issues, config)
            }
            &&& config matches ConfigFindingView::NothingSelected { enabled, error } ==> {
                &&& shows(lines[3], "parse"@, "ok"@)
                &&& lines.last() == "  "@ + "selection"@ + ": "@ + "issue"@ + " ("@ + error + ")"@
                &&& lines.subrange(5, (5 + service.len()) as int) == service
                &&& !is_healthy(service_issues, config)
            }
            &&& config is Readable ==> shows(lines[3], "parse"@, "ok"@)
        }),
{
    let lines = doctor_lines(path, path_exists, service, service_issues, config);
    match config {
        ConfigFindingView::Unreadable { error } => {
            assert(lines.subrange(5, lines.len() as int) =~= service);
        },
        ConfigFindingView::NothingSelected { enabled, error } => {
            lemma_shows("parse"@, true, enabled_text(enabled));
            assert(lines.subrange(5, (5 + service.len()) as int) =~= service);
        },
        ConfigFindingView::Readable { enabled, .. } => {
            lemma_shows("parse"@, true, enabled_text(enabled));
        },
    }
}

} // verus!
