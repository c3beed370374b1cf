use repo_auto_puller::command::{
    maybe_send_desktop_notification, run_desktop_notification, run_failure_hook, run_pull_hook,
    CommandSpec, CommandStep, Notification,
};
use repo_auto_puller::config::{AppConfig, DefaultsConfig, RepositoryConfig, Seconds};
use repo_auto_puller::effective::EffectiveReport;
use repo_auto_puller::log::{log_line, short_log_line, watch_message};
use repo_auto_puller::outcome::CommandOutcome;
use repo_auto_puller::repo::{GitReply, PathProbe, RepoSyncer, Snapshot};
use repo_auto_puller::schedule::{Watch, WatchAction};
use repo_auto_puller::settings::{NotificationSettings, SelectedRepo};
use repo_auto_puller::state::{HistoryRecord, PersistedRepoState, PersistedState};
use repo_auto_puller::sync::{
    handle_sync_error, is_verbose, sync_repo, Effect, ManagedRepo, SyncRound, SyncStep,
};

fn managed() -> ManagedRepo {
    let config = RepositoryConfig {
        name: "tool".into(),
        path: "~/tool".into(),
        interval_seconds: Seconds { bits: 60.0f64.to_bits() },
        enabled: true,
        paused: false,
        dry_run: false,
        allowed_branches: Vec::new(),
        quiet_hours: None,
        desktop_notifications: None,
        before_pull_command: None,
        after_pull_command: None,
        on_failure_command: None,
    };
    let selected = SelectedRepo {
        config,
        before_pull_command: None,
        after_pull_command: None,
        on_failure_command: None,
        notification_settings: NotificationSettings {
            on_pull: false,
            on_failure: false,
            command: None,
        },
    };
    ManagedRepo::new(selected, "/home/u/tool".into())
}

fn syncer() -> RepoSyncer {
    let probe = PathProbe::Resolved { canonical: "/home/u/tool".into(), has_git: true };
    RepoSyncer::new("~/tool", &probe).expect("the repository is there")
}

fn snapshot() -> Snapshot {
    Snapshot {
        branch: "main".into(),
        upstream: "origin/main".into(),
        remote: "origin".into(),
        remote_branch: "main".into(),
        ahead: 0,
        behind: 2,
        dirty: false,
    }
}

fn context() -> Vec<GitReply> {
    vec![Ok("main".into()), Ok("origin/main".into()), Ok("".into())]
}

/// What Git answers to a probe that fetches.
fn probed(counts: &str) -> Vec<GitReply> {
    let mut git = context();
    git.push(Ok("".into()));
    git.extend(context());
    git.push(Ok(counts.into()));
    git
}

fn exited(success: bool, stderr: &str) -> CommandOutcome {
    CommandOutcome::Exited {
        success,
        status: "exit status: 1".into(),
        stdout: Vec::new(),
        stderr: stderr.as_bytes().to_vec(),
    }
}

fn lines(round: &SyncRound) -> Vec<String> {
    let mut lines = Vec::new();
    for effect in &round.effects {
        lines.push(match effect {
            Effect::Log { level, message } => format!("{} {}", level, message),
            Effect::RememberMessage { message } => format!("remember {}", message),
            Effect::Record { effective, .. } => format!("record {}", effective.decision),
            Effect::RecordError { error } => format!("record error {}", error),
            Effect::RememberError { error } => format!("remember error {}", error),
            Effect::ForgetError => "forget".to_string(),
        });
    }
    lines
}

fn failure(step: CommandStep) -> String {
    match step {
        CommandStep::Failed(message) => message,
        _ => panic!("a failure was expected"),
    }
}

fn warning(step: CommandStep) -> String {
    match step {
        CommandStep::Warn(message) => message,
        _ => panic!("a warning was expected"),
    }
}

fn command(step: CommandStep) -> CommandSpec {
    match step {
        CommandStep::Run(command) => command,
        _ => panic!("a command was expected"),
    }
}

fn variable(command: &CommandSpec, name: &str) -> String {
    for (key, value) in &command.env {
        if key == name {
            return value.clone();
        }
    }
    panic!("the variable {} is not set", name)
}

#[test]
fn a_round_records_what_is_up_to_date() {
    let mut managed = managed();
    let round = sync_repo(&managed, &syncer(), "linux", false, false, &probed("0 0"), &[0], &[]);
    assert!(matches!(round.step, SyncStep::Done));
    assert_eq!(
        lines(&round),
        vec![
            "IDLE main is up to date with origin/main",
            "remember main is up to date with origin/main",
            "record up-to-date",
            "forget",
        ]
    );
    for effect in &round.effects {
        managed.remember(effect);
    }
    let round = sync_repo(&managed, &syncer(), "linux", false, false, &probed("0 0"), &[0], &[]);
    assert_eq!(lines(&round), vec!["record up-to-date", "forget"]);
    let round = sync_repo(&managed, &syncer(), "linux", false, true, &probed("0 0"), &[0], &[]);
    assert_eq!(round.effects.len(), 4);
}

#[test]
fn a_round_asks_before_it_acts() {
    let managed = managed();
    let round = sync_repo(&managed, &syncer(), "linux", false, false, &[], &[], &[]);
    assert!(matches!(round.step, SyncStep::Git(args) if args[0] == "rev-parse"));
    assert!(round.effects.is_empty());
    let round = sync_repo(&managed, &syncer(), "linux", false, false, &probed("0 2"), &[], &[]);
    assert!(matches!(round.step, SyncStep::Clock));
    let mut git = context();
    git[1] = Ok("".into());
    let round = sync_repo(&managed, &syncer(), "linux", false, false, &git, &[], &[]);
    assert!(matches!(
        round.step,
        SyncStep::Failed(error) if error == "branch \"main\" has no upstream configured"
    ));
}

#[test]
fn a_round_pulls_between_its_hooks() {
    let mut managed = managed();
    managed.selected.before_pull_command = Some("before".into());
    managed.selected.after_pull_command = Some("after".into());
    managed.selected.notification_settings.on_pull = true;
    let syncer = syncer();
    let mut git = probed("0 2");
    let mut clock = vec![3600];
    let mut commands = Vec::new();

    let round = sync_repo(&managed, &syncer, "linux", false, false, &git, &clock, &commands);
    match round.step {
        SyncStep::Command(command) => {
            assert_eq!(command.program, "sh");
            assert_eq!(command.args, vec!["-lc", "before"]);
            assert_eq!(variable(&command, "REPO_AUTO_PULLER_EVENT"), "before_pull");
            assert_eq!(variable(&command, "REPO_AUTO_PULLER_REPO_PATH"), "/home/u/tool");
        }
        _ => panic!("the hook comes first"),
    }
    commands.push(exited(true, ""));
    let round = sync_repo(&managed, &syncer, "linux", false, false, &git, &clock, &commands);
    match round.step {
        SyncStep::Git(args) => {
            assert_eq!(args, vec!["pull", "--ff-only", "--no-rebase", "origin", "main"])
        }
        _ => panic!("the pull comes second"),
    }
    git.push(Ok("Fast-forward".into()));
    git.push(Ok("abc subject".into()));
    let round = sync_repo(&managed, &syncer, "linux", false, false, &git, &clock, &commands);
    match round.step {
        SyncStep::Command(command) => {
            assert_eq!(command.program, "notify-send");
            assert_eq!(command.args, vec!["repo-auto-puller", "tool updated successfully"]);
        }
        _ => panic!("the notification comes third"),
    }
    commands.push(exited(false, "no display"));
    let round = sync_repo(&managed, &syncer, "linux", false, false, &git, &clock, &commands);
    match round.step {
        SyncStep::Command(command) => assert_eq!(command.args[1], "after"),
        _ => panic!("the other hook comes fourth"),
    }
    commands.push(exited(false, ""));
    git.extend(context());
    git.extend(context());
    git.push(Ok("0 0".into()));
    let round = sync_repo(&managed, &syncer, "linux", false, false, &git, &clock, &commands);
    assert!(matches!(round.step, SyncStep::Clock));
    clock.push(3601);
    let round = sync_repo(&managed, &syncer, "linux", false, false, &git, &clock, &commands);
    assert!(matches!(round.step, SyncStep::Done));
    assert_eq!(
        lines(&round),
        vec![
            "INFO main is behind origin/main by 2 commit(s)",
            "remember main is behind origin/main by 2 commit(s)",
            "INFO pulling origin/main into main",
            "INFO auto-pull complete: abc subject",
            "WARN desktop notification failed: notify-send exited unsuccessfully: no display",
            "WARN after_pull hook exited unsuccessfully",
            "record up-to-date",
            "forget",
        ]
    );
}

#[test]
fn a_round_takes_nothing_back() {
    let managed = managed();
    let mut git = probed("0 2");
    git.push(Ok("Fast-forward".into()));
    git.push(Ok("abc subject".into()));
    git.extend(context());
    git.extend(context());
    git.push(Ok("0 0".into()));
    let whole = sync_repo(&managed, &syncer(), "linux", false, false, &git, &[0, 0], &[]);
    assert!(matches!(whole.step, SyncStep::Done));
    for n in 0..git.len() + 1 {
        for clock in [&[][..], &[0][..], &[0, 0][..]] {
            let round =
                sync_repo(&managed, &syncer(), "linux", false, false, &git[..n], clock, &[]);
            assert_eq!(lines(&round)[..], lines(&whole)[..round.effects.len()]);
        }
    }
}

#[test]
fn a_round_stops_where_the_first_hook_fails() {
    let mut managed = managed();
    managed.selected.before_pull_command = Some("before".into());
    let commands = [exited(false, "dirty\n")];
    let round =
        sync_repo(&managed, &syncer(), "linux", false, false, &probed("0 2"), &[0], &commands);
    assert!(matches!(
        round.step,
        SyncStep::Failed(error) if error == "before_pull hook exited unsuccessfully: dirty"
    ));
    assert_eq!(round.effects.len(), 2);
}

#[test]
fn a_dry_round_only_announces() {
    let mut managed = managed();
    let announced = "INFO dry-run: would fast-forward pull origin/main into main";
    let round = sync_repo(&managed, &syncer(), "linux", true, false, &probed("0 2"), &[0], &[]);
    assert_eq!(lines(&round)[2..], [announced, "record pull-fast-forward", "forget"]);
    managed.selected.config.dry_run = true;
    let round = sync_repo(&managed, &syncer(), "linux", false, false, &probed("0 2"), &[0], &[]);
    assert_eq!(lines(&round)[2], announced);
    let round = sync_repo(&managed, &syncer(), "linux", false, false, &probed("1 2"), &[0], &[]);
    assert_eq!(lines(&round)[2..], ["record diverged", "forget"]);
    managed.selected.config.paused = true;
    let round = sync_repo(&managed, &syncer(), "linux", false, false, &probed("0 2"), &[0], &[]);
    assert_eq!(lines(&round)[2..], ["record paused", "forget"]);
}

#[test]
fn an_error_is_told_once() {
    let mut managed = managed();
    managed.selected.on_failure_command = Some("alarm".into());
    managed.selected.notification_settings.on_failure = true;
    managed.selected.notification_settings.command = Some("notify".into());
    let round = handle_sync_error(&managed, "linux", "no network", &[]);
    match round.step {
        SyncStep::Command(command) => {
            assert_eq!(command.args, vec!["-lc", "notify"]);
            assert_eq!(variable(&command, "REPO_AUTO_PULLER_EVENT"), "failure");
            assert_eq!(
                variable(&command, "REPO_AUTO_PULLER_NOTIFICATION_BODY"),
                "tool: no network"
            );
        }
        _ => panic!("the notification comes first"),
    }
    let notified = [exited(true, "")];
    let round = handle_sync_error(&managed, "linux", "no network", &notified);
    match round.step {
        SyncStep::Command(command) => {
            assert_eq!(command.args, vec!["-lc", "alarm"]);
            assert_eq!(variable(&command, "REPO_AUTO_PULLER_ERROR"), "no network");
        }
        _ => panic!("the hook comes second"),
    }
    let both = [exited(true, ""), exited(false, "late")];
    let round = handle_sync_error(&managed, "linux", "no network", &both);
    assert!(matches!(round.step, SyncStep::Done));
    assert_eq!(
        lines(&round),
        vec![
            "ERROR no network",
            "record error no network",
            "WARN failure hook exited unsuccessfully: late",
            "remember error no network",
        ]
    );
    for effect in &round.effects {
        managed.remember(effect);
    }
    let round = handle_sync_error(&managed, "linux", "no network", &[]);
    assert!(matches!(round.step, SyncStep::Done));
    assert_eq!(round.effects.len(), 3);
    let round = handle_sync_error(&managed, "linux", "other", &[]);
    assert!(matches!(round.step, SyncStep::Command(_)));
    managed.remember(&Effect::ForgetError);
    assert!(managed.last_error.is_none());
}

#[test]
fn hooks_are_judged_by_their_outcome() {
    let hook = |strict: bool, outcome: Option<&CommandOutcome>| {
        run_pull_hook("tool", "/t", "after_pull", Some("x"), &snapshot(), strict, outcome)
    };
    assert!(matches!(
        run_pull_hook("tool", "/t", "after_pull", None, &snapshot(), true, None),
        CommandStep::Done
    ));
    let spec = command(hook(false, None));
    assert_eq!(variable(&spec, "REPO_AUTO_PULLER_BRANCH"), "main");
    assert_eq!(variable(&spec, "REPO_AUTO_PULLER_UPSTREAM"), "origin/main");
    assert_eq!(variable(&spec, "REPO_AUTO_PULLER_REMOTE"), "origin");
    assert_eq!(variable(&spec, "REPO_AUTO_PULLER_REMOTE_BRANCH"), "main");
    assert_eq!(variable(&spec, "REPO_AUTO_PULLER_REPO_NAME"), "tool");
    let missing = CommandOutcome::NotStarted { reason: "no sh".into() };
    assert_eq!(
        failure(hook(false, Some(&missing))),
        "failed to execute after_pull hook for tool"
    );
    assert_eq!(
        failure(hook(true, Some(&exited(false, "")))),
        "after_pull hook exited unsuccessfully"
    );
    assert_eq!(
        warning(hook(false, Some(&exited(false, " x ")))),
        "after_pull hook exited unsuccessfully: x"
    );
    assert!(matches!(hook(true, Some(&exited(true, "noise"))), CommandStep::Done));
    assert_eq!(
        failure(run_failure_hook("tool", "/t", Some("x"), "e", Some(&missing))),
        "failed to execute failure hook for tool"
    );
    assert_eq!(
        warning(run_failure_hook("tool", "/t", Some("x"), "e", Some(&exited(false, "")))),
        "failure hook exited unsuccessfully: "
    );
}

#[test]
fn notifications_are_sent_as_the_system_has_it() {
    let mut settings = NotificationSettings { on_pull: true, on_failure: false, command: None };
    let notice = |event: &'static str| Notification {
        event,
        title: "repo-auto-puller",
        message: "say \"hi\"".into(),
    };
    let run = |settings: &NotificationSettings, os: &str, outcome: Option<&CommandOutcome>| {
        run_desktop_notification(settings, os, "tool", "/t", &notice("pull"), outcome)
    };
    let spec = command(run(&settings, "macos", None));
    assert_eq!(spec.program, "osascript");
    assert_eq!(
        spec.args,
        vec![
            "-e",
            "display notification \"say \\\"hi\\\"\" with title \"repo-auto-puller\"",
        ]
    );
    let missing = CommandOutcome::NotStarted { reason: "none".into() };
    assert_eq!(failure(run(&settings, "macos", Some(&missing))), "failed to execute osascript");
    assert_eq!(failure(run(&settings, "linux", Some(&missing))), "failed to execute notify-send");
    assert_eq!(
        failure(run(&settings, "macos", Some(&exited(false, "x")))),
        "osascript exited unsuccessfully: x"
    );
    assert_eq!(
        failure(run(&settings, "plan9", None)),
        "desktop notifications are not supported on this operating system: plan9"
    );
    settings.command = Some("notify".into());
    let spec = command(run(&settings, "plan9", None));
    assert_eq!(spec.args, vec!["-lc", "notify"]);
    assert_eq!(variable(&spec, "REPO_AUTO_PULLER_NOTIFICATION_TITLE"), "repo-auto-puller");
    assert_eq!(
        failure(run(&settings, "plan9", Some(&missing))),
        "failed to execute notification command for tool"
    );
    assert_eq!(
        failure(run(&settings, "plan9", Some(&exited(false, "")))),
        "notification command exited unsuccessfully"
    );
    assert!(matches!(run(&settings, "linux", Some(&exited(true, ""))), CommandStep::Done));
    for event in ["failure", "other"] {
        assert!(matches!(
            maybe_send_desktop_notification(&settings, "linux", "tool", "/t", &notice(event), None),
            CommandStep::Done
        ));
    }
    assert_eq!(
        warning(maybe_send_desktop_notification(
            &settings,
            "linux",
            "tool",
            "/t",
            &notice("pull"),
            Some(&exited(false, "")),
        )),
        "desktop notification failed: notification command exited unsuccessfully"
    );
}

#[test]
fn log_lines_have_one_form() {
    assert_eq!(
        log_line("2026-04-13T16:00:23+00:00", "INFO", "app", "repo-auto-puller stopped"),
        "[2026-04-13T16:00:23+00:00] [INFO] [app] repo-auto-puller stopped"
    );
    assert_eq!(short_log_line("t", "WARN", "m"), "[t] [WARN] m");
    assert_eq!(watch_message("/src/tool", "0.5"), "watching /src/tool every 0.5s");
    let mut config = AppConfig {
        config_version: 1,
        defaults: DefaultsConfig::default(),
        repositories: Vec::new(),
    };
    assert!(!is_verbose(false, &config));
    assert!(is_verbose(true, &config));
    config.defaults.verbose = true;
    assert!(is_verbose(false, &config));
}

const SECOND: u128 = 1_000_000_000;

#[test]
fn watches_each_repository_at_its_interval() {
    let mut watch = Watch::new(vec![10 * SECOND, SECOND / 2], 0);
    assert!(matches!(watch.next(true, 0), WatchAction::Sync(0)));
    assert!(matches!(watch.next(true, SECOND), WatchAction::Sync(1)));
    assert!(matches!(watch.next(true, SECOND), WatchAction::Sleep(500_000_000)));
    let half = SECOND + SECOND / 2;
    assert!(matches!(watch.next(true, half), WatchAction::Sync(1)));
    assert!(matches!(watch.next(true, 4 * SECOND), WatchAction::Sleep(500_000_000)));
    assert!(matches!(watch.next(true, 11 * SECOND), WatchAction::Sync(0)));
    assert!(matches!(watch.next(false, 11 * SECOND), WatchAction::Sync(1)));
    assert!(matches!(watch.next(false, 11 * SECOND), WatchAction::Stop));
    assert!(matches!(watch.next(false, 99 * SECOND), WatchAction::Stop));
}

#[test]
fn waits_no_longer_than_a_second() {
    let mut watch = Watch::new(vec![60 * SECOND], 0);
    assert!(matches!(watch.next(true, 5), WatchAction::Sync(0)));
    assert!(matches!(watch.next(true, 7), WatchAction::Sleep(SECOND)));
    let mut slow = Watch::new(vec![1, 60 * SECOND], 0);
    assert!(matches!(slow.next(true, 0), WatchAction::Sync(0)));
    assert!(matches!(slow.next(true, 1), WatchAction::Sync(1)));
    assert!(matches!(slow.next(true, 9), WatchAction::Sleep(0)));
    let mut none = Watch::new(Vec::new(), 0);
    assert!(matches!(none.next(true, 3), WatchAction::Sleep(SECOND)));
}

fn report() -> EffectiveReport {
    EffectiveReport {
        decision: "pull-fast-forward".into(),
        message: "main is behind".into(),
        level: "INFO",
        blocks_auto_pull: false,
    }
}

#[test]
fn remembers_the_last_state_by_name() {
    let mut state = PersistedState::default();
    assert!(state.repositories.get("a").is_none());
    for name in ["b", "a", "c", "ab"] {
        state.update_success(name, "/x", "now", &snapshot(), &report());
    }
    state.update_error("a", "/x", "later", "no network");
    let names: Vec<&str> =
        state.repositories.entries().iter().map(|entry| entry.key.as_str()).collect();
    assert_eq!(names, vec!["a", "ab", "b", "c"]);
    let a: &PersistedRepoState = state.repositories.get("a").expect("it was remembered");
    assert_eq!(a.level, "ERROR");
    assert_eq!(a.updated_at, "later");
    assert_eq!(a.error.as_deref(), Some("no network"));
    assert!(a.branch.is_none() && a.message.is_none());
    let b = state.repositories.get("b").expect("it was remembered");
    assert_eq!(b.level, "INFO");
    assert_eq!(b.behind, Some(2));
    assert_eq!(b.decision.as_deref(), Some("pull-fast-forward"));
    assert!(b.error.is_none());
    assert!(state.repositories.get("bc").is_none());
}

#[test]
fn history_records_say_how_it_went() {
    let good = HistoryRecord::success("tool", "/t", "now", &snapshot(), &report());
    assert_eq!(good.recorded_at, "now");
    assert_eq!(good.upstream.as_deref(), Some("origin/main"));
    assert_eq!(good.dirty, Some(false));
    assert_eq!(good.message.as_deref(), Some("main is behind"));
    let bad = HistoryRecord::failure("tool", "/t", "now", "no network");
    assert_eq!((bad.level.as_str(), bad.error.as_deref()), ("ERROR", Some("no network")));
    assert!(bad.ahead.is_none());
}
